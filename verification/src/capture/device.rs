//! The capture devices of the machine, and the choice among them.

use vstd::prelude::*;

use crate::text::{contains, eq_ignore_ascii_case, same, starts_with};
#[allow(unused_imports)]
use crate::text::{occurs, same_ignoring_ascii_case, texts};

verus! {

/// Why a capture could not be started or could not go on.
#[derive(Debug)]
pub enum CaptureError<E> {
    /// The devices could not be listed, or one of them could not be selected.
    DeviceError(E),
    /// A capture failed, before or after it had delivered a packet.
    CaptureError { has_captured: bool, error: E },
    /// The packet filter was not accepted.
    FilterError(E),
}

/// Whether a device is connected to its network.
#[derive(Debug, Clone, Copy, PartialEq, Eq, Structural)]
pub enum ConnectionStatus {
    Unknown,
    Connected,
    Disconnected,
    NotApplicable,
}

/// A device that packets can be captured from.
#[derive(Debug)]
pub struct PcapDevice {
    /// The name of the interface.
    pub name: String,
    /// A description of the interface, if it has one.
    pub desc: Option<String>,
    /// How many addresses the interface has.
    pub addresses: usize,
    /// Whether this is a loopback interface.
    pub loopback: bool,
    pub connection_status: ConnectionStatus,
}

impl Clone for PcapDevice {
    fn clone(&self) -> (r: PcapDevice)
        ensures
            r == *self,
    {
        PcapDevice {
            name: self.name.clone(),
            desc: match &self.desc {
                Some(desc) => Some(desc.clone()),
                None => None,
            },
            addresses: self.addresses,
            loopback: self.loopback,
            connection_status: self.connection_status,
        }
    }
}

/// Whether `name` is that of the remote virtual interface of an iPhone.
pub open spec fn is_rvi_name(name: Seq<char>) -> bool {
    "rvi"@.is_prefix_of(name)
}

/// Whether `device` is the remote virtual interface of an iPhone.
pub open spec fn is_rvi(device: PcapDevice) -> bool {
    is_rvi_name(device.name@)
}

/// Whether packets are worth capturing from `device`: it is connected and has an
/// address, or it is a remote virtual interface; and it is no loopback.
pub open spec fn is_capture_device(device: PcapDevice) -> bool {
    &&& device.connection_status == ConnectionStatus::Connected || is_rvi(device)
    &&& device.addresses > 0 || is_rvi(device)
    &&& !device.loopback
}

/// `is_capture_device`, as a predicate for `filter`.
pub open spec fn capturable() -> spec_fn(PcapDevice) -> bool {
    |device: PcapDevice| is_capture_device(device)
}

impl PcapDevice {
    /// The name of the interface.
    pub fn name(&self) -> (r: &str)
        ensures
            r@ == self.name@,
    {
        self.name.as_str()
    }

    /// Whether packets are worth capturing from this device.
    pub fn is_worth_capturing(&self) -> (r: bool)
        ensures
            r == is_capture_device(*self),
    {
        let rvi: bool = starts_with(self.name.as_str(), "rvi");
        (self.connection_status == ConnectionStatus::Connected || rvi) && (self.addresses > 0
            || rvi) && !self.loopback
    }
}

/// The devices to capture from, out of those that the system listed.
pub fn connected_capture_devices<E>(listed: Result<Vec<PcapDevice>, E>) -> (r: Result<
    Vec<PcapDevice>,
    CaptureError<E>,
>)
    ensures
        match listed {
            Ok(devices) => r matches Ok(kept) && kept@ == devices@.filter(capturable()),
            Err(error) => r == Err::<Vec<PcapDevice>, CaptureError<E>>(
                CaptureError::DeviceError(error),
            ),
        },
{
    let devices: Vec<PcapDevice> = match listed {
        Ok(devices) => devices,
        Err(error) => return Err(CaptureError::DeviceError(error)),
    };
    let ghost all = devices@;
    let mut kept: Vec<PcapDevice> = Vec::new();
    proof {
        reveal(Seq::filter);
        assert(all.take(0).filter(capturable()) =~= seq![]);
    }
    for device in it: devices
        invariant
            it.seq() == all,
            kept@ == all.take(it.index() as int).filter(capturable()),
    {
        proof {
            lemma_filter_take(all, capturable(), it.index() as int);
        }
        if device.is_worth_capturing() {
            kept.push(device);
        }
    }
    assert(all.take(all.len() as int) == all);
    Ok(kept)
}

/// Filtering one more element: it is kept or it is not.
proof fn lemma_filter_take<T>(s: Seq<T>, p: spec_fn(T) -> bool, i: int)
    requires
        0 <= i < s.len(),
    ensures
        s.take(i + 1).filter(p) == if p(s[i]) {
            s.take(i).filter(p).push(s[i])
        } else {
            s.take(i).filter(p)
        },
{
    reveal(Seq::filter);
    assert(s.take(i + 1).drop_last() == s.take(i));
}

// ---------------------------------------------------------------------------
// Choice by name
// ---------------------------------------------------------------------------

/// Whether `name` is the description of `device` up to the case of ASCII letters,
/// or a part of it.
pub open spec fn described_by(name: Seq<char>, device: PcapDevice) -> bool {
    device.desc matches Some(desc) && (same_ignoring_ascii_case(desc@, name) || occurs(desc@, name))
}

/// Whether `name` designates `device`: it is the interface's name, or describes
/// the device. The name of a remote virtual interface stands for that interface
/// alone.
pub open spec fn designates(name: Seq<char>, device: PcapDevice) -> bool {
    device.name@ == name || (!is_rvi_name(name) && described_by(name, device))
}

/// Whether a filter for `names` lets `device` through: no names let all through.
pub open spec fn passes(names: Seq<Seq<char>>, device: PcapDevice) -> bool {
    names.len() == 0 || exists|i: int|
        0 <= i < names.len() && designates(#[trigger] names[i], device)
}

/// Lets the devices through that one of its names designates.
#[derive(Debug, Clone)]
pub struct PcapDeviceFilter {
    names: Vec<String>,
}

impl View for PcapDeviceFilter {
    type V = Seq<Seq<char>>;

    /// The names of this filter.
    closed spec fn view(&self) -> Seq<Seq<char>> {
        texts(self.names@)
    }
}

impl PcapDeviceFilter {
    /// A filter for `names`.
    pub fn new(names: Vec<String>) -> (r: PcapDeviceFilter)
        ensures
            r@ == texts(names@),
    {
        PcapDeviceFilter { names }
    }

    /// Whether this filter lets `device` through.
    pub fn matches(&self, device: &PcapDevice) -> (r: bool)
        ensures
            r == passes(self@, *device),
    {
        if self.names.len() == 0 {
            return true;
        }
        let mut i: usize = 0;
        while i < self.names.len()
            invariant
                i <= self.names@.len(),
                self.names@.len() > 0,
                forall|j: int| 0 <= j < i ==> !designates(#[trigger] self@[j], *device),
            decreases self.names@.len() - i,
        {
            let name: &str = self.names[i].as_str();
            assert(self@[i as int] == name@);
            if same(device.name.as_str(), name) {
                return true;
            }
            if !starts_with(name, "rvi") {
                if let Some(desc) = &device.desc {
                    if eq_ignore_ascii_case(desc.as_str(), name) || contains(desc.as_str(), name) {
                        return true;
                    }
                }
            }
            i += 1;
        }
        false
    }
}

/// Lists every device that is worth capturing from.
#[derive(Debug, Clone, Copy)]
pub struct PcapBackend;

impl PcapBackend {
    pub fn new() -> (r: PcapBackend)
        ensures
            r == PcapBackend,
    {
        PcapBackend
    }

    /// The devices to capture from, out of those that the system listed.
    pub fn list_devices<E>(&self, listed: Result<Vec<PcapDevice>, E>) -> (r: Result<
        Vec<PcapDevice>,
        CaptureError<E>,
    >)
        ensures
            match listed {
                Ok(devices) => r matches Ok(kept) && kept@ == devices@.filter(capturable()),
                Err(error) => r == Err::<Vec<PcapDevice>, CaptureError<E>>(
                    CaptureError::DeviceError(error),
                ),
            },
    {
        connected_capture_devices(listed)
    }
}

/// `passes`, as a predicate for `filter`.
pub open spec fn passing(names: Seq<Seq<char>>) -> spec_fn(PcapDevice) -> bool {
    |device: PcapDevice| passes(names, device)
}

/// Lists the devices that are worth capturing from and that a filter lets
/// through.
#[derive(Debug)]
pub struct FilteredPcapBackend {
    filter: PcapDeviceFilter,
}

impl View for FilteredPcapBackend {
    type V = Seq<Seq<char>>;

    /// The names that devices are chosen by.
    closed spec fn view(&self) -> Seq<Seq<char>> {
        self.filter@
    }
}

impl FilteredPcapBackend {
    /// A backend for the devices that one of `device_names` designates, or for
    /// all devices where there are no names.
    pub fn new(device_names: Vec<String>) -> (r: FilteredPcapBackend)
        ensures
            r@ == texts(device_names@),
    {
        FilteredPcapBackend { filter: PcapDeviceFilter::new(device_names) }
    }

    /// The devices to capture from, out of those that the system listed.
    pub fn list_devices<E>(&self, listed: Result<Vec<PcapDevice>, E>) -> (r: Result<
        Vec<PcapDevice>,
        CaptureError<E>,
    >)
        ensures
            match listed {
                Ok(devices) => r matches Ok(kept) && kept@ == devices@.filter(capturable()).filter(
                    passing(self@),
                ),
                Err(error) => r == Err::<Vec<PcapDevice>, CaptureError<E>>(
                    CaptureError::DeviceError(error),
                ),
            },
    {
        let devices: Vec<PcapDevice> = match connected_capture_devices(listed) {
            Ok(devices) => devices,
            Err(error) => return Err(error),
        };
        let ghost all = devices@;
        let mut kept: Vec<PcapDevice> = Vec::new();
        proof {
            reveal(Seq::filter);
            assert(all.take(0).filter(passing(self@)) =~= seq![]);
        }
        for device in it: devices
            invariant
                it.seq() == all,
                kept@ == all.take(it.index() as int).filter(passing(self@)),
        {
            proof {
                lemma_filter_take(all, passing(self@), it.index() as int);
            }
            if self.filter.matches(&device) {
                kept.push(device);
            }
        }
        assert(all.take(all.len() as int) == all);
        Ok(kept)
    }
}

// ---------------------------------------------------------------------------
// Laws
// ---------------------------------------------------------------------------

/// A loopback interface is never captured from, by whatever name it is asked for.
pub proof fn law_no_loopback(devices: Seq<PcapDevice>, names: Seq<Seq<char>>, i: int)
    requires
        0 <= i < devices.filter(capturable()).filter(passing(names)).len(),
    ensures
        !devices.filter(capturable()).filter(passing(names))[i].loopback,
{
    let worth = devices.filter(capturable());
    let kept = worth.filter(passing(names));
    lemma_filter_elements(worth, passing(names), i);
    let j = choose|j: int| 0 <= j < worth.len() && worth[j] == kept[i];
    lemma_filter_elements(devices, capturable(), j);
}

/// Choosing by no names is no choice: the filtered list is the whole list.
pub proof fn law_no_names_choose_all(devices: Seq<PcapDevice>)
    ensures
        devices.filter(passing(seq![])) == devices,
    decreases devices.len(),
{
    reveal(Seq::filter);
    if devices.len() > 0 {
        law_no_names_choose_all(devices.drop_last());
        assert(devices.drop_last().push(devices.last()) =~= devices);
    } else {
        assert(devices.filter(passing(seq![])) =~= devices);
    }
}

/// The remote virtual interface that a capture is set up for is listed when it
/// is asked for by its name, with or without addresses and whatever its
/// connection status, unless it is marked as a loopback.
pub proof fn law_rvi_is_listed_by_name(devices: Seq<PcapDevice>, i: int)
    requires
        0 <= i < devices.len(),
        is_rvi(devices[i]),
        !devices[i].loopback,
    ensures
        devices.filter(capturable()).filter(passing(seq![devices[i].name@])).contains(devices[i]),
{
    let device = devices[i];
    let names = seq![device.name@];
    let worth = devices.filter(capturable());
    assert(capturable()(device));
    lemma_filter_keeps(devices, capturable(), i);
    let j = choose|j: int| 0 <= j < worth.len() && worth[j] == device;
    assert(designates(names[0], device));
    assert(passing(names)(device));
    lemma_filter_keeps(worth, passing(names), j);
}

/// Every device that is listed is designated by one of the names asked for.
pub proof fn law_only_designated(devices: Seq<PcapDevice>, names: Seq<Seq<char>>, i: int)
    requires
        names.len() > 0,
        0 <= i < devices.filter(capturable()).filter(passing(names)).len(),
    ensures
        exists|k: int|
            0 <= k < names.len() && designates(
                #[trigger] names[k],
                devices.filter(capturable()).filter(passing(names))[i],
            ),
{
    lemma_filter_elements(devices.filter(capturable()), passing(names), i);
}

/// Asking for a remote virtual interface captures only that interface: every
/// device that is listed has its name.
pub proof fn law_only_that_interface(devices: Seq<PcapDevice>, interface: Seq<char>, i: int)
    requires
        is_rvi_name(interface),
        0 <= i < devices.filter(capturable()).filter(passing(seq![interface])).len(),
    ensures
        devices.filter(capturable()).filter(passing(seq![interface]))[i].name@ == interface,
{
    law_only_designated(devices, seq![interface], i);
}

/// What `filter` keeps was there and satisfies the predicate.
proof fn lemma_filter_elements<T>(s: Seq<T>, p: spec_fn(T) -> bool, i: int)
    requires
        0 <= i < s.filter(p).len(),
    ensures
        p(s.filter(p)[i]),
        exists|j: int| 0 <= j < s.len() && s[j] == s.filter(p)[i],
    decreases s.len(),
{
    reveal(Seq::filter);
    if s.len() > 0 {
        let shorter = s.drop_last();
        if i < shorter.filter(p).len() {
            lemma_filter_elements(shorter, p, i);
            let j = choose|j: int| 0 <= j < shorter.len() && shorter[j] == shorter.filter(p)[i];
            assert(s[j] == s.filter(p)[i]);
        } else {
            assert(s[s.len() - 1] == s.filter(p)[i]);
        }
    }
}

/// What satisfies the predicate stays.
proof fn lemma_filter_keeps<T>(s: Seq<T>, p: spec_fn(T) -> bool, i: int)
    requires
        0 <= i < s.len(),
        p(s[i]),
    ensures
        s.filter(p).contains(s[i]),
    decreases s.len(),
{
    reveal(Seq::filter);
    let shorter = s.drop_last();
    if i < shorter.len() {
        lemma_filter_keeps(shorter, p, i);
        let j = choose|j: int|
            0 <= j < shorter.filter(p).len() && shorter.filter(p)[j] == shorter[i];
        assert(s.filter(p)[j] == s[i]);
    } else {
        assert(s.filter(p)[shorter.filter(p).len() as int] == s[i]);
    }
}

/// Every device that is connected, has an address or more and is no loopback is
/// captured from.
pub proof fn law_connected_devices_are_listed<E>(
    devices: Vec<PcapDevice>,
    listed: Result<Vec<PcapDevice>, CaptureError<E>>,
    i: int,
)
    requires
        call_ensures(connected_capture_devices::<E>, (Ok(devices),), listed),
        0 <= i < devices@.len(),
        devices@[i].connection_status is Connected,
        devices@[i].addresses >= 1,
        !devices@[i].loopback,
    ensures
        listed matches Ok(kept) && kept@.contains(devices@[i]),
{
    lemma_filter_keeps(devices@, capturable(), i);
}

/// Every interface whose name begins with `rvi` is captured from, unless it is a
/// loopback, whether or not it is connected and has an address.
pub proof fn law_remote_interfaces_are_listed<E>(
    devices: Vec<PcapDevice>,
    listed: Result<Vec<PcapDevice>, CaptureError<E>>,
    i: int,
)
    requires
        call_ensures(connected_capture_devices::<E>, (Ok(devices),), listed),
        0 <= i < devices@.len(),
        devices@[i].name@.len() >= 3,
        devices@[i].name@.take(3) == seq!['r', 'v', 'i'],
        !devices@[i].loopback,
    ensures
        listed matches Ok(kept) && kept@.contains(devices@[i]),
{
    lemma_rvi_name(devices@[i].name@);
    lemma_filter_keeps(devices@, capturable(), i);
}

/// A name is that of a remote virtual interface exactly if its first three
/// characters are `rvi`.
proof fn lemma_rvi_name(name: Seq<char>)
    ensures
        is_rvi_name(name) <==> name.len() >= 3 && name.take(3) == seq!['r', 'v', 'i'],
{
    reveal_strlit("rvi");
    assert("rvi"@ =~= seq!['r', 'v', 'i']);
    if name.len() >= 3 {
        assert(name.take(3) =~= name.subrange(0, 3));
    }
}

/// Nothing else is captured from: what is listed is a device of the machine, no
/// loopback, and either connected with an address or named `rvi` and something.
pub proof fn law_nothing_else_is_listed<E>(
    devices: Vec<PcapDevice>,
    listed: Result<Vec<PcapDevice>, CaptureError<E>>,
    i: int,
)
    requires
        call_ensures(connected_capture_devices::<E>, (Ok(devices),), listed),
        listed is Ok,
        0 <= i < listed->Ok_0@.len(),
    ensures
        devices@.contains(listed->Ok_0@[i]),
        !listed->Ok_0@[i].loopback,
        (listed->Ok_0@[i].connection_status is Connected && listed->Ok_0@[i].addresses >= 1) || (
        listed->Ok_0@[i].name@.len() >= 3 && listed->Ok_0@[i].name@.take(3) == seq!['r', 'v', 'i']),
{
    lemma_filter_elements(devices@, capturable(), i);
    lemma_rvi_name(listed->Ok_0@[i].name@);
}

/// Devices are listed one by one and in order: the list for two groups of devices
/// is the list for the first and then that for the second, and one device is
/// listed once at most.
pub proof fn law_devices_are_listed_in_order<E>(
    first: Vec<PcapDevice>,
    second: Vec<PcapDevice>,
    both: Vec<PcapDevice>,
    of_first: Result<Vec<PcapDevice>, CaptureError<E>>,
    of_second: Result<Vec<PcapDevice>, CaptureError<E>>,
    of_both: Result<Vec<PcapDevice>, CaptureError<E>>,
)
    requires
        both@ == first@ + second@,
        call_ensures(connected_capture_devices::<E>, (Ok(first),), of_first),
        call_ensures(connected_capture_devices::<E>, (Ok(second),), of_second),
        call_ensures(connected_capture_devices::<E>, (Ok(both),), of_both),
    ensures
        of_first is Ok && of_second is Ok && of_both is Ok,
        of_both->Ok_0@ == of_first->Ok_0@ + of_second->Ok_0@,
        first@.len() <= 1 ==> of_first->Ok_0@.len() <= first@.len(),
{
    Seq::filter_distributes_over_add(first@, second@, capturable());
    first@.lemma_filter_len(capturable());
}

/// Both backends fail where the devices cannot be listed, with the reason for it.
pub proof fn law_listing_errors_are_passed_on<E>(
    all: PcapBackend,
    some: FilteredPcapBackend,
    reason: E,
    listed: Result<Vec<PcapDevice>, CaptureError<E>>,
    of_all: Result<Vec<PcapDevice>, CaptureError<E>>,
    of_some: Result<Vec<PcapDevice>, CaptureError<E>>,
)
    requires
        call_ensures(connected_capture_devices::<E>, (Err(reason),), listed),
        call_ensures(PcapBackend::list_devices::<E>, (&all, Err(reason)), of_all),
        call_ensures(FilteredPcapBackend::list_devices::<E>, (&some, Err(reason)), of_some),
    ensures
        listed matches Err(CaptureError::DeviceError(error)) && error == reason,
        of_all matches Err(CaptureError::DeviceError(error)) && error == reason,
        of_some matches Err(CaptureError::DeviceError(error)) && error == reason,
{
}

/// A backend without a filter lists all devices that are captured from; one with
/// a filter lists, of these, exactly those that the filter lets through.
pub proof fn law_backends_list_what_passes<E>(
    names: Vec<String>,
    filter: PcapDeviceFilter,
    all: PcapBackend,
    some: FilteredPcapBackend,
    devices: Vec<PcapDevice>,
    listed: Result<Vec<PcapDevice>, CaptureError<E>>,
    of_all: Result<Vec<PcapDevice>, CaptureError<E>>,
    of_some: Result<Vec<PcapDevice>, CaptureError<E>>,
    device: PcapDevice,
    passes: bool,
)
    requires
        call_ensures(PcapDeviceFilter::new, (names,), filter),
        call_ensures(FilteredPcapBackend::new, (names,), some),
        call_ensures(connected_capture_devices::<E>, (Ok(devices),), listed),
        call_ensures(PcapBackend::list_devices::<E>, (&all, Ok(devices)), of_all),
        call_ensures(FilteredPcapBackend::list_devices::<E>, (&some, Ok(devices)), of_some),
        call_ensures(PcapDeviceFilter::matches, (&filter, &device), passes),
    ensures
        listed is Ok && of_all is Ok && of_some is Ok,
        of_all->Ok_0@ == listed->Ok_0@,
        of_some->Ok_0@.contains(device) <==> listed->Ok_0@.contains(device) && passes,
        names@.len() == 0 ==> of_some->Ok_0@ == listed->Ok_0@,
{
    let worth = devices@.filter(capturable());
    let kept = worth.filter(passing(filter@));
    if kept.contains(device) {
        let i = choose|i: int| 0 <= i < kept.len() && kept[i] == device;
        lemma_filter_elements(worth, passing(filter@), i);
    }
    if worth.contains(device) && passes {
        let i = choose|i: int| 0 <= i < worth.len() && worth[i] == device;
        lemma_filter_keeps(worth, passing(filter@), i);
    }
    if names@.len() == 0 {
        assert(filter@ =~= seq![]);
        law_no_names_choose_all(worth);
    }
}

/// A filter keeps the order of the devices that it lets through.
pub proof fn law_filtered_devices_are_listed_in_order<E>(
    backend: FilteredPcapBackend,
    first: Vec<PcapDevice>,
    second: Vec<PcapDevice>,
    both: Vec<PcapDevice>,
    of_first: Result<Vec<PcapDevice>, CaptureError<E>>,
    of_second: Result<Vec<PcapDevice>, CaptureError<E>>,
    of_both: Result<Vec<PcapDevice>, CaptureError<E>>,
)
    requires
        both@ == first@ + second@,
        call_ensures(FilteredPcapBackend::list_devices::<E>, (&backend, Ok(first)), of_first),
        call_ensures(FilteredPcapBackend::list_devices::<E>, (&backend, Ok(second)), of_second),
        call_ensures(FilteredPcapBackend::list_devices::<E>, (&backend, Ok(both)), of_both),
    ensures
        of_first is Ok && of_second is Ok && of_both is Ok,
        of_both->Ok_0@ == of_first->Ok_0@ + of_second->Ok_0@,
        first@.len() <= 1 ==> of_first->Ok_0@.len() <= first@.len(),
{
    Seq::filter_distributes_over_add(first@, second@, capturable());
    Seq::filter_distributes_over_add(
        first@.filter(capturable()),
        second@.filter(capturable()),
        passing(backend@),
    );
    first@.lemma_filter_len(capturable());
    first@.filter(capturable()).lemma_filter_len(passing(backend@));
}

/// A device passes by its name, whatever other names are asked for.
pub proof fn law_filter_goes_by_name(
    names: Vec<String>,
    filter: PcapDeviceFilter,
    device: PcapDevice,
    passes: bool,
    i: int,
)
    requires
        call_ensures(PcapDeviceFilter::new, (names,), filter),
        call_ensures(PcapDeviceFilter::matches, (&filter, &device), passes),
        0 <= i < names@.len(),
        names@[i]@ == device.name@,
    ensures
        passes,
{
    assert(designates(filter@[i], device));
}

/// A device passes by any part of its description, and by its description in
/// other cases of the ASCII letters, unless the name asked for is that of a
/// remote virtual interface.
pub proof fn law_filter_goes_by_description(
    names: Vec<String>,
    filter: PcapDeviceFilter,
    device: PcapDevice,
    passes: bool,
    i: int,
)
    requires
        call_ensures(PcapDeviceFilter::new, (names,), filter),
        call_ensures(PcapDeviceFilter::matches, (&filter, &device), passes),
        0 <= i < names@.len(),
        !(names@[i]@.len() >= 3 && names@[i]@.take(3) == seq!['r', 'v', 'i']),
        device.desc is Some,
        (exists|front: Seq<char>, back: Seq<char>|
            device.desc->0@ == #[trigger] (front + names@[i]@ + back)) || equal_up_to_case(
            device.desc->0@,
            names@[i]@,
        ),
    ensures
        passes,
{
    lemma_rvi_name(names@[i]@);
    crate::text::law_occurrence(device.desc->0@, names@[i]@);
    crate::text::law_case_of_ascii_letters(device.desc->0@, names@[i]@);
    assert(designates(filter@[i], device));
}

/// Whether `a` and `b` are equally long and at each place hold the same
/// character, or the two cases of one ASCII letter.
pub open spec fn equal_up_to_case(a: Seq<char>, b: Seq<char>) -> bool {
    a.len() == b.len() && forall|i: int|
        0 <= i < a.len() ==> #[trigger] a[i] == b[i] || crate::text::is_pair_of_cases(a[i], b[i])
            || crate::text::is_pair_of_cases(b[i], a[i])
}

/// Nothing else passes: a device that a filter with names lets through has one of
/// them as its name, or in its description where the name is not that of a remote
/// virtual interface. A filter without names lets every device through.
pub proof fn law_nothing_else_passes(
    names: Vec<String>,
    filter: PcapDeviceFilter,
    device: PcapDevice,
    passes: bool,
)
    requires
        call_ensures(PcapDeviceFilter::new, (names,), filter),
        call_ensures(PcapDeviceFilter::matches, (&filter, &device), passes),
    ensures
        names@.len() == 0 ==> passes,
        passes && names@.len() > 0 ==> exists|i: int|
            0 <= i < names@.len() && (#[trigger] names@[i]@ == device.name@ || (!(names@[i]@.len()
                >= 3 && names@[i]@.take(3) == seq!['r', 'v', 'i']) && device.desc is Some && ((
            exists|front: Seq<char>, back: Seq<char>|
                device.desc->0@ == #[trigger] (front + names@[i]@ + back)) || equal_up_to_case(
                device.desc->0@,
                names@[i]@,
            )))),
{
    if passes && names@.len() > 0 {
        let i = choose|i: int|
            0 <= i < filter@.len() && designates(#[trigger] filter@[i], device);
        assert(filter@[i] == names@[i]@);
        lemma_rvi_name(names@[i]@);
        if device.desc is Some {
            crate::text::law_occurrence(device.desc->0@, names@[i]@);
            crate::text::law_case_of_ascii_letters(device.desc->0@, names@[i]@);
        }
    }
}

/// A device is worth capturing from exactly if it is no loopback, and either
/// connected with an address or more, or a remote virtual interface.
pub proof fn law_worth_of_a_device(device: PcapDevice, worth: bool)
    requires
        call_ensures(PcapDevice::is_worth_capturing, (&device,), worth),
    ensures
        device.loopback ==> !worth,
        !device.loopback && device.connection_status is Connected && device.addresses >= 1
            ==> worth,
        !device.loopback && device.name@.len() >= 3 && device.name@.take(3) == seq!['r', 'v', 'i']
            ==> worth,
        worth && !(device.connection_status is Connected && device.addresses >= 1)
            ==> device.name@.len() >= 3 && device.name@.take(3) == seq!['r', 'v', 'i'],
{
    lemma_rvi_name(device.name@);
}

} // verus!
