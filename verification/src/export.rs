//! Where an export is written.

use vstd::prelude::*;

verus! {

// ---------------------------------------------------------------------------
// Local time
// ---------------------------------------------------------------------------

/// A date and time of the local calendar and clock.
#[derive(Debug, Clone, Copy, PartialEq, Eq, Structural)]
pub struct LocalTime {
    pub year: i32,
    pub month: u32,
    pub day: u32,
    pub hour: u32,
    pub minute: u32,
    pub second: u32,
    /// The nanoseconds since the last whole second; those of a leap second
    /// continue the count of second 59.
    pub nanosecond: u32,
}

/// Whether `year` is a leap year of the Gregorian calendar.
pub open spec fn is_leap_year(year: int) -> bool {
    year % 4 == 0 && (year % 100 != 0 || year % 400 == 0)
}

/// The number of days of a month.
pub open spec fn days_in_month(year: int, month: int) -> int {
    if month == 2 {
        if is_leap_year(year) {
            29
        } else {
            28
        }
    } else if month == 4 || month == 6 || month == 9 || month == 11 {
        30
    } else {
        31
    }
}

impl LocalTime {
    /// Whether there is such a date and time, in a year that the calendar reaches.
    pub open spec fn is_real(self) -> bool {
        &&& -262143 <= self.year <= 262142
        &&& 1 <= self.month <= 12
        &&& 1 <= self.day <= days_in_month(self.year as int, self.month as int)
        &&& self.hour < 24
        &&& self.minute < 60
        &&& self.second < 60
        &&& self.nanosecond < 1_000_000_000 || (self.second == 59 && self.nanosecond
            < 2_000_000_000)
    }
}

// ---------------------------------------------------------------------------
// Local time as text
// ---------------------------------------------------------------------------

/// The decimal digit `n`.
pub open spec fn digit(n: int) -> char {
    ('0' as u32 + n) as char
}

/// `n` in decimal, with at least `width` digits.
pub open spec fn decimal(n: nat, width: nat) -> Seq<char>
    decreases n, width,
{
    if n < 10 && width <= 1 {
        seq![digit(n as int)]
    } else {
        decimal(
            n / 10,
            if width > 0 {
                (width - 1) as nat
            } else {
                0
            },
        ).push(digit((n % 10) as int))
    }
}

/// A year: four digits, or a sign and at least four digits where it is negative
/// or has more.
pub open spec fn year_text(year: int) -> Seq<char> {
    if 0 <= year <= 9999 {
        decimal(year as nat, 4)
    } else if year < 0 {
        seq!['-'] + decimal((-year) as nat, 4)
    } else {
        seq!['+'] + decimal(year as nat, 4)
    }
}

/// The second that is written for `time`: a leap second is second 60.
pub open spec fn written_second(time: LocalTime) -> int {
    time.second + time.nanosecond as int / 1_000_000_000
}

/// What the specifier `c` stands for in a pattern.
pub open spec fn field(time: LocalTime, c: char) -> Seq<char> {
    if c == 'Y' {
        year_text(time.year as int)
    } else if c == 'm' {
        decimal(time.month as nat, 2)
    } else if c == 'd' {
        decimal(time.day as nat, 2)
    } else if c == 'H' {
        decimal(time.hour as nat, 2)
    } else if c == 'M' {
        decimal(time.minute as nat, 2)
    } else {
        decimal(written_second(time) as nat, 2)
    }
}

/// Whether every percent sign in `pattern` belongs to one of the specifiers `%Y`,
/// `%m`, `%d`, `%H`, `%M` and `%S`.
pub open spec fn is_pattern(pattern: Seq<char>) -> bool
    decreases pattern.len(),
{
    if pattern.len() == 0 {
        true
    } else if pattern[0] != '%' {
        is_pattern(pattern.skip(1))
    } else {
        &&& pattern.len() >= 2
        &&& seq!['Y', 'm', 'd', 'H', 'M', 'S'].contains(pattern[1])
        &&& is_pattern(pattern.skip(2))
    }
}

/// `pattern` with its specifiers replaced by what they stand for.
pub open spec fn formatted(time: LocalTime, pattern: Seq<char>) -> Seq<char>
    decreases pattern.len(),
{
    if pattern.len() == 0 {
        seq![]
    } else if pattern[0] != '%' || pattern.len() < 2 {
        seq![pattern[0]] + formatted(time, pattern.skip(1))
    } else {
        field(time, pattern[1]) + formatted(time, pattern.skip(2))
    }
}

/// `chrono::NaiveDateTime::format`, as text: the date and time, where there is
/// such a one, written by `pattern`. The specifiers stand for the year and for
/// the other fields in two digits, as chrono documents them; all other characters
/// stand for themselves.
#[verifier::external_body]
fn format_time(time: &LocalTime, pattern: &str) -> (r: Option<String>)
    requires
        is_pattern(pattern@),
    ensures
        r is Some <==> time.is_real(),
        r matches Some(text) ==> text@ == formatted(*time, pattern@),
{
    let date = chrono::NaiveDate::from_ymd_opt(time.year, time.month, time.day)?;
    let moment = date.and_hms_nano_opt(time.hour, time.minute, time.second, time.nanosecond)?;
    Some(moment.format(pattern).to_string())
}

// ---------------------------------------------------------------------------
// The name of an export
// ---------------------------------------------------------------------------

/// The name of an export that is made at `time`.
pub open spec fn archive_name(time: LocalTime) -> Seq<char> {
    "archive_output-"@ + field(time, 'Y') + "-"@ + field(time, 'm') + "-"@ + field(time, 'd')
        + "T"@ + field(time, 'H') + "-"@ + field(time, 'M') + "-"@ + field(time, 'S') + ".json"@
}

/// The name under which an export is written where none was given, if `time` is
/// a time that there is.
pub fn archive_file_name(time: &LocalTime) -> (r: Option<String>)
    ensures
        match r {
            Some(name) => time.is_real() && name@ == archive_name(*time),
            None => !time.is_real(),
        },
{
    proof {
        lemma_archive_pattern(*time);
    }
    format_time(time, "archive_output-%Y-%m-%dT%H-%M-%S.json")
}

/// Characters other than the percent sign stand for themselves.
proof fn lemma_literal(time: LocalTime, literal: Seq<char>, rest: Seq<char>)
    requires
        forall|i: int| 0 <= i < literal.len() ==> #[trigger] literal[i] != '%',
    ensures
        formatted(time, literal + rest) == literal + formatted(time, rest),
        is_pattern(rest) ==> is_pattern(literal + rest),
    decreases literal.len(),
{
    if literal.len() == 0 {
        assert(literal + rest =~= rest);
        assert(literal + formatted(time, rest) =~= formatted(time, rest));
    } else {
        let shorter = literal.skip(1);
        assert((literal + rest).skip(1) =~= shorter + rest);
        assert forall|i: int| 0 <= i < shorter.len() implies #[trigger] shorter[i] != '%' by {
            assert(shorter[i] == literal[i + 1]);
        }
        lemma_literal(time, shorter, rest);
        assert(seq![literal[0]] + (shorter + formatted(time, rest)) =~= literal + formatted(
            time,
            rest,
        ));
    }
}

/// A specifier stands for its field.
proof fn lemma_specifier(time: LocalTime, c: char, rest: Seq<char>)
    requires
        seq!['Y', 'm', 'd', 'H', 'M', 'S'].contains(c),
    ensures
        formatted(time, seq!['%', c] + rest) == field(time, c) + formatted(time, rest),
        is_pattern(rest) ==> is_pattern(seq!['%', c] + rest),
{
    assert((seq!['%', c] + rest).skip(2) =~= rest);
}

/// The pattern of an export's name gives `archive_name`.
proof fn lemma_archive_pattern(time: LocalTime)
    ensures
        is_pattern("archive_output-%Y-%m-%dT%H-%M-%S.json"@),
        formatted(time, "archive_output-%Y-%m-%dT%H-%M-%S.json"@) == archive_name(time),
{
    reveal_strlit("archive_output-%Y-%m-%dT%H-%M-%S.json");
    reveal_strlit("archive_output-");
    reveal_strlit("-");
    reveal_strlit("T");
    reveal_strlit(".json");
    let specifiers = seq!['Y', 'm', 'd', 'H', 'M', 'S'];
    assert(specifiers[0] == 'Y' && specifiers[1] == 'm' && specifiers[2] == 'd' && specifiers[3]
        == 'H' && specifiers[4] == 'M' && specifiers[5] == 'S');
    let none = Seq::<char>::empty();
    let p11 = ".json"@ + none;
    let p10 = seq!['%', 'S'] + p11;
    let p9 = "-"@ + p10;
    let p8 = seq!['%', 'M'] + p9;
    let p7 = "-"@ + p8;
    let p6 = seq!['%', 'H'] + p7;
    let p5 = "T"@ + p6;
    let p4 = seq!['%', 'd'] + p5;
    let p3 = "-"@ + p4;
    let p2 = seq!['%', 'm'] + p3;
    let p1 = "-"@ + p2;
    let p0 = seq!['%', 'Y'] + p1;
    lemma_literal(time, ".json"@, none);
    lemma_specifier(time, 'S', p11);
    lemma_literal(time, "-"@, p10);
    lemma_specifier(time, 'M', p9);
    lemma_literal(time, "-"@, p8);
    lemma_specifier(time, 'H', p7);
    lemma_literal(time, "T"@, p6);
    lemma_specifier(time, 'd', p5);
    lemma_literal(time, "-"@, p4);
    lemma_specifier(time, 'm', p3);
    lemma_literal(time, "-"@, p2);
    lemma_specifier(time, 'Y', p1);
    lemma_literal(time, "archive_output-"@, p0);
    assert("archive_output-%Y-%m-%dT%H-%M-%S.json"@ =~= "archive_output-"@ + p0);
    assert(formatted(time, "archive_output-"@ + p0) =~= archive_name(time));
}

/// Where to write an export: to `output` where the user named it, else to
/// `file_name`; nowhere where there is no export.
pub fn plan_export<X, P>(export: Option<X>, output: Option<P>, file_name: P) -> (r: Option<(X, P)>)
    ensures
        r == match (export, output) {
            (Some(export), Some(path)) => Some((export, path)),
            (Some(export), None) => Some((export, file_name)),
            (None, _) => None,
        },
{
    match export {
        Some(export) => match output {
            Some(path) => Some((export, path)),
            None => Some((export, file_name)),
        },
        None => None,
    }
}

// ---------------------------------------------------------------------------
// Laws
// ---------------------------------------------------------------------------

/// Digits tell their numbers apart.
proof fn lemma_digit(a: int, b: int)
    requires
        0 <= a < 10,
        0 <= b < 10,
        digit(a) == digit(b),
    ensures
        a == b,
{
}

/// A number in decimal begins with a digit, and below one hundred two digits are
/// enough for it.
proof fn lemma_decimal(n: nat, width: nat)
    ensures
        decimal(n, width).len() > 0,
        '0' <= decimal(n, width)[0] <= '9',
        n < 100 && width == 2 ==> decimal(n, width).len() == 2,
    decreases n, width,
{
    if !(n < 10 && width <= 1) {
        let shorter = if width > 0 {
            (width - 1) as nat
        } else {
            0
        };
        lemma_decimal(n / 10, shorter);
        if n < 100 && width == 2 {
            assert(decimal(n / 10, 1).len() == 1);
        }
    }
}

/// Numbers in decimal can be told apart.
proof fn lemma_decimal_apart(a: nat, b: nat, width: nat)
    requires
        decimal(a, width) == decimal(b, width),
    ensures
        a == b,
    decreases a, width,
{
    let shorter = if width > 0 {
        (width - 1) as nat
    } else {
        0
    };
    let x = decimal(a, width);
    let y = decimal(b, width);
    lemma_decimal(a / 10, shorter);
    lemma_decimal(b / 10, shorter);
    if a < 10 && width <= 1 {
        assert(x.len() == 1 && b < 10);
        assert(x[0] == digit(a as int));
        assert(y[0] == digit(b as int));
        lemma_digit(a as int, b as int);
    } else {
        assert(x == decimal(a / 10, shorter).push(digit((a % 10) as int)));
        if b < 10 && width <= 1 {
            assert(y.len() == 1);
        }
        assert(y == decimal(b / 10, shorter).push(digit((b % 10) as int)));
        assert(x.drop_last() =~= decimal(a / 10, shorter));
        assert(y.drop_last() =~= decimal(b / 10, shorter));
        assert(x.last() == digit((a % 10) as int));
        assert(y.last() == digit((b % 10) as int));
        lemma_decimal_apart(a / 10, b / 10, shorter);
        lemma_digit((a % 10) as int, (b % 10) as int);
    }
}

/// Years can be told apart.
proof fn lemma_year_apart(a: int, b: int)
    requires
        year_text(a) == year_text(b),
    ensures
        a == b,
{
    let x = if a < 0 {
        (-a) as nat
    } else {
        a as nat
    };
    let y = if b < 0 {
        (-b) as nat
    } else {
        b as nat
    };
    lemma_decimal(x, 4);
    lemma_decimal(y, 4);
    assert(year_text(a)[0] == year_text(b)[0]);
    assert(a < 0 <==> year_text(a)[0] == '-');
    assert(b < 0 <==> year_text(b)[0] == '-');
    assert(a > 9999 <==> year_text(a)[0] == '+');
    assert(b > 9999 <==> year_text(b)[0] == '+');
    if !(0 <= a <= 9999) {
        assert(year_text(a).skip(1) =~= decimal(x, 4));
        assert(year_text(b).skip(1) =~= decimal(y, 4));
    }
    lemma_decimal_apart(x, y, 4);
}

/// Equal texts that end in parts of one length have equal ends and equal fronts.
proof fn lemma_same_end(front1: Seq<char>, end1: Seq<char>, front2: Seq<char>, end2: Seq<char>)
    requires
        front1 + end1 == front2 + end2,
        end1.len() == end2.len(),
    ensures
        front1 == front2,
        end1 == end2,
{
    let n = front1.len() as int;
    assert((front1 + end1).len() == front1.len() + end1.len());
    assert((front2 + end2).len() == front2.len() + end2.len());
    assert(front2.len() == n);
    assert((front1 + end1).take(n) =~= front1);
    assert((front2 + end2).take(n) =~= front2);
    assert((front1 + end1).skip(n) =~= end1);
    assert((front2 + end2).skip(n) =~= end2);
}

/// Equal texts that end in a separator and a number of two digits hold the same
/// number, and equal texts in front of it.
proof fn lemma_same_field(
    front1: Seq<char>,
    front2: Seq<char>,
    separator: Seq<char>,
    a: nat,
    b: nat,
)
    requires
        front1 + separator + decimal(a, 2) == front2 + separator + decimal(b, 2),
        a < 100,
        b < 100,
    ensures
        front1 == front2,
        a == b,
{
    lemma_decimal(a, 2);
    lemma_decimal(b, 2);
    lemma_same_end(front1 + separator, decimal(a, 2), front2 + separator, decimal(b, 2));
    lemma_same_end(front1, separator, front2, separator);
    lemma_decimal_apart(a, b, 2);
}

/// Local times that differ in a field down to the second give different names.
pub proof fn law_names_tell_seconds_apart(a: LocalTime, b: LocalTime)
    requires
        a.is_real(),
        b.is_real(),
        archive_name(a) == archive_name(b),
    ensures
        a.year == b.year,
        a.month == b.month,
        a.day == b.day,
        a.hour == b.hour,
        a.minute == b.minute,
        written_second(a) == written_second(b),
{
    let a1 = "archive_output-"@ + field(a, 'Y');
    let b1 = "archive_output-"@ + field(b, 'Y');
    let a2 = a1 + "-"@ + field(a, 'm');
    let b2 = b1 + "-"@ + field(b, 'm');
    let a3 = a2 + "-"@ + field(a, 'd');
    let b3 = b2 + "-"@ + field(b, 'd');
    let a4 = a3 + "T"@ + field(a, 'H');
    let b4 = b3 + "T"@ + field(b, 'H');
    let a5 = a4 + "-"@ + field(a, 'M');
    let b5 = b4 + "-"@ + field(b, 'M');
    let a6 = a5 + "-"@ + field(a, 'S');
    let b6 = b5 + "-"@ + field(b, 'S');
    lemma_same_end(a6, ".json"@, b6, ".json"@);
    lemma_same_field(a5, b5, "-"@, written_second(a) as nat, written_second(b) as nat);
    lemma_same_field(a4, b4, "-"@, a.minute as nat, b.minute as nat);
    lemma_same_field(a3, b3, "T"@, a.hour as nat, b.hour as nat);
    lemma_same_field(a2, b2, "-"@, a.day as nat, b.day as nat);
    lemma_same_field(a1, b1, "-"@, a.month as nat, b.month as nat);
    assert(a1.skip("archive_output-"@.len() as int) =~= field(a, 'Y'));
    assert(b1.skip("archive_output-"@.len() as int) =~= field(b, 'Y'));
    lemma_year_apart(a.year as int, b.year as int);
}

/// The number that the decimal digits of `s` write.
pub open spec fn number(s: Seq<char>) -> int
    decreases s.len(),
{
    if s.len() == 0 {
        0
    } else {
        10 * number(s.drop_last()) + (s.last() as int - '0' as int)
    }
}

/// A number in decimal is read back as that number, and has at least the digits
/// that were asked for.
pub proof fn law_decimal_is_read_back(n: nat, width: nat)
    ensures
        number(decimal(n, width)) == n,
        decimal(n, width).len() >= width,
        forall|i: int|
            0 <= i < decimal(n, width).len() ==> '0' <= #[trigger] decimal(n, width)[i] && decimal(
                n,
                width,
            )[i] <= '9',
    decreases n, width,
{
    let s = decimal(n, width);
    if n < 10 && width <= 1 {
        assert(s.drop_last().len() == 0);
        reveal_with_fuel(number, 2);
    } else {
        let shorter = if width > 0 {
            (width - 1) as nat
        } else {
            0
        };
        law_decimal_is_read_back(n / 10, shorter);
        assert(s.drop_last() =~= decimal(n / 10, shorter));
        assert forall|i: int| 0 <= i < s.len() implies '0' <= #[trigger] s[i] && s[i] <= '9' by {
            if i < s.len() - 1 {
                assert(s[i] == decimal(n / 10, shorter)[i]);
            }
        }
    }
}

/// The name of an export begins with `archive_output-` and the year, ends in
/// `.json`, and in the years of four digits holds the date and the time at fixed
/// places, as numbers of two digits.
pub proof fn law_name_holds_the_time(time: LocalTime, name: Option<String>)
    requires
        call_ensures(archive_file_name, (&time,), name),
        time.is_real(),
        0 <= time.year <= 9999,
    ensures
        name is Some,
        name->0@.len() == 39,
        name->0@.take(15) == "archive_output-"@,
        number(name->0@.subrange(15, 19)) == time.year,
        name->0@[19] == '-' && number(name->0@.subrange(20, 22)) == time.month,
        name->0@[22] == '-' && number(name->0@.subrange(23, 25)) == time.day,
        name->0@[25] == 'T' && number(name->0@.subrange(26, 28)) == time.hour,
        name->0@[28] == '-' && number(name->0@.subrange(29, 31)) == time.minute,
        name->0@[31] == '-' && number(name->0@.subrange(32, 34)) == time.second
            + time.nanosecond as int / 1_000_000_000,
        name->0@.skip(34) == ".json"@,
{
    let s = name->0@;
    reveal_strlit("archive_output-");
    reveal_strlit("-");
    reveal_strlit("T");
    reveal_strlit(".json");
    lemma_four_digits(time.year as nat);
    law_decimal_is_read_back(time.year as nat, 4);
    law_decimal_is_read_back(time.month as nat, 2);
    law_decimal_is_read_back(time.day as nat, 2);
    law_decimal_is_read_back(time.hour as nat, 2);
    law_decimal_is_read_back(time.minute as nat, 2);
    law_decimal_is_read_back(written_second(time) as nat, 2);
    lemma_decimal(time.month as nat, 2);
    lemma_decimal(time.day as nat, 2);
    lemma_decimal(time.hour as nat, 2);
    lemma_decimal(time.minute as nat, 2);
    lemma_decimal(written_second(time) as nat, 2);
    let p1 = "archive_output-"@ + field(time, 'Y');
    let p2 = p1 + "-"@ + field(time, 'm');
    let p3 = p2 + "-"@ + field(time, 'd');
    let p4 = p3 + "T"@ + field(time, 'H');
    let p5 = p4 + "-"@ + field(time, 'M');
    let p6 = p5 + "-"@ + field(time, 'S');
    assert(p1.len() == 19 && p2.len() == 22 && p3.len() == 25 && p4.len() == 28 && p5.len() == 31
        && p6.len() == 34);
    assert(s == p6 + ".json"@);
    lemma_part(p5 + "-"@, field(time, 'S'), ".json"@);
    let t5 = "-"@ + field(time, 'S') + ".json"@;
    assert(s =~= p5 + t5);
    lemma_part(p4 + "-"@, field(time, 'M'), t5);
    let t4 = "-"@ + field(time, 'M') + t5;
    assert(s =~= p4 + t4);
    lemma_part(p3 + "T"@, field(time, 'H'), t4);
    let t3 = "T"@ + field(time, 'H') + t4;
    assert(s =~= p3 + t3);
    lemma_part(p2 + "-"@, field(time, 'd'), t3);
    let t2 = "-"@ + field(time, 'd') + t3;
    assert(s =~= p2 + t2);
    lemma_part(p1 + "-"@, field(time, 'm'), t2);
    let t1 = "-"@ + field(time, 'm') + t2;
    assert(s =~= p1 + t1);
    lemma_part("archive_output-"@, field(time, 'Y'), t1);
    assert(s[19] == t1[0] && s[22] == t2[0] && s[25] == t3[0] && s[28] == t4[0] && s[31] == t5[0]);
    assert(s.take(15) =~= "archive_output-"@);
    assert(s.skip(34) =~= ".json"@);
}

/// A part of a text, by its place.
proof fn lemma_part(front: Seq<char>, part: Seq<char>, back: Seq<char>)
    ensures
        (front + part + back).subrange(front.len() as int, (front.len() + part.len()) as int)
            == part,
{
    assert((front + part + back).subrange(
        front.len() as int,
        (front.len() + part.len()) as int,
    ) =~= part);
}

/// A number below ten thousand has four digits.
proof fn lemma_four_digits(n: nat)
    requires
        n < 10000,
    ensures
        decimal(n, 4).len() == 4,
{
    lemma_decimal(n / 100, 2);
    reveal_with_fuel(decimal, 3);
    assert(n / 10 / 10 == n / 100);
}

/// A day has a name exactly where its month has it: 31 days in seven months, 30 in
/// four, and in February 29 where four divides the year and one hundred does not,
/// or four hundred does, else 28. The clock runs to 23:59:59, with room for a leap
/// second at the end of a minute.
pub proof fn law_real_times_have_names(time: LocalTime, name: Option<String>)
    requires
        call_ensures(archive_file_name, (&time,), name),
    ensures
        name is Some ==> -262143 <= time.year <= 262142,
        name is Some ==> time.hour <= 23 && time.minute <= 59 && time.second <= 59,
        name is Some ==> time.nanosecond <= 999_999_999 || (time.second == 59 && time.nanosecond
            <= 1_999_999_999),
        name is Some ==> 1 <= time.month <= 12 && 1 <= time.day <= 31,
        name is Some && seq![4u32, 6u32, 9u32, 11u32].contains(time.month) ==> time.day <= 30,
        name is Some && time.month == 2 ==> time.day <= 29,
        name is Some && time.month == 2 && time.day == 29 ==> time.year as int % 400 == 0 || (
        time.year as int % 4 == 0 && time.year as int % 100 != 0),
        -262143 <= time.year <= 262142 && time.hour <= 23 && time.minute <= 59 && time.second <= 59
            && (time.nanosecond <= 999_999_999 || (time.second == 59 && time.nanosecond
            <= 1_999_999_999)) && 1 <= time.month <= 12 && 1 <= time.day && (time.day <= 28 || (
        time.day <= 30 && time.month != 2) || (time.day == 31 && seq![
            1u32,
            3u32,
            5u32,
            7u32,
            8u32,
            10u32,
            12u32,
        ].contains(time.month)) || (time.month == 2 && time.day == 29 && (time.year as int % 400
            == 0 || (time.year as int % 4 == 0 && time.year as int % 100 != 0)))) ==> name is Some,
{
    let short = seq![4u32, 6u32, 9u32, 11u32];
    assert(short.contains(time.month) ==> time.month == 4 || time.month == 6 || time.month == 9
        || time.month == 11);
    let long = seq![1u32, 3u32, 5u32, 7u32, 8u32, 10u32, 12u32];
    assert(long.contains(time.month) ==> time.month != 2 && time.month != 4 && time.month != 6
        && time.month != 9 && time.month != 11);
    assert(time.year as int % 400 == 0 ==> time.year as int % 4 == 0);
}

/// Other years are written with a sign in front: the year is read back from what
/// follows the sign.
pub proof fn law_year_with_a_sign(year: int)
    ensures
        year < 0 ==> year_text(year)[0] == '-' && number(year_text(year).skip(1)) == -year,
        year > 9999 ==> year_text(year)[0] == '+' && number(year_text(year).skip(1)) == year,
        0 <= year <= 9999 ==> number(year_text(year)) == year,
{
    if year < 0 {
        law_decimal_is_read_back((-year) as nat, 4);
        assert(year_text(year).skip(1) =~= decimal((-year) as nat, 4));
    } else {
        law_decimal_is_read_back(year as nat, 4);
        if year > 9999 {
            assert(year_text(year).skip(1) =~= decimal(year as nat, 4));
        }
    }
}

/// An export is written to the path that the user named, else under its own name;
/// without an export nothing is written.
pub proof fn law_where_an_export_goes<X, P>(
    export: X,
    path: P,
    file_name: P,
    unused: Option<P>,
    named: Option<(X, P)>,
    unnamed: Option<(X, P)>,
    without: Option<(X, P)>,
)
    requires
        call_ensures(plan_export::<X, P>, (Some(export), Some(path), file_name), named),
        call_ensures(plan_export::<X, P>, (Some(export), None, file_name), unnamed),
        call_ensures(plan_export::<X, P>, (None, unused, file_name), without),
    ensures
        named == Some((export, path)),
        unnamed == Some((export, file_name)),
        without is None,
{
}

} // verus!
