# Reliquary Archiver Mac

Exports Honkai: Star Rail relic, light cone, character and material data from an
iPhone that is connected to a Mac.

The library in `src/` holds what the program decides and computes, with contracts
that Verus proves:

- `capture`: which devices to listen on, how a capture is opened, and how packets
  of different link types become Ethernet frames
- `iphone`, `rvi`, `command`: finding the iPhone and setting up its remote virtual
  interface, from the output of Apple's tools
- `live`, `file`, `game`: what to do with each packet, and when to stop
- `log`, `args`, `export`, `text`: the log in memory, the arguments, the name of
  the export, and the text functions that the rest is built on

`app/` is the program around it: it runs commands, captures packets, reads and
writes files. `tests/` holds the tests of the library.
