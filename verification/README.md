# mdns-reflector

A multicast DNS reflector. It listens for multicast DNS packets and repeats each of
them to every interface it was given, except those on the network that the packet
came from.

    mdns-reflector [-f | -p PID_FILE] [-v] INTERFACE INTERFACE...

At least two interfaces must be named. Unless `-f` keeps it in the foreground, the
program goes into the background and records its process id in a file whose path must
be absolute.

## Layout

`src/` is the library: every decision of the program, with contracts that Verus proves.

- `cli`, `syntax` and `matcher`: the command line. `syntax` says what its words mean;
  `matcher` holds the calls into `clap`, whose contracts are trusted.
- `tasks` and `daemon`: how the program starts, goes into the background and ends.
- `pidfile` and `decimal`: the file that records the process id.
- `sockets`, `address` and `unix`: how the sockets are set up.
- `reflector`: where each packet goes.

`app/` is the program around it: it works on sockets, files and processes, tells the
library what came of it, and does what the library says next.

`tests/` runs the library.
