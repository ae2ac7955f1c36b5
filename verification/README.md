# nestor_replay

Replays CAN bus recordings fetched from a CyphalCloud/Nestor server onto a
SocketCAN interface, or prints them candump-style in a dry run.

- `src/` is the verified library: the record types, the server addresses
  (`urls`), paging through the records listing (`paging`), the stable ordering
  by hardware timestamp (`order`), payload decoding (`hexdata`), calendar text
  (`timefmt`), menu lines (`menu`), candump text (`candump`), frame
  construction (`frames`), the replay decisions (`replay`) and the plot
  timeline (`timeline`). Every verified function carries a contract that
  Verus proves. The calls into hex, urlencoding, chrono, socketcan and
  `String::push` go through small wrappers whose contracts are trusted, not
  proved: each states what the called crate's source shows.
- `app/` is the command-line program around it: arguments, HTTP, menus,
  the progress bar, sleeping, the socket, and the float arithmetic of the
  playback speed and the plot coordinates.
- `tests/` runs the library on concrete values.
