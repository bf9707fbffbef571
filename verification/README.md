# tandem_client

The capture and presentation logic of the Tandem desktop publisher, as a
Verus-verified library, with the desktop program around it.

- `src/` is the library. Every function states what it returns in its
  contract, and the properties that span several calls (what a slot or a
  setting reads back after a write, the order of the window list, the
  distinct labels of duplicate cameras, ...) are proved as lemmas next to
  the functions they speak of.
- `app/` is the program: threads, sockets, files, D-Bus, the capture
  devices. It asks the library for every decision and builds nothing of its
  own.
- `tests/` runs the library on concrete values.
