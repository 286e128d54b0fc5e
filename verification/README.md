# wireless_taiko

Makes USB Taiko drums wireless on the Nintendo Switch. A small Linux machine
presents each drum over Bluetooth as a Pro Controller of its own and forwards
drum hits as button presses.

- `src/` is the library, verified with Verus: report formats and timing
  (`report`, `timer`, `clock`), the pairing handshake (`handshake`, `spi`,
  `color`), the loop that serves a connection (`session`), the order of
  connection steps (`connect`), which adapter serves which drum (`pool`), the
  drum's own reports (`drum`), and the texts that the host system's tools and
  files give (`text`, `sdp`, `pairing`, `privilege`, `deploy`).
- `app/` is the program around it: sockets, threads, USB and processes.
- `tests/` runs the library on concrete values.

What is taken on trust is the clock, `str::to_uppercase` and
`String::from_utf8_lossy`; each is declared where it is used, with what is
claimed of it.

The program needs root, BlueZ in compatibility mode
(`bluetoothd -C --noplugin=input,sap,avrcp`), one Bluetooth adapter per drum, and
the controller's service record as `sdp_record.xml` beside the program. Deploying
copies the program alone, so the record is put there once by hand.
