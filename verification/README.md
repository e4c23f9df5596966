# basalt

The rules of the Basalt game launcher as a verified library: its game registry and
blacklist, playlists, emulator systems and launch targets, ROM and save syncs, game
discovery (emulated ROMs, Steam, MattMC), the JSON settings file and release metadata,
update checks and the command line.
Every function in `src/` carries a contract that Verus proves (the one exception is
`From<&str>` for `CoreError`, which states nothing; `CoreError::new` states the message).
The laws that span several functions (the registry and playlists files read back what
they wrote, what adding and removing games does to the registry and the playlists
together, what a sync leaves in the destination) are proof functions beside them. JSON text is read and written by
`serde_json` behind two trusted calls in `src/json.rs`; everything done with the values
is verified. For the settings file the read-back law is proved of the JSON document
that saving builds: that parsing the text `serde_json` writes for it gives the document
back rests on `serde_json` and is not stated.

- `src/` — the library, verified by Verus.
- `tests/` — tests of the library on concrete values.
- `app/` — the program around it: files, processes, network, the window.
