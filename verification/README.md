# hc-caseta

Bridges Lutron Caseta Smart Bridge Pro devices into HomeCore via the Lutron
Integration Protocol (LIP) over telnet. The logic is a library verified with
Verus.

- `src/` is the library.
  - `import`, `import_laws`: the integration report, read into configuration rows.
  - `bridge`, `bridge_laws`: the registry of devices, and what messages and
    commands lead to.
  - `session`: the session with the Caseta bridge as a state machine.
  - `startup`, `paths`: the steps of the start, its retries, and where published
    device IDs are remembered.
  - `config`, `device`, `lip`: the data that these work on.
  - `json`, `text`, `double`: JSON values, text and double-precision numbers.
- `tests/` runs it.
- `app/` is the plugin around the library. It is put together with a HomeCore
  client, a link to the bridge, the tables of the devices and a log, which come in
  through the traits in `app/parts.rs`.

Double-precision numbers are carried through the library by their bit patterns.
