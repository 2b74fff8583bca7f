# fwrolloutd

`fwrolloutd` is the firmware rollout service of the smart gateway. It looks for firmware updates in
an index file on a web server. Where there is a new image for a connected device, it downloads the
image and hands it to the device service, which installs it. The service also keeps the registry of
IPSO definitions up to date.

## Layout

- `src/` holds the decisions of the service, verified with Verus. Whatever talks to the outside is
  a step that the library asks for, and an event that it is handed back.
  - `rollout`: one round over all device services.
  - `server`, `device`, `device_info`: the devices of a device service, what to do about each of
    them, and what is known of them.
  - `index`: the index of firmware images and its updates.
  - `registry`, `reload`: the registry of IPSO definitions, and how the device service learns of
    new ones.
  - `ipc`: requests to the service. `exchange`, `protocol`: requests to the device services.
  - `config`, `clock`, `links`, `paths`, `text`, `report`: settings and basics.
  - The modules whose names end in `_laws` hold what is proved of the whole.
- `app/` is the program around the library: network, files, processes and logging.
- `tests/` runs the library.

## What the library relies on

The functions marked `external_body` call `chrono` for the time, `rand` for chance, `url` for URLs
and the standard library to read bytes as text. Their contracts are believed, not proved; each
says what it claims.
