# Diaryx Sync

A Diaryx plugin that keeps the files of a workspace in sync across devices. Files are compared by
their hashes with the objects of a namespace on a sync server; where both sides changed a file, the
last writer wins.

The plugin runs as an Extism guest. It is in two parts:

- `src/` is the library, verified with Verus: the manifest of what is in sync, the plan of what to
  push, pull and delete, the runs that carry it out, the commands and events of the host, and the
  formats that are spoken with host and server. Whatever needs the host is a run: it names the next
  call that it wants, and is taken one step further by the reply.
- `app/` makes the calls: the exports of the plugin, host storage, files and requests.

Tests are in `tests/`; the ones of the plugin as a whole run it on a device and a server in memory.
