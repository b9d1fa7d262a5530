# feiq_v2

A LAN messenger speaking the IP Messenger (FeiQ) protocol: presence on the
local network, chat messages, window knocks and file and folder transfers.

- `src/` is the verified library. Its contracts are stated over views and
  spec functions and proved by Verus:
  - `protocol`: the packet text format, file-attachment lists, the
    `GETFILEDATA` request, incoming chat text, GBK and UTF-8 text;
  - `network`: the peer port directory, the shared-file registry, packet
    dispatch with redelivery suppression, acknowledgement tracking, the
    directory stream of a folder transfer, transfer progress and the engine
    state (packet and task numbers, identity, statistics);
  - `engine`: one handler per front-end command and the choice of what is
    stored for each event;
  - `ui`: the front-end state and how each event changes it;
  - `cli`: the command line of the terminal front end and the lines it
    prints.
- `app/` is the terminal program around the library: sockets, files, the
  SQLite store, the async runtime and its loops.
- `tests/` runs the library on concrete values.
