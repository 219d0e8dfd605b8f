# r_server

A small remote-command tool over TCP: a client sends `ECHO <message>` or `LS`
lines, the server answers with the message or the names in its current
directory (one per line, then an empty line), and `ERR <reason>` otherwise.

- `src/` is the verified library: `text` (whitespace and trimming over
  characters), `command` (parsing a line, building replies), `session` (the
  server's per-connection decisions as a step function from phase and event to
  phase and action), `client` (what a typed line asks for and when a reply
  ends), `conversation` (a whole connection at once), and `laws` (properties
  proved across these).
- `app/` holds the sockets, the terminal, the directory reading and logging:
  `r_server` runs the server, `r_server client` the client.
