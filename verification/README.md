# peerban

Bans leeching BitTorrent peers from a qBittorrent client.

- `src/` is the verified library: rule parsing and matching (`rules`), decimal
  thresholds in exact arithmetic (`ratio`), private-tracker detection
  (`utils`), the qBittorrent session state (`backend::qb`), the daemon's ban
  decisions and ban list (`daemon`), and string helpers (`text`).
- `app/` is the program around it: command line, logging, the HTTP calls to
  the Web API and the scan loop that carries out the library's decisions.
- `tests/` exercises the library on concrete values.
