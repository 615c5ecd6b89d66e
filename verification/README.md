# conntracktor

A terminal monitor for OpenWrt / MediaTek routers: it lists the tracked connections,
tells which of them the CPU, software flow offloading or the hardware PPE handles, and
shows the router's SoC, hardware capabilities and acceleration engines.

The library under `src/` is written in Verus and verified: every function states its
result in its contract, and the laws of the library (navigation that undoes itself, offload
counts that partition the connections, lookups that return what was recorded, ...) are
proved as public proof functions.

- `text`, `ipaddr`: character-level parsing (lines, words, numbers, IP addresses).
- `topology`: the endpoint table built from `ip addr`, `ip neigh` and `iw` output.
- `conntrack`: `/proc/net/nf_conntrack` lines and the statistics drawn from them.
- `platform`: SoC model, hardware capabilities, acceleration engines, ethtool feature
  tables and host identity, each read from raw kernel readings.
- `app`: the application state and the keys that move the connection table's selection.
- `soc`, `hardware`, `accelerator`: the first-generation SoC table and panels.

`app/` is the program around it: it reads files and commands, talks to the kernel through
`ioctl`, runs the event loop and draws the screen with `ratatui`.
