# liver

A live danmaku (bullet comment) service: a server that takes comments and hands
them on over web sockets, a quick tunnel that makes the server reachable from
other networks, and a desktop overlay on which the comments pass.

`src/` is the library. It holds the rules of the service on plain values, with
contracts that Verus proves: how the command line is read, which comments are
accepted, how lanes are given out, what the output of `cloudflared` means and
when a tunnel is tried again, which monitor or window the overlay covers and
when it moves. Floating point numbers are held by their bit patterns and
compared as the numbers that they stand for (`ieee.rs`).

`app/` is the program around it: sockets, processes, windows and the console.
It carries out what the library decides.

`tests/` runs the library on concrete values.

| Module | Subject |
| --- | --- |
| `config`, `startup` | the command line, and what is asked and started |
| `danmaku`, `session`, `pages` | comments, the connections they go over, pages |
| `lanes`, `fonts` | how comments pass over the screen |
| `monitors`, `overlay`, `helper` | where and how the overlay is opened |
| `windows`, `tracker`, `follow` | the window that the overlay follows |
| `edge`, `origin_cert`, `tunnel`, `tunnel_log`, `tunnel_url` | the quick tunnel |
| `text`, `decimal`, `ieee`, `search`, `greatest` | what the others are built on |
