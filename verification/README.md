# testimony

Shares AF_PACKET capture rings between local processes. A daemon, `testimonyd`, owns the
rings; its clients connect over a Unix socket, are passed a capture socket, map its ring
read-only, and are told which blocks are ready. A block goes back to the kernel when every
client has returned it.

`src/` is the library: what the daemon, its clients and the tools around them decide and
compute, verified with Verus. What needs the operating system is described there as steps
and what came of them, and is done in `app/`.

| Module                                  | What it holds                                         |
| --------------------------------------- | ----------------------------------------------------- |
| `text`, `numbers`, `bytes`              | texts, integers in text, integers in bytes            |
| `os_error`, `stream`                    | what the operating system said; filling a buffer      |
| `afpacket`, `bpf`, `capture`            | errors and settings of capture; filters; the ring     |
| `off_linux`                             | what stands in where there is no AF_PACKET            |
| `protocol`                              | the messages between daemon and clients               |
| `client`, `client_error`, `block`       | the client's side: handshake, blocks, packets         |
| `ffi`                                   | what the C interface keeps and decides                |
| `config`, `serve`, `permissions`        | the daemon's configuration and how it comes up        |
| `accept`, `passing`, `clients`          | welcoming clients, passing the socket, who is there   |
| `dispatch`, `fanout`, `stats`           | going round the ring, handing out a block; counters   |
| `writer`, `reader`                      | announcing blocks to a client, hearing of returns     |
| `shutdown`, `cleanup`, `daemon_error`   | stopping the daemon; its errors                       |
| `args`, `pcap`, `testclient`            | command lines, made-up capture files, the test client |

The numbering of message types is a parameter of the library (`protocol::Numbering`). What
holds of the daemon and a client together is stated for every numbering that keeps types
apart and block indices below the top bit.

Public proof functions whose names begin with `law_` state what holds of several functions
together: for example, that a client understands the greeting that the daemon sends, that
no announcement is written twice, that a client gets the blocks that are announced to it,
that every client is offered each block once, that a block is cleared exactly with its last
reference, and that no two sockets get one fanout identifier.

`app/` holds the programs `testimonyd`, `testclient` and `gen_perf_pcap` and the C
interface. `tests/` runs the library on concrete values.
