# aquic

`aquic`, Adapter QUIC, is a QUIC protocol library that is agnostic of the QUIC implementation, of the
asynchronous runtime and of the platform. Its state machines, buffers and rules are verified with
[Verus](https://github.com/verus-lang/verus): each function states what it does, and the statement is proved.

## Layout

- `src/`: the verified library. Nothing in it performs I/O, sleeps or spawns a task.
  - `net`: addresses, server names, buffers, and messages of several packets.
  - `stream`, `dgram`: the directions of QUIC streams and datagram flows.
  - `sync`: the state of the channels between an application and the I/O loop.
  - `backend`: connection IDs, tokens, timers, memory of outgoing packets, and the QUIC implementation
    providers, `quinn` and `quiche`.
  - `util`, `estimate`, `support`, `time`: what the others share.
- `app/`: sockets, runtimes, channels and tasks around the library, and the drivers of the providers.
- `tests/`: the library on concrete values.

## What is taken for granted

Calls into other crates stand behind small functions whose contracts are believed, not proved. A comment above
each of them names the function that is called, and says what is claimed of it. `quinn-proto` is called by the
library itself. `quiche` is called by its driver in `app/`: what it says is handed to the library as plain values,
and what it has to do is handed back.

Public proof functions whose names begin with `law_` state what holds across several functions: that a token
that was generated is verified, that no committed byte of an outgoing packet is overwritten, that a scheduled event is
neither lost nor early, and the like.
