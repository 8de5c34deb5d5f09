# tunnet

The decisions of the Tunnet agent, verified with Verus: the stateful firewall of
Direct networks, the embedded SSH service and the daemon's file layout.

- `src/` is the library. It computes on plain values: addresses are `u32`,
  identifiers of networks and sessions are the 128-bit value of a UUID, times
  are nanoseconds on a monotonic clock. Contracts state what its
  functions return or change, and Verus proves them.
  - `packet`, `policy`, `text`, `ids`, `names`, `routes`, `platform`: vocabulary.
  - `firewall`: rules, connection tracking, the engine, and in `laws` what holds
    of the whole.
  - `ssh_nat`, `ssh::intercept`: TCP/22 outside, the internal port inside.
  - `ssh`: authorization, accounts, one connection (`server`), the course of a
    shell (`shell_session`), launching (`launch`) and being (`session_child`) the
    process of a session, the host key, the listener.
  - `ssh_registry`: the running sessions.
  - `paths`: state directories and the choice of the daemon binary.
- `app/` is the program around the library: files, sockets, processes, actors
  and the SSH protocol. It carries out what the library decides.
- `tests/` runs the library.

Calls into other crates from `src/` stand in small functions marked
`#[verifier::external_body]`. The comment above each one says what is believed
of the call.
