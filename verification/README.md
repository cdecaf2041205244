# boringtun: key residency

Keeps a WireGuard static private key where it is hard to reach, and lets a handshake use it.

* `src/` is the library, written and proved in Verus: the store for the key's bytes, the sequence
  of system calls that keeps a secret in one guarded page of memory, the protocol between a datapath
  and a signer process, and the agents that perform Diffie-Hellman with the static key.
* `app/` makes the system calls and owns the sockets.
* `tests/` runs the library on concrete values.

The library decides and the application acts: a construction of a guarded page, a client's exchange
and a signer's session are each told what happened last and say what to do next.
