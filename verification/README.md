# vaultwarden_scim

A SCIM v2 provisioning server for Vaultwarden organizations, with its rules proved in Verus:
an identity provider invites, updates and deprovisions the members of an organization and
keeps its groups in sync.

- `src/` is the library. It does no I/O. Reading a request, deciding what to do and building
  the answer are functions and state machines with contracts.
- A request that alternates with database work is a state machine: `resume` takes what came
  of the last command and returns the next one, or the answer. The modules whose names end in
  `_laws` prove what holds of every run of them.
- `tests/` runs the library, with an in-memory database where one is needed.
- `app/` mounts the library in Rocket. It implements the commands over a `Server` trait, which
  the surrounding server provides, and stores credentials through Diesel.

What the library takes from other crates stands behind small trusted functions: Base64
(`data_encoding`), SHA-256 and randomness (`ring`), the time (`chrono`), reason phrases
(`rocket`) and rate limiting (`governor`). Each says in its documentation what is assumed.
