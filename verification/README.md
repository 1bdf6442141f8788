# cheetah_matches_relay

The relay of the Cheetah matches: rooms of members and game objects, the
commands that change them, the permissions that decide who may change and see
which field, and a tracer that records the commands of a room for
administrators. The library is written in Verus: every function in `src/`
carries a contract, and Verus proves the code against it.

## Layout

- `src/types.rs`, `src/commands.rs`, `src/protocol.rs`: identifiers, the
  commands between clients and the relay, and how commands travel.
- `src/room/`: a room (`mod.rs`), its game objects (`object.rs`,
  `objects.rs`, `field.rs`), members (`member.rs`), templates and permissions
  (`template.rs`, `permission.rs`), sending commands to members
  (`sender.rs`), actions on fields (`action.rs`) and the commands a member
  sends (`command/`).
- `src/debug/dump.rs`: the picture of a room that the admin service gives.
- `src/debug/tracer/`: the command tracer: the query language of its filters
  (`query.rs`, `parser.rs`), the filters (`filter.rs`), the sessions
  (`sessions.rs`) and the texts the admin service shows (`admin.rs`).
- `src/server/`: the rooms of a server (`rooms.rs`), the requests the server
  thread serves (`manager.rs`), what the network layer decides about frames
  and where commands go (`network.rs`), the statistics of the server's
  cycles (`statistics.rs`) and when the server asks Agones to be allocated
  (`agones.rs`).
- `src/registry.rs`, `src/grpc.rs`: the stub registry and matchmaking, and the
  handles that the gRPC services hold.
- `app/main.rs`: the program: the server thread and the manager that talks
  to it.
- `tests/`: tests of the library on concrete values.

Public proof functions named `law_...` state properties that hold across
calls, such as what a member leaving leaves behind, or what a rule set for a
field gives the members of its groups.

Maps of outside crates (`heapless`, `indexmap`) hold the fields of objects,
the objects of a room and the values a member restores on leaving; their
methods are reached through small functions whose contracts state what the
crates do.
