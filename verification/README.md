# gateway

The configuration of the Pishoo gateway, verified with Verus: from the text of `pishoo.conf` and
`server.conf` to the typed settings of servers and locations, with every value traceable to the
place it was set at.

`src/` is the library. Its functions are proved against their contracts, with the exception of the
small wrappers in `outside.rs`, `text.rs` and `mark.rs`: what these say of other crates and of `std`
is believed. What `derive` writes has no contract.

- `parse/grammar.rs`, `parse/inclusion.rs`: text to directives, and files that are pulled in.
- `parse/types.rs`, `parse/builtin/`: the values that directives carry.
- `parse/block.rs`, `parse/overlay.rs`, `parse/builder.rs`, `parse/parser.rs`: typed documents, in
  which settings are taken over from the outside in.
- `parse/registry.rs`, `parse/construct.rs`, `parse/role.rs`, `parse/loader.rs`: documents that are
  built by what a registry knows of contexts and directives.
- `parse/tree.rs`, `parse/query.rs`, `parse/projection.rs`: sealed trees, typed questions to them,
  and the snapshot that workers take over.
- `parse/wire.rs`, `parse/transport.rs`: what is handed to workers, and read back.
- `parse/commands.rs`, `parse/directives.rs`, `parse/node.rs`: configurations as nested tables of
  plain values.
- `pool.rs`, `publisher.rs`: which connections are used again, and what is published of servers.
- `outside.rs`: the calls into other crates, each with the contract that is taken for granted.

Laws that span functions are public proof functions next to what they speak of.

`app/` is ordinary Rust around the library: files, serialisation and the network. `tests/` runs the
library on concrete configurations.
