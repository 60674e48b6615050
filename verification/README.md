# common-meta

Routing metadata of a distributed table: which peer leads each of a table's
regions, which peers follow it, and how that knowledge travels on the wire.

- `src/` is the library, verified with Verus.
  - `rpc/router.rs`: table routes, and their raw form, in which peers are given
    by an index in a list.
  - `rpc/peers.rs`: that list.
  - `rpc/region.rs`, `rpc/request.rs`, `rpc/response.rs`: tables and regions,
    requests, and the answer to a route request.
  - `rpc/text.rs`: bytes, shown as text.
  - `rpc/laws.rs`: what holds of all of these together.
  - `pb.rs`: messages, as plain values.
- `app/` turns protobuf messages and stored JSON into the library's types.
- `tests/` runs the library.
