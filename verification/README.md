# capsule

Rings and memory zones of DPDK, split in two.

- `src/` is the verified library: C names (`cstr`), the headers DPDK keeps
  for rings and zones (`ffi`), what their creation is asked for and how it
  ends (`memring`, `memzone`, `rtering`), sockets and errors, and the text
  their `{:?}` rendering shows (`text`).
- `app/` makes the DPDK calls themselves and owns the headers they return.
