# spark_transport

A runtime-neutral transport core in the style of Netty's channel model,
verified with Verus.

- `src/` — the verified library: kernel vocabulary (`uci`, `error_codes`),
  IO error classification and the `IoOps` backend trait (`io`), policies,
  metrics, a generational slab, stream framing (line, delimiter with KMP
  across segments, length field, varint32) over a segmented cumulation,
  outbound frames and the watermarked outbound buffer, the pipeline's
  encoder, decoder, admission control and routing, the per-channel state
  machine and the driver's scheduling kernel, and the dataplane
  configuration.
- `app/` — the runtime shell: `std::io` and clock conversions, derived
  (floating-point) metrics, raw receive leases, futures and wakers, the
  handler pipeline and the channel driver loop, all calling into the
  library for their decisions.
- `tests/` — tests of the library on concrete values.
