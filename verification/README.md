# mqtt_sink

The sending side of an MQTT version 5 connection. A sink hands packets to the
connection's encoder, gives an identifier to each packet that the peer has to
acknowledge, limits how many of them are in flight, and passes every
acknowledgement on to the request that waits for it.

- `src/sink.rs`: the sink; `src/publish.rs` and `src/subscribe.rs`: the requests.
- `src/state.rs`: the contents of a sink as a mathematical value, and what each
  operation does to it. The contracts of the sink are stated in these terms.
- `src/laws.rs`: what holds of a sink over any sequence of operations.
- `src/lemmas.rs`: facts that the proofs use.
- `src/table.rs`, `src/channel.rs`, `src/external.rs`: `slab` and the channels of
  `ntex`, with what is claimed of them.
- `src/ack.rs`, `src/codec.rs`, `src/error.rs`, `src/types.rs`: acknowledgements,
  packets, errors and numbers.
- `app/`: handles that share one sink, requests that can be awaited, and errors
  that can be shown.
