# microfips

The protocol core of a FIPS leaf node, written in Verus. The functions in
`src/` carry contracts that Verus proves, except the small wrappers marked
`#[verifier::external_body]` in `src/aead.rs`, `src/clock.rs` and
`src/packet_buf.rs`: they call `chacha20poly1305`, `embassy-time` and
`heapless`, and their contracts are trusted, not proved.

- `src/wire.rs`: FMP common prefix, handshake message 1 and 2 layout, and
  cutting a byte stream into frames (length-prefixed or raw).
- `src/established.rs`, `src/aead.rs`: the inner header and the encrypted
  established frame (ChaCha20-Poly1305 through the `chacha20poly1305` crate).
- `src/link.rs`: what a decrypted link message asks for (heartbeat,
  disconnect, MMP reports, echo, throughput test, application data).
- `src/peer_policy.rs`: reconnect backoff, frame-rate limit, silent-peer and
  bad-frame detection, with the laws they keep.
- `src/recv_buffer.rs`, `src/node.rs`: the receive buffer and the node's
  session state, whose decisions a caller's async loop carries out.
- `src/lr2021_framing.rs`, `src/packet_buf.rs`: the LR2021 packet framer over
  `heapless::Vec` buffers.
- `src/mmp.rs`, `src/esp_now.rs`, `src/clock.rs`: link measurement state,
  ESP-NOW limits, and the node clock.

`app/` holds the unverified side: the transports and the async session loop
that performs I/O, waits, and calls the Noise implementation. `tests/` runs
the library on concrete inputs.
