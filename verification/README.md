# entropy_engine

A hardware entropy engine: raw bytes from a serial board or an MQTT broker are
health-tested, mixed into a SHA-256 pool, and turned into keys, tokens and
passwords by a ChaCha20 DRBG, every request passing a security policy check.
A second service turns hardware random numbers into one-time passwords, after
the device's MAC has been checked against a MultiChain stream.

Layout:

- `src/` is the library, verified with Verus: packet framing and CRC, health
  tests, policy checks and their event log, whitening, pool, DRBG, output
  formatting, the service that joins them, the OTP service, the simulated
  source and the decisions of hardware reads, MQTT message handling, and the
  Base64 authorization header and reply verdict of the blockchain check.
  Calls into `sha2`, `chacha20`, `hex`, `zeroize` and `serde_json` stand behind
  small trusted wrappers whose contracts are stated in `src/primitives.rs`,
  `src/drbg.rs`, `src/crypto.rs`, `src/blockchain.rs` and `src/otp_mqtt.rs`.
- `app/` is the program around it: serial ports, MQTT connections, HTTP
  servers, sending the JSON-RPC request, and the floating-point source quality tracker
  whose estimates decide how much entropy each ingested sample is credited with.
- `tests/` exercises the library from outside.
