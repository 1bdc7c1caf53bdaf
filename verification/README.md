# sanzu

FIDO/CTAP HID forwarding for a remote desktop, without USB passthrough: the client opens
the FIDO interface of a local authenticator, and the server offers a virtual one. Forwarding
has to be enabled on both ends. The PIN never leaves the client. A broker on the client answers the remote side's PIN protocol with
tokens of its own, and exchanges proofs made under them for the authenticator's.

The library in `src/` is written in Verus. It computes on plain values: it says what to do
next and is told what came of it. Its functions state what they return in `ensures`, and
Verus proves it.

| Modules | What they hold |
| --- | --- |
| `framing`, `hid` | CTAPHID messages as 64-byte reports, and reports as HID reads and writes |
| `cbor`, `ctap` | CBOR values, and the fields of CTAP requests and responses |
| `crypto`, `pin` | the first PIN/UV protocol, tokens, and the exchange of proofs |
| `broker`, `broker_laws` | the local end of the forwarding, and what holds of it as a whole |
| `selector`, `pinentry` | which authenticator to forward, and the PIN prompt |
| `server` | the virtual authenticator |
| `geometry`, `client_loop`, `turn` | sizes and positions, what the server's messages lead to, and the order of a turn of the client loop |
| `session`, `interface` | the set-up of a session, and the user it runs for |
| `text`, `numbers`, `error` | what the others share |

What comes from other crates (`serde_cbor`, `p256`, `sha2`, `aes`, `cbc`, `hmac`,
`rand_core`, `zeroize`, `rustls`, `notify-rust`) and from the standard library is called in
small functions marked `external_body`; their contracts are trusted, and their comments say
what is claimed of which function.

`app/` is ordinary Rust around the library: sockets, devices, prompts, and the loops that
drive the library. `tests/` runs the library with the other crates linked.
