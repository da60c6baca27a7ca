# f1r3fly_client

A client for F1r3fly nodes. The library in `src/` builds what is sent to a node (signed deploys,
queries, URLs), reads what comes back, and decides what to do next. Its functions state what they
compute, and Verus proves it, but for the calls into other crates that are listed below. The
library opens no connection and reads no clock. The crate in `app/` does: it sends, waits, and
hands the replies to the library.

| Module | What it holds |
| --- | --- |
| `api` | the client: its key, its node, the signed deploy message, the URLs |
| `deploy` | the deploy message, its wire format, what of it is signed, the deploy ID in a reply |
| `wire` | fields of messages on the wire |
| `crypto` | keys, digests and signatures |
| `service` | queries to the node's services and the replies to them |
| `blocks` | streams of blocks |
| `par` | Rholang data and its rendering |
| `http`, `json` | HTTP replies and JSON documents |
| `info` | what a node knows of a deploy |
| `finality`, `data`, `full_deploy` | waiting for a block to be finalized, for data, and the full cycle of a deploy, as state machines |
| `error`, `hexadecimal`, `text` | errors and their messages, hexadecimal, text |

A method of `F1r3flyApi` that needs one reply takes it and gives the result. Where several replies
are needed, the method gives the first step, and a function named `take_…` gives the next one for
each reply.

## What is trusted

Some functions only call code that Verus does not read. Their contracts are believed, not proved;
the doc comment of each says what is claimed.

| Module | Called | Functions |
| --- | --- | --- |
| `text` | std's string functions | `trim`, `strip_prefix`, `strip_suffix`, `contains`, and the contract of `String::push` |
| `hexadecimal` | `hex` | `decode`, `encode`, `hex_error_text` |
| `crypto` | `k256`, `blake2` | `full_key`, `sign_prehash`, `to_der`, `public_key`, `blake2b_256_hash` |
| `wire` | `prost` | `put_bytes`, `put_string`, `put_int64` |
| `json` | `serde_json` | `value_from_slice`, `value_node`, `value_text`, `value_of_texts`, `quoted` |
| `http` | `reqwest` (status codes) | `canonical_reason`, `status_text` |

What a digest, a signature, a public key, a parsed document, a reason phrase or the debug form of a
character is on given values is not stated: it has a name (`blake2b_256`, `ecdsa_signature`,
`uncompressed_point`, `json_parsed`, `reason_chars`, `char_debug_chars`), and contracts speak of
the name. `value_view` names what a `serde_json::Value` holds.
