# http-body-util

Combinators for HTTP request and response bodies, verified with Verus.

| module | contents |
| --- | --- |
| `body` | `Body`, `Frame`, and what a poll returns |
| `size_hint` | bounds on the bytes that a body has yet to yield, and their sums |
| `trailers` | the trailers of two bodies, put together |
| `combinators::chain` | `Chain`, two bodies one after the other |
| `combinators::buffered` | `BufBody`, and `Buffered`, buffers read as one |
| `future` | `TryFutureBody`, a body that a fallible future yields |
| `legacy` | `LegacyBody`, and `UpgradeBody`, which makes a `Body` of one |
| `error`, `pending` | `ErrorBody`, which fails, and `Pending`, which is never ready |
| `buf` | buffers of bytes that are read from the front |
| `run` | runs of polls, over which the laws of the bodies are stated |

Each body has a relation `steps` that says what a poll of it may return and what it leaves behind.
The relation of a combinator is built from those of its parts. What holds of many polls in a row,
such as that a chain yields the data of its first body before that of its second, is proved beside
the combinator, over runs of polls.

`app/` gives the combinators the interface of the `http_body` crate.
