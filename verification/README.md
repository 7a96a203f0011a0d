# otter-ai

Talking to providers of language models: one set of types for conversations, tools,
models and credentials, the wire formats of several services, and the rules by which
requests are built, repeated, streamed and authorised.

- `src/` is the library. Its functions carry contracts that Verus proves. Three things
  are not proved: what the small functions around other crates say of those crates
  (each says so in its comment); whether a cancellation token was cancelled, which
  depends on whoever else holds it; and what an implementation of `AuthContext`,
  `AuthInteraction` or `ApiKeyAuth` from outside does.
  Values are described by views: a `Json` by the tree that it stands for, a dictionary
  by a map, a stream by the events still in it. The laws that relate several functions
  are the public proof functions whose names start with `law_`.
- `tests/` runs the library on concrete values.
- `app/` is the ordinary Rust around it: sockets, files, timers, floating point, and
  the types as they are stored.

Prices, temperatures and other fractions are texts in the library; only `app/` turns
them into floating point. The time and everything random is handed in, or comes out of
a small function whose contract says only what always holds.
