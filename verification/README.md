# scred-http

The HTTP/1.1 and HTTP/2 handling of a secret-redacting proxy, written in Verus.

`src/` is the verified library: HTTP/1.1 request, response and header parsing, CONNECT
handling, proxy selection, chunked bodies, the HTTP/2 frame codec, HPACK encoding and
decoding, stream state, priorities, flow control, server push, the frame forwarder and the
HTTP/2-to-HTTP/1.1 bridge state, header redaction bookkeeping, pattern selection and tiers,
the DNS cache, retry schedule and connection pools, and the env-format detector's counts.
Every public function states its result in its `ensures` over the library's spec
functions; laws that relate several calls are public proof functions next to the code they
are about.

The secret-detection engine itself is a separate crate of the proxy's workspace and is not a
dependency here. The library stands on both sides of each call to it and leaves only the
call out: the HTTP/2 frame forwarder marks each HEADERS frame to redact
(`ForwardAction::redact_stream`), decodes its block with the stream's own HPACK table
(`ForwardingSession::decode_for_redaction`), and takes the redacted values of the sensitive
fields back to re-encode the block, fix the frame length and count the redactions
(`ForwardingSession::finish_redaction`), forwarding the frame as read when its block does
not decode; `ConfigurableEngine` takes the engine's matches and chooses which to redact by
pattern tier. `app/` wires these steps into the socket loops; with no engine linked, it hands
each sensitive value back as it was read.

`app/` holds what runs around the library: sockets and timers with tokio, the process
environment, logging with `tracing-subscriber`, serde forms of the configuration types,
and the floating-point env-format score.

`tests/` exercises the library on concrete values.
