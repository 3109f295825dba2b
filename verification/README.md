# quic_oack

Opportunistic acknowledgments for QUIC: a client acknowledges packets before it has received them.
The library holds what that decides and computes, with its behaviour stated in contracts that Verus
proves.

- `connection` inserts acknowledgments into the state of a connection, within its flow control.
- `oack` holds the strategies that choose what to acknowledge: ahead of the largest packet received,
  a constant range, or the replay of a qlog trace (`qlog`).
- `handshake`, `tls` and `ca_store` say what is asked of the TLS stack, call by call, and what is done
  when it calls back. `alpn` and `session` hold the formats that this needs.
- `client` holds the decisions of a client that fetches a URL, and `text` what it prints.
- `laws` states what holds of the library as a whole.

`app/` is the client around the library: the sockets, the files, the floating-point times of traces,
the calls to the TLS stack. It links against a QUIC stack that defines `quic_connect`.
