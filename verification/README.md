# rsms

Short message gateways: the SMPP codec, long messages, and the decisions of servers and clients
for CMPP, SMGP, SGIP and SMPP. The library under `src/` is written in Verus; every function
states what it does, and Verus proves it.

- `protocol`, `error`, `frame`, `encoded_pdu`, `endpoint`, `session`, `metrics`: what all protocols
  share.
- `cstring`, `pstring`, `text`, `wire`, `clock`: strings, bytes and times, and the calls into std
  and the `bytes` crate that they rest on.
- `longmsg`: splitting long messages into segments with user data headers, and merging segments
  that arrive in any order.
- `smpp`: SMPP 3.4 PDUs and their fields, reading and writing whole PDUs, and the adapter to the
  unified messages of `model`.
- `connector`: framing of byte streams, logins, keepalives, pools of connections, windows and
  transactions from submit to report, each as a function or a state machine from what happened to
  what to do next.

`app/` runs these decisions on TCP with tokio. It takes from the application what decides about
logins, messages and limits, and the codecs of the protocols beyond SMPP.

Functions whose names start with `law_` state what holds of the library as a whole: that a PDU
written is read back, that segments merge into the message that was split, that frames survive
however the network cuts the stream, that reports find the messages they are about.
