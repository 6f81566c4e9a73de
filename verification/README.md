# tari_rpc

Request/response messaging between nodes, and the records of blocks that nodes exchange.

- `src/` is the verified library. `wire` states how integers, keys and values look on the wire and
  holds every call into `prost` and `bytes`; `field` and `message` write and read messages on top of
  it; `proto` has the messages of the protocol; `status` and `error` say how a request fared; `rpc`
  decides what a connection does, and `run` shows that over its turns no request is lost or answered
  twice; `service` is a service that greets, and `text` writes the numbers in its greetings; `block`
  has historical blocks.
- `tests/` runs the library with the real crates.
- `app/` awaits the peer and the services, and asks the library what to do.
