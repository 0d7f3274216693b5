# helloworld

The Greeter gRPC service ("hello world" over tower-grpc), with its logic
verified by Verus.

- `src/` — the verified library:
  - `wire.rs`: the protobuf wire format as `prost` reads and writes it
    (varints, field keys, string fields), with the calls into
    `prost::encoding` behind trusted wrappers, and the varint round trip;
  - `message.rs`: `HelloRequest` and `HelloReply` and their encoding and
    decoding, with the message round trip;
  - `routing.rs`: the service's methods, their request paths, and the
    routing of a request path to a method;
  - `dispatch.rs`: how the server's response future and body pass on the
    progress of the method they stand for;
  - `greeter.rs`: the server's reply, the client's request, and the
    throughput meter of the streaming method.
- `tests/`: tests of the library.
- `app/`: the client and server programs (`helloworld client`,
  `helloworld server`), the `prost::Message` impls that hand the messages to
  the library's encoding, and the
  tower-grpc plumbing.
