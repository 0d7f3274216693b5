//! The Greeter "hello world" service: the protobuf wire format of its two
//! messages, the routing of request paths to service methods, the replies
//! the server gives, and the throughput meter of its streaming method.

pub mod wire;
pub mod message;
pub mod routing;
pub mod dispatch;
pub mod greeter;
