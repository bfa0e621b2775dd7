//! Driver-side core of a shard-aware database client: the batch request
//! body encoder for the binary wire protocol, and the routing policies
//! that choose which cluster node receives a request.

pub mod batch;
pub mod cluster;
pub mod decode;
pub mod enforce_node;
pub mod policy;
pub mod wire;
