pub mod broadcast;
pub mod capability;
pub mod echo;
pub mod error;
pub mod generate;
pub mod init;
pub mod msg;
pub mod node;
pub mod topology;

pub use capability::{MessageId, MessageRegistry, NodeId, TopologyRegistry};
pub use error::{Code, Error};
pub use msg::{Address, Message, MessageIndex, ResponseBuilder};
pub use broadcast::{BroadcastBody, BroadcastHandler};
pub use echo::{EchoBody, EchoHandler};
pub use generate::{GenerateBody, GenerateHandler};
pub use init::{InitBody, InitHandler};
pub use node::Node;
pub use topology::{Topology, TopologyBody, TopologyHandler};
