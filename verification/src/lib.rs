pub mod block;
pub mod escape;
pub mod laws;
pub mod mrkdwn;
pub mod node;
pub mod render;
pub mod strings;

pub use block::Block;
pub use mrkdwn::{Mrkdwn, ParseError};
pub use node::Node;
