//! Room membership, message framing and presence discovery for a chat client
//! that talks over a publish/subscribe network.

pub mod cli;
pub mod conf;
pub mod controller;
pub mod endpoint;
pub mod message;
pub mod notice;
pub mod presence;
pub mod topic;
