//! Process and socket inventory: correlating open sockets with the processes
//! that own them and arranging the processes into their parent/child forest.

pub mod correlate;
pub mod depth;
pub mod error;
pub mod http_server;
pub mod process;
pub mod socket;
pub mod tree;
pub mod uptime;
