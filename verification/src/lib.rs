//! The decision core of a rule-based proxy: protocol detection on inbound
//! connections, the accept loops and transparent sessions of its listeners,
//! the health record of outbound proxies, and the choice of the home directory.

pub mod accept;
pub mod adapter;
pub mod addr;
pub mod health;
pub mod home_dir;
pub mod metadata;
pub mod mixed;
pub mod redir;
pub mod request_line;
pub mod session;
pub mod timestamp;
