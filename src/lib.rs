//! Myth: request resolution through composable filters.
//!
//! A request is resolved by running it through a tree of small steps
//! ([`Filter`]) that each either succeed with a list of values, fail with an
//! error, or forward ("does not match here, try something else"). The state
//! of the request (how much of the path is consumed, the body) moves through
//! the steps and always comes back, whatever the outcome.
pub mod addr;
pub mod basic;
pub mod body;
pub mod cache;
pub mod errors;
pub mod filter;
pub mod forward;
pub mod header;
pub mod method;
pub mod outcome;
pub mod path;
pub mod request;
pub mod response;
pub mod security;
pub mod server;
pub mod uri;
pub mod values;
pub mod version;

pub use addr::remote_addr;
pub use basic::{any, borrowing, cloning, never};
pub use filter::{AsyncTryFn, Filter};
pub use forward::{AttemptedMethods, Forwarding, Method};
pub use response::{html, Response};
pub use server::{serve, Server};
