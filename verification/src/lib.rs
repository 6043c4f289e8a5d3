//! Small verified building blocks for three practice programs: a walk through
//! ownership and borrowing, a key-value store script and a blog-post script.
//!
//! The programs themselves talk to files, databases and the terminal. What they
//! compute along the way lives here, each function with a contract that Verus
//! proves.

pub mod decimal;
pub mod models;
pub mod ownership;
pub mod store;
