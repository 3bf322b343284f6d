pub mod client2server;
pub mod server2client;

pub use client2server::Client2Server;
pub use server2client::Server2Client;
