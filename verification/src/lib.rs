pub mod text;
pub mod clock;
pub mod quantity;
pub mod agent;
pub mod server;
pub mod env;
