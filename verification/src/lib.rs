pub mod client;
pub mod content_type;
pub mod decoder;
pub mod error;
pub mod json;
pub mod model;
pub mod pattern;
pub mod request;
pub mod send;
pub mod text;
pub mod transport;
