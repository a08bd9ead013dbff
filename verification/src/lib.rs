pub mod auth;
pub mod errors;
pub mod json;
pub mod keys;
pub mod persistent;
pub mod publish;
pub mod refresh;
pub mod resolve;
pub mod text;
pub mod utf8_text;
