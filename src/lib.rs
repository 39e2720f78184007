pub mod cipher;
pub mod decoder;
pub mod discovery;
pub mod framing;
pub mod keys;
pub mod models;
pub mod orchestrator;
pub mod status;
pub mod text;
pub mod transport;
