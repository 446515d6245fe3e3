//! The bodies of the requests that a bridge takes and of what it answers.

pub mod config;
pub mod create_user;
pub mod device_type;
pub mod devices;
pub mod error;
pub mod generic;
pub mod lights;
pub mod meethue;

pub use config::Config;
pub use error::Error;
pub use generic::GenericResponse;
