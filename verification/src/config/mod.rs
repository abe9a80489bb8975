//! Configs read from data files: named values of registered types, stored
//! by type and found again by name.

pub mod id;
pub mod laws;
pub mod repository;
pub mod repository_builder;
pub mod store;

pub use id::ConfigId;
pub use repository::{ConfigRepository, ConfigRetrievalError};
pub use repository_builder::{
    ConfigLoadError, ConfigLoadErrorPayload, ConfigRegistrationError, ConfigRepositoryBuilder,
};
pub use store::ConfigType;
