pub mod settings;

pub use settings::{AppConfig, EnvValues, S3Config, ScyllaConfig, ServerConfig, Settings};
