mod config;
pub mod db;
pub mod feed;
pub mod poller;
pub mod submit;

pub use config::{BasicConfig, Config, ConfigError, RssConfig};
