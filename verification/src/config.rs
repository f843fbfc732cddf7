use vstd::prelude::*;

verus! {

/// Marker for a configuration type assembled from command line, environment
/// and file sources.
pub trait AppConfig {

}

/// Failure to take configuration values from the environment.
#[derive(Debug)]
pub enum EnvError {
    EnvError(String),
}

/// A configuration that can fill itself from environment variables.
pub trait Env {
    fn set_from_env(&mut self) -> Result<(), EnvError>;
}

/// Failure to take configuration values from a configuration file.
#[derive(Debug)]
pub enum ConfigFileError {
    ConfigFileError(String),
}

/// A configuration that can fill itself from a configuration file's text.
pub trait ConfigFile {
    fn set_from_config_file(&mut self, config_file: &str) -> Result<(), ConfigFileError>;
}

} // verus!
