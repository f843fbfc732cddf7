use vstd::prelude::*;

verus! {

/// Where the application keeps its configuration: the directory that holds
/// the configuration file and the file extension used for it.
#[derive(Debug, Clone)]
pub struct ApplicationSettings {
    pub config_home: String,
    pub config_file_ext: String,
}

impl ApplicationSettings {
    /// Settings over the given configuration directory and file extension.
    pub fn new(config_home: String, config_file_ext: String) -> (r: Self)
        ensures
            r.config_home == config_home,
            r.config_file_ext == config_file_ext,
    {
        ApplicationSettings { config_home, config_file_ext }
    }
}

/// The application's validated configuration values.
#[derive(Debug, Clone)]
pub struct InnerApplicationConfig {
    pub committer: String,
}

/// The reason a configuration could not be assembled.
#[derive(Debug, PartialEq, Eq)]
pub enum ConfigError {
    /// No committer was given by any configuration source.
    MissingCommitter,
}

/// The application's configuration, assembled from command line, environment
/// and configuration file by the surrounding program and validated here:
/// every required value must have been given by some source.
#[derive(Debug, Clone)]
pub struct ApplicationConfig {
    pub config: InnerApplicationConfig,
}

impl ApplicationConfig {
    /// Validate the gathered values: a configuration exists exactly when a
    /// committer was given.
    pub fn new(committer: Option<String>) -> (r: Result<Self, ConfigError>)
        ensures
            (committer matches Some(c) ==> r matches Ok(a) && a.config.committer == c),
            (committer is None ==> (r matches Err(e) && e == ConfigError::MissingCommitter)),
    {
        match committer {
            Some(c) => Ok(ApplicationConfig { config: InnerApplicationConfig { committer: c } }),
            None => Err(ConfigError::MissingCommitter),
        }
    }

    /// The configured committer.
    pub fn committer(&self) -> (r: &String)
        ensures
            r == self.config.committer,
    {
        &self.config.committer
    }
}

} // verus!
