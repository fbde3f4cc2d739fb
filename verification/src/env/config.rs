//! The server configuration and its limits.

use vstd::prelude::*;

verus! {

pub const MAX_AUTOMATIC_RETRIES: u32 = 50;

pub const MAX_DOWNLOAD_WORKERS: u32 = 32;

pub const MAX_RETRY_TIMEOUT: u32 = 3600;

/// The server configuration.
#[derive(Debug)]
pub struct Config {
    pub download_folder: String,
    pub temp_folder: String,
    pub start_with_os: bool,
    pub show_announcements: bool,
    pub num_automatic_retries: u32,
    pub timeout_before_retry: u32,
    pub num_download_workers: u32,
}

impl Clone for Config {
    fn clone(&self) -> (copy: Self)
        ensures
            copy == *self,
    {
        Config {
            download_folder: self.download_folder.clone(),
            temp_folder: self.temp_folder.clone(),
            start_with_os: self.start_with_os,
            show_announcements: self.show_announcements,
            num_automatic_retries: self.num_automatic_retries,
            timeout_before_retry: self.timeout_before_retry,
            num_download_workers: self.num_download_workers,
        }
    }
}

impl Config {
    /// Whether the numbers of the configuration are within their limits.
    pub open spec fn within_limits(&self) -> bool {
        &&& self.num_download_workers <= MAX_DOWNLOAD_WORKERS
        &&& self.num_automatic_retries <= MAX_AUTOMATIC_RETRIES
        &&& self.timeout_before_retry <= MAX_RETRY_TIMEOUT
    }

    /// The default configuration with the folders replaced.
    pub fn new(defaults: Config, download_folder: String, temp_folder: String) -> (config: Config)
        ensures
            config == (Config { download_folder, temp_folder, ..defaults }),
    {
        let mut config = defaults;
        config.download_folder = download_folder;
        config.temp_folder = temp_folder;
        config
    }

    /// Whether the numbers of `config` are within their limits. A configuration
    /// that fails this check is rejected before its folders are looked at.
    pub fn check_validity(config: &Config) -> (valid: bool)
        ensures
            valid == config.within_limits(),
    {
        if config.num_download_workers > MAX_DOWNLOAD_WORKERS {
            return false;
        }
        if config.num_automatic_retries > MAX_AUTOMATIC_RETRIES {
            return false;
        }
        if config.timeout_before_retry > MAX_RETRY_TIMEOUT {
            return false;
        }
        true
    }
}

} // verus!
