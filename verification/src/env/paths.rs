//! Where the server keeps its files.

use vstd::prelude::*;

verus! {

/// The files and directories of one run.
#[derive(Debug)]
pub struct Paths {
    pub database_file: String,
    pub server_config_file: String,
    pub ytdlp_config_file: String,
    pub worker_dir: String,
    pub logs_dir: String,
    pub output_dir: String,
}

impl Clone for Paths {
    fn clone(&self) -> (copy: Self)
        ensures
            copy == *self,
    {
        Paths {
            database_file: self.database_file.clone(),
            server_config_file: self.server_config_file.clone(),
            ytdlp_config_file: self.ytdlp_config_file.clone(),
            worker_dir: self.worker_dir.clone(),
            logs_dir: self.logs_dir.clone(),
            output_dir: self.output_dir.clone(),
        }
    }
}

} // verus!
