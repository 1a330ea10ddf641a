//! Where the app-wide backup destination is kept: `sync-backend.json` in
//! the application's data folder. Reading and writing it are the
//! application's.

use vstd::prelude::*;

use crate::backend::{join_path, path_join};

verus! {

/// Name of the file that holds the backup destination.
pub const CONFIG_FILE_NAME: &'static str = "sync-backend.json";

/// The path of the destination file in the data folder.
pub fn config_path(app_data_dir: &str) -> (r: String)
    ensures
        r@ == path_join(app_data_dir@, CONFIG_FILE_NAME@),
{
    join_path(app_data_dir, CONFIG_FILE_NAME)
}

} // verus!
