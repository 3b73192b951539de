//! Where a site keeps its store, relative to its base directory.

use vstd::prelude::*;
use crate::error::StoreError;

verus! {

/// Name of the environment variable that holds the base directory.
pub const OMD_ROOT: &'static str = "OMD_ROOT";

/// The store file, relative to the base directory.
pub const PW_STORE_FILE: &'static str = "var/check_mk/stored_passwords";

/// The companion secret file, relative to the base directory.
pub const PW_STORE_SECRET_FILE: &'static str = "etc/password_store.secret";

/// The base directory, given the value of its environment variable.
///
/// Fails with `Configuration` exactly when the variable is unset or empty, so
/// that no file is looked for under a directory that was never named.
pub fn base_dir(omd_root: Option<String>) -> (res: Result<String, StoreError>)
    ensures
        match res {
            Ok(dir) => omd_root == Some(dir) && dir@.len() > 0,
            Err(e) => e == StoreError::Configuration && (omd_root matches Some(dir) ==> dir@.len()
                == 0),
        },
{
    match omd_root {
        Some(dir) => {
            if dir.as_str().is_empty() {
                Err(StoreError::Configuration)
            } else {
                Ok(dir)
            }
        },
        None => Err(StoreError::Configuration),
    }
}

} // verus!
