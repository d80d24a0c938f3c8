//! The game folder that the user chose, kept between runs.
//!
//! Only a system with a registry has a place to keep the choice, and the
//! registry is reached by the caller, who builds for such a system. What
//! stands here is what holds everywhere else: nothing is kept, so saving
//! succeeds without effect and loading finds nothing.

use vstd::prelude::*;
use crate::error::SyncError;

verus! {

/// The registry key under which the choice is kept where there is a
/// registry.
pub fn registry_key() -> (key: String)
    ensures
        key@ == "Software\\Ba-koD\\cb_patcher"@,
{
    "Software\\Ba-koD\\cb_patcher".to_owned()
}

/// The name of the registry value that holds the game folder.
pub fn registry_value() -> (name: String)
    ensures
        name@ == "IsaacPath"@,
{
    "IsaacPath".to_owned()
}

/// Saves the chosen game folder where there is no place to keep it: this
/// succeeds for every path and keeps nothing, so that a later
/// `load_config` still finds nothing.
pub fn save_config(_path: &str) -> (r: Result<(), SyncError>)
    ensures
        r == Ok::<(), SyncError>(()),
{
    Ok(())
}

/// The game folder kept at an earlier run where there is no place to keep
/// one: none, whatever was saved before.
pub fn load_config() -> (path: Option<String>)
    ensures
        path is None,
{
    None
}

} // verus!
