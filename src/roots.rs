//! Where the saves root and the backups root lie.
use crate::engine::IoFailure;
use crate::path::DirPath;
use vstd::prelude::*;

verus! {

/// Relies on home::home_dir: the current user's home directory as the
/// environment gives it, split into its components, or `None` where it
/// cannot be found. Nothing is promised of its value.
#[verifier::external_body]
fn home_location() -> (r: Option<Vec<String>>) {
    match home::home_dir() {
        None => None,
        Some(p) => {
            let mut parts = Vec::new();
            for c in p.components() {
                parts.push(c.as_os_str().to_string_lossy().into_owned());
            }
            Some(parts)
        },
    }
}

/// The current user's home directory.
pub fn home_dir() -> (r: Result<DirPath, IoFailure>)
    ensures
        r matches Err(e) ==> e.message@ == "Unable to get your home dir"@,
{
    match home_location() {
        Some(parts) => Ok(DirPath::new(parts)),
        None => Err(IoFailure { message: String::from_str("Unable to get your home dir") }),
    }
}

/// The saves root under the home directory `home`: `<home>/Zomboid/saves`.
pub fn get_saves_path(home: &DirPath) -> (r: DirPath)
    ensures
        r@ == home@.push("Zomboid"@).push("saves"@),
{
    home.join(&String::from_str("Zomboid")).join(&String::from_str("saves"))
}

/// The backups root under the home directory `home`:
/// `<home>/Zomboid/pzsm_backup`.
pub fn get_backups_path(home: &DirPath) -> (r: DirPath)
    ensures
        r@ == home@.push("Zomboid"@).push("pzsm_backup"@),
{
    home.join(&String::from_str("Zomboid")).join(&String::from_str("pzsm_backup"))
}

} // verus!
