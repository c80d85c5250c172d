//! Well-known locations of the client's files.
//!
//! A path is held as its sequence of components; the host joins them with
//! the platform's separator.
use vstd::prelude::*;
use crate::text::{owned, views};

verus! {

/// Bundle identifier, the name of the client's directory under the
/// per-user local application data folder.
pub const BUNDLE_ID: &'static str = "dev.firezone.client";

/// Failures in locating the client's directories.
#[derive(Debug, Clone, Copy, PartialEq, Eq, Structural)]
pub enum DirError {
    /// The platform reported no per-user local application data folder.
    CantFindLocalAppDataFolder,
}

pub open spec fn bundle_id_spec() -> Seq<char> {
    "dev.firezone.client"@
}

/// `C:/Users/User/AppData/Local/dev.firezone.client`, given the components of
/// the platform's per-user local application data folder (`None` where the
/// platform has none).
///
/// Config, logs and crash dumps live here. It is per-user, does not roam, and
/// is writable by non-elevated processes.
pub fn app_local_data_dir(local_app_data: Option<Vec<String>>) -> (r: Result<Vec<String>, DirError>)
    ensures
        local_app_data is None ==> r == Err::<Vec<String>, DirError>(
            DirError::CantFindLocalAppDataFolder,
        ),
        local_app_data matches Some(base) ==> r matches Ok(p) && views(p@) == views(base@).push(
            bundle_id_spec(),
        ),
{
    match local_app_data {
        None => Err(DirError::CantFindLocalAppDataFolder),
        Some(base) => {
            let mut p = base;
            proof {
                reveal_strlit("dev.firezone.client");
            }
            p.push(owned(BUNDLE_ID));
            proof {
                assert(views(p@) =~= views(base@).push(bundle_id_spec()));
            }
            Ok(p)
        },
    }
}

/// The path for installing and loading `wintun.dll`, e.g.
/// `C:\Users\User\AppData\Local\dev.firezone.client\data\wintun.dll`.
pub fn wintun_dll_path(local_app_data: Option<Vec<String>>) -> (r: Result<Vec<String>, DirError>)
    ensures
        local_app_data is None ==> r == Err::<Vec<String>, DirError>(
            DirError::CantFindLocalAppDataFolder,
        ),
        local_app_data matches Some(base) ==> r matches Ok(p) && views(p@) == views(base@).push(
            bundle_id_spec(),
        ).push("data"@).push("wintun.dll"@),
{
    let mut p = app_local_data_dir(local_app_data)?;
    let ghost dir = p@;
    p.push(owned("data"));
    p.push(owned("wintun.dll"));
    proof {
        assert(views(p@) =~= views(dir).push("data"@).push("wintun.dll"@));
    }
    Ok(p)
}

} // verus!
