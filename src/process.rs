use crate::install::{chars_of, find_chars, find_from};
use crate::paths::Platform;
use vstd::prelude::*;

verus! {

/// How to start the application again.
pub enum LaunchAction {
    /// Run the executable at this path.
    Executable(String),
    /// Open the application by its name.
    OpenByName,
}

/// The executable's path: the install path with the executable's file name
/// appended.
pub open spec fn executable_path(install_path: Seq<char>) -> Seq<char> {
    install_path + "cursor.exe"@
}

/// How to relaunch the application installed at `install_path`: on Windows
/// the executable in that directory; on macOS the application by its name.
pub fn launch_action(platform: Platform, install_path: &str) -> (r: LaunchAction)
    ensures
        match platform {
            Platform::WindowsLayout => r matches LaunchAction::Executable(p) && p@
                == executable_path(install_path@),
            Platform::MacLayout => r is OpenByName,
        },
{
    match platform {
        Platform::WindowsLayout => {
            let mut path = String::from_str(install_path);
            path.append("cursor.exe");
            LaunchAction::Executable(path)
        },
        Platform::MacLayout => LaunchAction::OpenByName,
    }
}

/// Whether the process listing shows the application running: on Windows
/// the task list names its executable; elsewhere the process lookup printed
/// anything.
pub open spec fn listing_shows_running(platform: Platform, listing: Seq<char>) -> bool {
    match platform {
        Platform::WindowsLayout => find_from(listing, "Cursor.exe"@, 0) is Some,
        Platform::MacLayout => listing.len() > 0,
    }
}

/// Whether the process listing `listing` shows the application running.
pub fn is_running_from_listing(platform: Platform, listing: &str) -> (r: bool)
    ensures
        r == listing_shows_running(platform, listing@),
{
    match platform {
        Platform::WindowsLayout => find_chars(&chars_of(listing), &chars_of("Cursor.exe"), 0).is_some(),
        Platform::MacLayout => listing.unicode_len() > 0,
    }
}

} // verus!
