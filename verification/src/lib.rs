//! Persistence and file-access backend for a desktop text editor's host
//! process: a settings store with default-fallback semantics and the
//! decision logic of the user-facing file open/save flows.

pub mod codec;
pub mod gateway;
pub mod parse;
pub mod settings;
pub mod store;

use vstd::prelude::*;

verus! {

/// The fixed name of the stored configuration document, placed inside the
/// platform's application-data directory.
pub fn settings_file_name() -> (r: String)
    ensures
        r@ == "settings.json"@,
{
    String::from_str("settings.json")
}

} // verus!
