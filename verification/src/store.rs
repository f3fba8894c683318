//! The settings store's load protocol: read-or-initialize with
//! default-fallback semantics.
//!
//! Resolving the platform's application-data directory and touching the
//! disk happen outside this library; what stands here is the decision the
//! store takes once the stored document's state is known.  A missing
//! document is replaced by the fixed defaults (which are persisted at
//! once); a document that exists but does not parse is reported as
//! `ParseFailed` and left untouched — corruption is surfaced, never healed
//! silently.

use crate::codec::encode_settings;
use crate::codec::spec_encode;
use crate::parse::parse_settings;
use crate::parse::spec_parse_settings;
use crate::settings::EditorSettings;
use crate::settings::default_settings;
use crate::settings::spec_default_settings;
use vstd::prelude::*;

verus! {

/// A failure of the settings store.
pub enum SettingsError {
    /// The platform cannot supply an application-data directory.  The one
    /// unrecoverable condition of the store.
    DirectoryUnavailable,
    /// Creating the directory or writing the document failed; carries the
    /// underlying reason.
    WriteFailed(String),
    /// The stored document exists but cannot be read as a valid
    /// configuration document; carries the underlying reason.  The caller
    /// decides whether to recover — this library never does.
    ParseFailed(String),
}

/// What a load does once the stored document's state is known.
pub enum LoadPlan {
    /// The document was missing: hand the caller these defaults and persist
    /// `encoded` (their canonical form) as the new document.
    WriteDefaults { settings: EditorSettings, encoded: String },
    /// The document was present and parsed: hand it to the caller as-is,
    /// with no migration or field patching.
    Ready(EditorSettings),
    /// The document was present but did not parse: report the failure and
    /// write nothing.
    Fail(SettingsError),
}

/// Decides a load from the stored document's state: `None` means the
/// document does not exist, `Some` carries its full text.
///
/// A missing document — and only a missing document — is auto-healed: the
/// plan then carries the fixed defaults and their canonical encoding to be
/// persisted.  An existing document is either handed over exactly as it
/// parses, or reported as `ParseFailed`; in neither case does the plan ask
/// for a write, so a corrupt document is never overwritten.
pub fn plan_load(stored: Option<&str>) -> (r: LoadPlan)
    ensures
        (stored is None <==> r is WriteDefaults),
        r matches LoadPlan::WriteDefaults { settings, encoded } ==> settings@
            == spec_default_settings() && encoded@ == spec_encode(spec_default_settings()),
        stored matches Some(text) ==> match spec_parse_settings(text@) {
            Some(v) => r matches LoadPlan::Ready(settings) && settings@ == v,
            None => r matches LoadPlan::Fail(e) && e is ParseFailed,
        },
{
    match stored {
        None => {
            let settings = default_settings();
            let encoded = encode_settings(&settings);
            LoadPlan::WriteDefaults { settings, encoded }
        },
        Some(text) => match parse_settings(text) {
            Ok(settings) => LoadPlan::Ready(settings),
            Err(reason) => LoadPlan::Fail(SettingsError::ParseFailed(reason)),
        },
    }
}

} // verus!
