//! The editor's configuration document and its fixed default value.
//!
//! `EditorSettings` is the single persisted document of the store: a handful
//! of plain display options plus a nested auto-save record.  All fields are
//! stored verbatim; no range or format validation happens at this layer.

use vstd::prelude::*;

verus! {

/// Mathematical model of an [`AutoSaveSettings`] record.
pub ghost struct AutoSaveSettingsView {
    pub enabled: bool,
    pub interval: u32,
}

/// Mathematical model of an [`EditorSettings`] document: every text field is
/// seen as its sequence of characters.
#[verifier::ext_equal]
pub ghost struct EditorSettingsView {
    pub font_size: u32,
    pub word_wrap_column: u32,
    pub background_color: Seq<char>,
    pub text_color: Seq<char>,
    pub font_family: Seq<char>,
    pub auto_save: AutoSaveSettingsView,
    pub resizer_ratio: Option<u32>,
}

/// Automatic-save options nested inside the configuration document.
#[derive(Debug, Clone, PartialEq, Eq, Structural)]
pub struct AutoSaveSettings {
    /// Whether the editor saves on a timer at all.
    pub enabled: bool,
    /// Seconds between automatic saves.
    pub interval: u32,
}

/// The persisted configuration document.  There is exactly one per
/// installation; a missing document is replaced by [`default_settings`].
#[derive(Debug, Clone)]
pub struct EditorSettings {
    /// Point size of the editor font; no enforced range at this layer.
    pub font_size: u32,
    /// Character column used for soft wrapping.
    pub word_wrap_column: u32,
    /// Hex color literal, stored verbatim and not validated.
    pub background_color: String,
    /// Hex color literal, stored verbatim.
    pub text_color: String,
    /// Comma-separated font stack, stored verbatim.
    pub font_family: String,
    /// Nested automatic-save record.
    pub auto_save: AutoSaveSettings,
    /// Percentage split between the two panes; `None` means "unset",
    /// which is distinct from `Some(0)`.
    pub resizer_ratio: Option<u32>,
}

impl View for AutoSaveSettings {
    type V = AutoSaveSettingsView;

    open spec fn view(&self) -> AutoSaveSettingsView {
        AutoSaveSettingsView { enabled: self.enabled, interval: self.interval }
    }
}

impl View for EditorSettings {
    type V = EditorSettingsView;

    open spec fn view(&self) -> EditorSettingsView {
        EditorSettingsView {
            font_size: self.font_size,
            word_wrap_column: self.word_wrap_column,
            background_color: self.background_color@,
            text_color: self.text_color@,
            font_family: self.font_family@,
            auto_save: self.auto_save@,
            resizer_ratio: self.resizer_ratio,
        }
    }
}

/// The fixed font stack used when no stored configuration exists.
pub open spec fn spec_default_font_family() -> Seq<char> {
    "\"UD デジタル 教科書体 N-R\", \"Hiragino Sans\", \"Yu Gothic UI\", \"Meiryo UI\", sans-serif"@
}

/// The fixed default document: the value every fresh installation starts
/// from, and the recovery value when the stored document is missing.
pub open spec fn spec_default_settings() -> EditorSettingsView {
    EditorSettingsView {
        font_size: 16,
        word_wrap_column: 60,
        background_color: "#ffffff"@,
        text_color: "#000000"@,
        font_family: spec_default_font_family(),
        auto_save: AutoSaveSettingsView { enabled: true, interval: 10 },
        resizer_ratio: Some(50u32),
    }
}

/// Pure factory for the hard-coded default document.  Every call returns a
/// fresh value equal to [`spec_default_settings`]; there is no shared
/// mutable singleton.
pub fn default_settings() -> (r: EditorSettings)
    ensures
        r@ == spec_default_settings(),
{
    let r = EditorSettings {
        font_size: 16,
        word_wrap_column: 60,
        background_color: String::from_str("#ffffff"),
        text_color: String::from_str("#000000"),
        font_family: String::from_str(
            "\"UD デジタル 教科書体 N-R\", \"Hiragino Sans\", \"Yu Gothic UI\", \"Meiryo UI\", sans-serif",
        ),
        auto_save: AutoSaveSettings { enabled: true, interval: 10 },
        resizer_ratio: Some(50),
    };
    proof {
        assert(r@ =~= spec_default_settings());
    }
    r
}

} // verus!
