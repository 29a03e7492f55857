//! Top-level application configuration.

use vstd::prelude::*;

verus! {

/// The whole configuration file.
#[derive(Debug, Clone)]
pub struct AppConfig {
    pub panels: PanelsConfig,
    pub options: OptionsConfig,
    pub editor: EditorConfig,
}

/// Panel listing settings.
#[derive(Debug, Clone, Copy, PartialEq, Eq, Structural)]
pub struct PanelsConfig {
    pub show_hidden: bool,
    pub mix_dirs: bool,
    pub case_sensitive_sort: bool,
}

/// Behaviour switches.
#[derive(Debug, Clone, Copy, PartialEq, Eq, Structural)]
pub struct OptionsConfig {
    pub use_internal_view: bool,
    pub confirm_delete: bool,
    pub confirm_overwrite: bool,
}

/// The external editor.
#[derive(Debug, Clone)]
pub struct EditorConfig {
    /// External editor command. Defaults to `hx`, falls back to `$EDITOR`.
    pub command: Option<String>,
    /// Argument template for `+lineno` style invocation, e.g. `"+%lineno"`.
    pub line_template: String,
}

impl Default for PanelsConfig {
    fn default() -> (r: Self)
        ensures
            r == (PanelsConfig { show_hidden: false, mix_dirs: false, case_sensitive_sort: false }),
    {
        PanelsConfig { show_hidden: false, mix_dirs: false, case_sensitive_sort: false }
    }
}

impl Default for OptionsConfig {
    fn default() -> (r: Self)
        ensures
            r == (OptionsConfig { use_internal_view: true, confirm_delete: true, confirm_overwrite: true }),
    {
        OptionsConfig { use_internal_view: true, confirm_delete: true, confirm_overwrite: true }
    }
}

impl Default for EditorConfig {
    fn default() -> (r: Self)
        ensures
            r.command is None,
            r.line_template@ == "+%lineno"@,
    {
        EditorConfig { command: None, line_template: String::from_str("+%lineno") }
    }
}

impl Default for AppConfig {
    fn default() -> (r: Self)
        ensures
            r.panels == (PanelsConfig { show_hidden: false, mix_dirs: false, case_sensitive_sort: false }),
            r.options == (OptionsConfig { use_internal_view: true, confirm_delete: true, confirm_overwrite: true }),
            r.editor.command is None,
            r.editor.line_template@ == "+%lineno"@,
    {
        AppConfig {
            panels: PanelsConfig::default(),
            options: OptionsConfig::default(),
            editor: EditorConfig::default(),
        }
    }
}

} // verus!
