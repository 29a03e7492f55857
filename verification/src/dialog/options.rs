//! Options dialogs: a list of switches, numbers and texts bound to
//! configuration settings.

use vstd::prelude::*;

use crate::config::app::{AppConfig, OptionsConfig, PanelsConfig};
use crate::dialog::DialogOutcome;
use crate::key::{KeyChord, KeyCode};
use crate::text::push_char;

verus! {

/// The setting a field edits.
#[derive(Debug, Clone, Copy, PartialEq, Eq, Structural)]
pub enum OptionKey {
    ShowHidden,
    MixDirs,
    CaseSensitiveSort,
    UseInternalView,
    ConfirmDelete,
    ConfirmOverwrite,
    ConfirmExit,
    ConfirmExecute,
    VfsTimeout,
    VfsAnonymousPassword,
}

/// One field: a switch, a number or a text, with its label and setting.
#[derive(Debug, Clone)]
pub enum OptionField {
    Bool { label: &'static str, value: bool, key: OptionKey },
    Int { label: &'static str, value: u32, key: OptionKey },
    Text { label: &'static str, value: String, key: OptionKey },
}

/// A field's value and setting.
pub enum FieldValue {
    Bool(bool, OptionKey),
    Int(u32, OptionKey),
    Text(Seq<char>, OptionKey),
}

impl View for OptionField {
    type V = FieldValue;

    open spec fn view(&self) -> FieldValue {
        match self {
            OptionField::Bool { value, key, .. } => FieldValue::Bool(*value, *key),
            OptionField::Int { value, key, .. } => FieldValue::Int(*value, *key),
            OptionField::Text { value, key, .. } => FieldValue::Text(value@, *key),
        }
    }
}

/// The label a field shows.
pub open spec fn label_of(f: OptionField) -> Seq<char> {
    match f {
        OptionField::Bool { label, .. } => label@,
        OptionField::Int { label, .. } => label@,
        OptionField::Text { label, .. } => label@,
    }
}

/// A titled list of fields with a cursor.
pub struct OptionsDialog {
    title: &'static str,
    fields: Vec<OptionField>,
    cursor: usize,
}

/// A field after a key: Space flips a switch; `+` and `-` step a number;
/// Backspace drops a text's last character or a number's last digit; a
/// digit is appended to a number and any other character to a text.
pub open spec fn edit_field(f: FieldValue, code: KeyCode) -> FieldValue {
    match (f, code) {
        (FieldValue::Bool(b, k), KeyCode::Char(' ')) => FieldValue::Bool(!b, k),
        (FieldValue::Int(n, k), KeyCode::Char('+')) => FieldValue::Int(if n == u32::MAX { n } else { (n + 1) as u32 }, k),
        (FieldValue::Int(n, k), KeyCode::Char('-')) => FieldValue::Int(if n == 0 { 0 } else { (n - 1) as u32 }, k),
        (FieldValue::Text(t, k), KeyCode::Backspace) => FieldValue::Text(if t.len() > 0 { t.drop_last() } else { t }, k),
        (FieldValue::Int(n, k), KeyCode::Backspace) => FieldValue::Int(n / 10, k),
        (FieldValue::Text(t, k), KeyCode::Char(c)) => if c == ' ' || c == '+' || c == '-' {
            FieldValue::Text(t, k)
        } else {
            FieldValue::Text(t.push(c), k)
        },
        (FieldValue::Int(n, k), KeyCode::Char(c)) => if c != '+' && c != '-' && '0' <= c && c <= '9' {
            FieldValue::Int(if n * 10 + (c as int - '0' as int) > u32::MAX { u32::MAX } else { (n * 10 + (c as int - '0' as int)) as u32 }, k)
        } else {
            FieldValue::Int(n, k)
        },
        _ => f,
    }
}

/// The fields and cursor after a key, and what the key did: Enter confirms,
/// Esc cancels, Up and Down move, the other keys edit the field under the
/// cursor.
pub open spec fn options_step(fs: Seq<FieldValue>, cursor: usize, code: KeyCode) -> (Seq<FieldValue>, usize, DialogOutcome<()>) {
    match code {
        KeyCode::Escape => (fs, cursor, DialogOutcome::Cancelled),
        KeyCode::Enter => (fs, cursor, DialogOutcome::Submitted(())),
        KeyCode::Up => (fs, if cursor > 0 { (cursor - 1) as usize } else { 0 }, DialogOutcome::Open),
        KeyCode::Down => (fs, if cursor + 1 < fs.len() { (cursor + 1) as usize } else { cursor }, DialogOutcome::Open),
        _ => (if cursor < fs.len() { fs.update(cursor as int, edit_field(fs[cursor as int], code)) } else { fs }, cursor, DialogOutcome::Open),
    }
}

/// The settings after applying the fields in order; settings the
/// configuration does not hold are left alone.
pub open spec fn apply_fields(fs: Seq<FieldValue>, p: PanelsConfig, o: OptionsConfig) -> (PanelsConfig, OptionsConfig)
    decreases fs.len(),
{
    if fs.len() == 0 {
        (p, o)
    } else {
        let (p1, o1) = apply_fields(fs.drop_last(), p, o);
        match fs.last() {
            FieldValue::Bool(v, OptionKey::ShowHidden) => (PanelsConfig { show_hidden: v, ..p1 }, o1),
            FieldValue::Bool(v, OptionKey::MixDirs) => (PanelsConfig { mix_dirs: v, ..p1 }, o1),
            FieldValue::Bool(v, OptionKey::CaseSensitiveSort) => (PanelsConfig { case_sensitive_sort: v, ..p1 }, o1),
            FieldValue::Bool(v, OptionKey::UseInternalView) => (p1, OptionsConfig { use_internal_view: v, ..o1 }),
            FieldValue::Bool(v, OptionKey::ConfirmDelete) => (p1, OptionsConfig { confirm_delete: v, ..o1 }),
            FieldValue::Bool(v, OptionKey::ConfirmOverwrite) => (p1, OptionsConfig { confirm_overwrite: v, ..o1 }),
            _ => (p1, o1),
        }
    }
}

/// The fields of the configuration dialog for a configuration.
pub open spec fn configuration_fields(c: AppConfig) -> Seq<FieldValue> {
    seq![
        FieldValue::Bool(c.panels.show_hidden, OptionKey::ShowHidden),
        FieldValue::Bool(c.panels.mix_dirs, OptionKey::MixDirs),
        FieldValue::Bool(c.panels.case_sensitive_sort, OptionKey::CaseSensitiveSort),
        FieldValue::Bool(c.options.use_internal_view, OptionKey::UseInternalView),
    ]
}

fn edit(f: &mut OptionField, code: KeyCode)
    ensures
        final(f)@ == edit_field(old(f)@, code),
        label_of(*final(f)) == label_of(*old(f)),
{
    match code {
        KeyCode::Char(' ') => {
            if let OptionField::Bool { value, .. } = f {
                *value = !*value;
            }
        },
        KeyCode::Char('+') => {
            if let OptionField::Int { value, .. } = f {
                if *value < u32::MAX {
                    *value = *value + 1;
                }
            }
        },
        KeyCode::Char('-') => {
            if let OptionField::Int { value, .. } = f {
                if *value > 0 {
                    *value = *value - 1;
                }
            }
        },
        KeyCode::Backspace => {
            match f {
                OptionField::Text { value, .. } => {
                    let v = crate::text::chars_of(value.as_str());
                    if v.len() > 0 {
                        let t = crate::text::sub_chars(v.as_slice(), 0, v.len() - 1);
                        assert(t@ =~= v@.drop_last());
                        *value = crate::text::string_of(t.as_slice());
                    }
                },
                OptionField::Int { value, .. } => {
                    *value = *value / 10;
                },
                _ => {},
            }
        },
        KeyCode::Char(c) => {
            match f {
                OptionField::Text { value, .. } => push_char(value, c),
                OptionField::Int { value, .. } => {
                    if '0' <= c && c <= '9' {
                        let d: u32 = (c as u32) - ('0' as u32);
                        let n: u64 = (*value as u64) * 10 + (d as u64);
                        *value = if n > 0xffff_ffff { u32::MAX } else { n as u32 };
                    }
                },
                _ => {},
            }
        },
        _ => {},
    }
}

impl OptionsDialog {
    /// The fields' values and settings.
    pub closed spec fn fields(&self) -> Seq<FieldValue> {
        self.fields@.map_values(|f: OptionField| f@)
    }

    /// The row under the cursor.
    pub closed spec fn cursor(&self) -> usize {
        self.cursor
    }

    /// The title shown.
    pub closed spec fn title(&self) -> Seq<char> {
        self.title@
    }

    /// The fields' labels, in order.
    pub closed spec fn labels(&self) -> Seq<Seq<char>> {
        self.fields@.map_values(|f: OptionField| label_of(f))
    }

    /// The panel and viewer switches of a configuration.
    pub fn configuration(c: &AppConfig) -> (r: Self)
        ensures
            r.fields() == configuration_fields(*c),
            r.cursor() == 0,
            r.title() == " Configuration "@,
            r.labels() == seq!["Show hidden files"@, "Mix dirs and files"@, "Case-sensitive sort"@, "Use internal viewer"@],
    {
        let mut fields: Vec<OptionField> = Vec::new();
        fields.push(OptionField::Bool { label: "Show hidden files", value: c.panels.show_hidden, key: OptionKey::ShowHidden });
        fields.push(OptionField::Bool { label: "Mix dirs and files", value: c.panels.mix_dirs, key: OptionKey::MixDirs });
        fields.push(OptionField::Bool { label: "Case-sensitive sort", value: c.panels.case_sensitive_sort, key: OptionKey::CaseSensitiveSort });
        fields.push(OptionField::Bool { label: "Use internal viewer", value: c.options.use_internal_view, key: OptionKey::UseInternalView });
        let r = OptionsDialog { title: " Configuration ", fields, cursor: 0 };
        assert(r.fields() =~= configuration_fields(*c));
        assert(r.labels() =~= seq!["Show hidden files"@, "Mix dirs and files"@, "Case-sensitive sort"@, "Use internal viewer"@]);
        r
    }

    /// The four confirmation switches: delete and overwrite from the
    /// configuration, exit and execute as given (the configuration holds no
    /// settings for them).
    pub fn confirmation(c: &AppConfig, confirm_exit: bool, confirm_execute: bool) -> (r: Self)
        ensures
            r.fields() == seq![
                FieldValue::Bool(c.options.confirm_delete, OptionKey::ConfirmDelete),
                FieldValue::Bool(c.options.confirm_overwrite, OptionKey::ConfirmOverwrite),
                FieldValue::Bool(confirm_exit, OptionKey::ConfirmExit),
                FieldValue::Bool(confirm_execute, OptionKey::ConfirmExecute),
            ],
            r.cursor() == 0,
            r.title() == " Confirmation "@,
            r.labels() == seq!["Confirm delete"@, "Confirm overwrite"@, "Confirm exit"@, "Confirm execute"@],
    {
        let mut fields: Vec<OptionField> = Vec::new();
        fields.push(OptionField::Bool { label: "Confirm delete", value: c.options.confirm_delete, key: OptionKey::ConfirmDelete });
        fields.push(OptionField::Bool { label: "Confirm overwrite", value: c.options.confirm_overwrite, key: OptionKey::ConfirmOverwrite });
        fields.push(OptionField::Bool { label: "Confirm exit", value: confirm_exit, key: OptionKey::ConfirmExit });
        fields.push(OptionField::Bool { label: "Confirm execute", value: confirm_execute, key: OptionKey::ConfirmExecute });
        let r = OptionsDialog { title: " Confirmation ", fields, cursor: 0 };
        assert(r.fields() =~= seq![
            FieldValue::Bool(c.options.confirm_delete, OptionKey::ConfirmDelete),
            FieldValue::Bool(c.options.confirm_overwrite, OptionKey::ConfirmOverwrite),
            FieldValue::Bool(confirm_exit, OptionKey::ConfirmExit),
            FieldValue::Bool(confirm_execute, OptionKey::ConfirmExecute),
        ]);
        assert(r.labels() =~= seq!["Confirm delete"@, "Confirm overwrite"@, "Confirm exit"@, "Confirm execute"@]);
        r
    }

    /// The virtual file system settings: the timeout in seconds and the
    /// anonymous FTP password, as given (the configuration holds no
    /// settings for them).
    pub fn vfs(timeout_secs: u32, ftp_anonymous_password: String) -> (r: Self)
        ensures
            r.fields() == seq![
                FieldValue::Int(timeout_secs, OptionKey::VfsTimeout),
                FieldValue::Text(ftp_anonymous_password@, OptionKey::VfsAnonymousPassword),
            ],
            r.cursor() == 0,
            r.title() == " Virtual FS "@,
            r.labels() == seq!["Timeout (seconds)"@, "Anonymous FTP password"@],
    {
        let ghost pw = ftp_anonymous_password@;
        let mut fields: Vec<OptionField> = Vec::new();
        fields.push(OptionField::Int { label: "Timeout (seconds)", value: timeout_secs, key: OptionKey::VfsTimeout });
        fields.push(OptionField::Text {
            label: "Anonymous FTP password",
            value: ftp_anonymous_password,
            key: OptionKey::VfsAnonymousPassword,
        });
        let r = OptionsDialog { title: " Virtual FS ", fields, cursor: 0 };
        assert(r.fields() =~= seq![
            FieldValue::Int(timeout_secs, OptionKey::VfsTimeout),
            FieldValue::Text(pw, OptionKey::VfsAnonymousPassword),
        ]);
        assert(r.labels() =~= seq!["Timeout (seconds)"@, "Anonymous FTP password"@]);
        r
    }

    /// Writes the fields back into a configuration, in order.
    pub fn apply(&self, cfg: &mut AppConfig)
        ensures
            (final(cfg).panels, final(cfg).options) == apply_fields(self.fields(), old(cfg).panels, old(cfg).options),
            final(cfg).editor == old(cfg).editor,
    {
        let ghost fs = self.fields();
        let ghost p0 = cfg.panels;
        let ghost o0 = cfg.options;
        let mut i: usize = 0;
        assert(fs.take(0) =~= Seq::<FieldValue>::empty());
        while i < self.fields.len()
            invariant
                i <= self.fields@.len(),
                fs == self.fields(),
                (cfg.panels, cfg.options) == apply_fields(fs.take(i as int), p0, o0),
                cfg.editor == old(cfg).editor,
            decreases self.fields@.len() - i,
        {
            assert(fs.take(i + 1).drop_last() =~= fs.take(i as int));
            assert(fs.take(i + 1).last() == self.fields@[i as int]@);
            match &self.fields[i] {
                OptionField::Bool { value, key, .. } => match key {
                    OptionKey::ShowHidden => cfg.panels.show_hidden = *value,
                    OptionKey::MixDirs => cfg.panels.mix_dirs = *value,
                    OptionKey::CaseSensitiveSort => cfg.panels.case_sensitive_sort = *value,
                    OptionKey::UseInternalView => cfg.options.use_internal_view = *value,
                    OptionKey::ConfirmDelete => cfg.options.confirm_delete = *value,
                    OptionKey::ConfirmOverwrite => cfg.options.confirm_overwrite = *value,
                    _ => {},
                },
                _ => {},
            }
            i = i + 1;
        }
        assert(fs.take(self.fields@.len() as int) =~= fs);
    }

    /// Handles one key as [`options_step`] says.
    pub fn handle_key(&mut self, chord: KeyChord) -> (r: DialogOutcome<()>)
        ensures
            (final(self).fields(), final(self).cursor(), r) == options_step(old(self).fields(), old(self).cursor(), chord.code),
            final(self).title() == old(self).title(),
            final(self).labels() == old(self).labels(),
    {
        let max = self.fields.len();
        match chord.code {
            KeyCode::Escape => DialogOutcome::Cancelled,
            KeyCode::Enter => DialogOutcome::Submitted(()),
            KeyCode::Up => {
                if self.cursor > 0 {
                    self.cursor = self.cursor - 1;
                }
                DialogOutcome::Open
            },
            KeyCode::Down => {
                if self.cursor < max && self.cursor + 1 < max {
                    self.cursor = self.cursor + 1;
                }
                DialogOutcome::Open
            },
            _ => {
                if self.cursor < max {
                    let ghost before = self.fields();
                    let ghost before_labels = self.labels();
                    let mut f = self.fields[self.cursor].clone_field();
                    edit(&mut f, chord.code);
                    self.fields.set(self.cursor, f);
                    assert(self.fields() =~= before.update(self.cursor as int, edit_field(before[self.cursor as int], chord.code)));
                    assert(self.labels() =~= before_labels);
                }
                DialogOutcome::Open
            },
        }
    }
}

impl OptionField {
    /// A copy of the field.
    pub fn clone_field(&self) -> (r: Self)
        ensures
            r@ == self@,
            label_of(r) == label_of(*self),
    {
        match self {
            OptionField::Bool { label, value, key } => OptionField::Bool { label: *label, value: *value, key: *key },
            OptionField::Int { label, value, key } => OptionField::Int { label: *label, value: *value, key: *key },
            OptionField::Text { label, value, key } => OptionField::Text { label: *label, value: value.clone(), key: *key },
        }
    }
}

} // verus!
