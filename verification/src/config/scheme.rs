//! The resolved color scheme: every UI color, the built-in themes, and
//! per-field overrides.

use vstd::prelude::*;

use crate::config::skin::{parse_color, parse_color_spec, ThemeColor};
use crate::text::{append_str, ascii_lower, ascii_lowercase, chars_eq, chars_of, string_of, trim_chars, trim_ws};

verus! {

/// Concrete, fully-resolved palette referenced by every renderer.
///
/// Field naming: `<surface>_<role>`: `bg` for backgrounds, `fg` for text.
#[derive(Debug, Clone, Copy, PartialEq, Eq, Structural)]
pub struct ColorScheme {
    pub panel_bg: ThemeColor,
    pub panel_fg: ThemeColor,
    pub panel_dim_fg: ThemeColor,
    pub panel_border: ThemeColor,
    pub panel_border_active: ThemeColor,
    pub panel_title_fg: ThemeColor,
    pub panel_title_active_bg: ThemeColor,
    pub panel_title_active_fg: ThemeColor,
    pub cursor_bg: ThemeColor,
    pub cursor_fg: ThemeColor,
    pub marked_fg: ThemeColor,
    pub file_dir: ThemeColor,
    pub file_symlink: ThemeColor,
    pub file_executable: ThemeColor,
    pub file_device: ThemeColor,
    pub file_special: ThemeColor,
    pub file_archive: ThemeColor,
    pub file_image: ThemeColor,
    pub file_media: ThemeColor,
    pub file_doc: ThemeColor,
    pub file_source: ThemeColor,
    pub file_build: ThemeColor,
    pub dialog_bg: ThemeColor,
    pub dialog_fg: ThemeColor,
    pub dialog_border: ThemeColor,
    pub dialog_title_fg: ThemeColor,
    pub dialog_focus_bg: ThemeColor,
    pub dialog_focus_fg: ThemeColor,
    pub input_bg: ThemeColor,
    pub input_fg: ThemeColor,
    pub danger_bg: ThemeColor,
    pub danger_fg: ThemeColor,
    pub danger_focus_bg: ThemeColor,
    pub danger_focus_fg: ThemeColor,
    pub statusbar_bg: ThemeColor,
    pub statusbar_fg: ThemeColor,
    pub buttonbar_bg: ThemeColor,
    pub buttonbar_fg: ThemeColor,
    pub buttonbar_label_bg: ThemeColor,
    pub buttonbar_label_fg: ThemeColor,
    pub search_bg: ThemeColor,
    pub search_fg: ThemeColor,
    pub op_status_bg: ThemeColor,
    pub op_status_fg: ThemeColor,
    pub diff_add_bg: ThemeColor,
    pub diff_add_fg: ThemeColor,
    pub diff_del_bg: ThemeColor,
    pub diff_del_fg: ThemeColor,
    pub muted_fg: ThemeColor,
}

impl View for ColorScheme {
    type V = Seq<ThemeColor>;

    /// The fields in declaration order.
    open spec fn view(&self) -> Seq<ThemeColor> {
        seq![
            self.panel_bg,
            self.panel_fg,
            self.panel_dim_fg,
            self.panel_border,
            self.panel_border_active,
            self.panel_title_fg,
            self.panel_title_active_bg,
            self.panel_title_active_fg,
            self.cursor_bg,
            self.cursor_fg,
            self.marked_fg,
            self.file_dir,
            self.file_symlink,
            self.file_executable,
            self.file_device,
            self.file_special,
            self.file_archive,
            self.file_image,
            self.file_media,
            self.file_doc,
            self.file_source,
            self.file_build,
            self.dialog_bg,
            self.dialog_fg,
            self.dialog_border,
            self.dialog_title_fg,
            self.dialog_focus_bg,
            self.dialog_focus_fg,
            self.input_bg,
            self.input_fg,
            self.danger_bg,
            self.danger_fg,
            self.danger_focus_bg,
            self.danger_focus_fg,
            self.statusbar_bg,
            self.statusbar_fg,
            self.buttonbar_bg,
            self.buttonbar_fg,
            self.buttonbar_label_bg,
            self.buttonbar_label_fg,
            self.search_bg,
            self.search_fg,
            self.op_status_bg,
            self.op_status_fg,
            self.diff_add_bg,
            self.diff_add_fg,
            self.diff_del_bg,
            self.diff_del_fg,
            self.muted_fg,
        ]
    }
}

/// The field names, in declaration order.
pub open spec fn color_field_names() -> Seq<Seq<char>> {
    seq![
        "panel_bg"@,
        "panel_fg"@,
        "panel_dim_fg"@,
        "panel_border"@,
        "panel_border_active"@,
        "panel_title_fg"@,
        "panel_title_active_bg"@,
        "panel_title_active_fg"@,
        "cursor_bg"@,
        "cursor_fg"@,
        "marked_fg"@,
        "file_dir"@,
        "file_symlink"@,
        "file_executable"@,
        "file_device"@,
        "file_special"@,
        "file_archive"@,
        "file_image"@,
        "file_media"@,
        "file_doc"@,
        "file_source"@,
        "file_build"@,
        "dialog_bg"@,
        "dialog_fg"@,
        "dialog_border"@,
        "dialog_title_fg"@,
        "dialog_focus_bg"@,
        "dialog_focus_fg"@,
        "input_bg"@,
        "input_fg"@,
        "danger_bg"@,
        "danger_fg"@,
        "danger_focus_bg"@,
        "danger_focus_fg"@,
        "statusbar_bg"@,
        "statusbar_fg"@,
        "buttonbar_bg"@,
        "buttonbar_fg"@,
        "buttonbar_label_bg"@,
        "buttonbar_label_fg"@,
        "search_bg"@,
        "search_fg"@,
        "op_status_bg"@,
        "op_status_fg"@,
        "diff_add_bg"@,
        "diff_add_fg"@,
        "diff_del_bg"@,
        "diff_del_fg"@,
        "muted_fg"@,
    ]
}

/// Index of the first name equal to `key` in `names`, or -1.
pub open spec fn first_index(names: Seq<Seq<char>>, key: Seq<char>) -> int
    decreases names.len(),
{
    if names.len() == 0 {
        -1
    } else if names[0] == key {
        0
    } else {
        let i = first_index(names.skip(1), key);
        if i < 0 {
            -1
        } else {
            i + 1
        }
    }
}

proof fn lemma_first_index_bound(names: Seq<Seq<char>>, key: Seq<char>)
    ensures
        -1 <= first_index(names, key) < names.len(),
        first_index(names, key) >= 0 ==> names[first_index(names, key)] == key,
    decreases names.len(),
{
    if names.len() > 0 && names[0] != key {
        lemma_first_index_bound(names.skip(1), key);
    }
}

/// `<key>: <message>`
pub open spec fn bad_value_msg(key: Seq<char>, msg: Seq<char>) -> Seq<char> {
    key + ": "@ + msg
}

/// `unknown color field '<key>'`
pub open spec fn unknown_field_msg(key: Seq<char>) -> Seq<char> {
    "unknown color field '"@ + key + "'"@
}

/// What applying `key = value` does to a scheme's colors: the value is
/// parsed first, then the field is looked up by name.
pub open spec fn apply_override_spec(colors: Seq<ThemeColor>, key: Seq<char>, value: Seq<char>) -> Result<Seq<ThemeColor>, Seq<char>> {
    match parse_color_spec(value) {
        Err(m) => Err(bad_value_msg(key, m)),
        Ok(c) => {
            let i = first_index(color_field_names(), key);
            if i >= 0 {
                Ok(colors.update(i, c))
            } else {
                Err(unknown_field_msg(key))
            }
        },
    }
}

impl ColorScheme {
    /// The fields in declaration order.
    pub fn to_vec(&self) -> (v: Vec<ThemeColor>)
        ensures
            v@ == self@,
    {
        let mut v: Vec<ThemeColor> = Vec::new();
        v.push(self.panel_bg);
        v.push(self.panel_fg);
        v.push(self.panel_dim_fg);
        v.push(self.panel_border);
        v.push(self.panel_border_active);
        v.push(self.panel_title_fg);
        v.push(self.panel_title_active_bg);
        v.push(self.panel_title_active_fg);
        v.push(self.cursor_bg);
        v.push(self.cursor_fg);
        v.push(self.marked_fg);
        v.push(self.file_dir);
        v.push(self.file_symlink);
        v.push(self.file_executable);
        v.push(self.file_device);
        v.push(self.file_special);
        v.push(self.file_archive);
        v.push(self.file_image);
        v.push(self.file_media);
        v.push(self.file_doc);
        v.push(self.file_source);
        v.push(self.file_build);
        v.push(self.dialog_bg);
        v.push(self.dialog_fg);
        v.push(self.dialog_border);
        v.push(self.dialog_title_fg);
        v.push(self.dialog_focus_bg);
        v.push(self.dialog_focus_fg);
        v.push(self.input_bg);
        v.push(self.input_fg);
        v.push(self.danger_bg);
        v.push(self.danger_fg);
        v.push(self.danger_focus_bg);
        v.push(self.danger_focus_fg);
        v.push(self.statusbar_bg);
        v.push(self.statusbar_fg);
        v.push(self.buttonbar_bg);
        v.push(self.buttonbar_fg);
        v.push(self.buttonbar_label_bg);
        v.push(self.buttonbar_label_fg);
        v.push(self.search_bg);
        v.push(self.search_fg);
        v.push(self.op_status_bg);
        v.push(self.op_status_fg);
        v.push(self.diff_add_bg);
        v.push(self.diff_add_fg);
        v.push(self.diff_del_bg);
        v.push(self.diff_del_fg);
        v.push(self.muted_fg);
        assert(v@ =~= self@);
        v
    }

    /// The scheme whose fields, in declaration order, are `v`.
    pub fn from_colors(v: &Vec<ThemeColor>) -> (s: Self)
        requires
            v@.len() == 49,
        ensures
            s@ == v@,
    {
        let s = ColorScheme {
            panel_bg: v[0],
            panel_fg: v[1],
            panel_dim_fg: v[2],
            panel_border: v[3],
            panel_border_active: v[4],
            panel_title_fg: v[5],
            panel_title_active_bg: v[6],
            panel_title_active_fg: v[7],
            cursor_bg: v[8],
            cursor_fg: v[9],
            marked_fg: v[10],
            file_dir: v[11],
            file_symlink: v[12],
            file_executable: v[13],
            file_device: v[14],
            file_special: v[15],
            file_archive: v[16],
            file_image: v[17],
            file_media: v[18],
            file_doc: v[19],
            file_source: v[20],
            file_build: v[21],
            dialog_bg: v[22],
            dialog_fg: v[23],
            dialog_border: v[24],
            dialog_title_fg: v[25],
            dialog_focus_bg: v[26],
            dialog_focus_fg: v[27],
            input_bg: v[28],
            input_fg: v[29],
            danger_bg: v[30],
            danger_fg: v[31],
            danger_focus_bg: v[32],
            danger_focus_fg: v[33],
            statusbar_bg: v[34],
            statusbar_fg: v[35],
            buttonbar_bg: v[36],
            buttonbar_fg: v[37],
            buttonbar_label_bg: v[38],
            buttonbar_label_fg: v[39],
            search_bg: v[40],
            search_fg: v[41],
            op_status_bg: v[42],
            op_status_fg: v[43],
            diff_add_bg: v[44],
            diff_add_fg: v[45],
            diff_del_bg: v[46],
            diff_del_fg: v[47],
            muted_fg: v[48],
        };
        assert(s@ =~= v@);
        s
    }
}

fn field_index(key: &str) -> (r: Option<usize>)
    ensures
        match r {
            Some(i) => first_index(color_field_names(), key@) == i as int && i < 49,
            None => first_index(color_field_names(), key@) == -1,
        },
{
    let names: [&str; 49] = [
        "panel_bg", "panel_fg", "panel_dim_fg", "panel_border", "panel_border_active",
        "panel_title_fg", "panel_title_active_bg", "panel_title_active_fg", "cursor_bg",
        "cursor_fg", "marked_fg", "file_dir", "file_symlink", "file_executable", "file_device",
        "file_special", "file_archive", "file_image", "file_media", "file_doc", "file_source",
        "file_build", "dialog_bg", "dialog_fg", "dialog_border", "dialog_title_fg",
        "dialog_focus_bg", "dialog_focus_fg", "input_bg", "input_fg", "danger_bg", "danger_fg",
        "danger_focus_bg", "danger_focus_fg", "statusbar_bg", "statusbar_fg", "buttonbar_bg",
        "buttonbar_fg", "buttonbar_label_bg", "buttonbar_label_fg", "search_bg", "search_fg",
        "op_status_bg", "op_status_fg", "diff_add_bg", "diff_add_fg", "diff_del_bg",
        "diff_del_fg", "muted_fg",
    ];
    let ghost ns = names@.map_values(|n: &str| n@);
    assert(ns =~= color_field_names());
    assert(ns.skip(0) == ns);
    let mut i: usize = 0;
    while i < 49
        invariant
            i <= 49,
            names@.len() == 49,
            ns == names@.map_values(|n: &str| n@),
            ns == color_field_names(),
            first_index(ns, key@) == if first_index(ns.skip(i as int), key@) < 0 {
                -1
            } else {
                first_index(ns.skip(i as int), key@) + i
            },
        decreases 49 - i,
    {
        assert(ns.skip(i as int)[0] == names@[i as int]@);
        if crate::text::str_eq(names[i], key) {
            return Some(i);
        }
        assert(ns.skip(i as int).skip(1) == ns.skip(i + 1));
        i = i + 1;
    }
    None
}

/// Apply a single override `key = value` to an existing scheme.
///
/// # Errors
/// Returns a human-readable message if the value cannot be parsed (then
/// prefixed by the key) or the key names no field; the scheme is then
/// unchanged.
pub fn apply_override(scheme: &mut ColorScheme, key: &str, value: &str) -> (r: Result<(), String>)
    ensures
        match apply_override_spec(old(scheme)@, key@, value@) {
            Ok(c) => r is Ok && final(scheme)@ == c,
            Err(m) => r matches Err(e) && e@ == m && *final(scheme) == *old(scheme),
        },
{
    let color = match parse_color(value) {
        Ok(c) => c,
        Err(e) => {
            let mut m = String::new();
            append_str(&mut m, key);
            append_str(&mut m, ": ");
            append_str(&mut m, e.as_str());
            return Err(m);
        },
    };
    match field_index(key) {
        Some(i) => {
            let mut v = scheme.to_vec();
            v.set(i, color);
            *scheme = ColorScheme::from_colors(&v);
            Ok(())
        },
        None => {
            let mut m = String::from_str("unknown color field '");
            append_str(&mut m, key);
            append_str(&mut m, "'");
            Err(m)
        },
    }
}

/// The default theme: a Catppuccin-Mocha inspired dark palette.
pub open spec fn modern_dark_palette() -> ColorScheme {
    let base = ThemeColor::Rgb(0x1e, 0x1e, 0x2e);
    let mantle = ThemeColor::Rgb(0x18, 0x18, 0x25);
    let surface0 = ThemeColor::Rgb(0x31, 0x32, 0x44);
    let surface1 = ThemeColor::Rgb(0x45, 0x47, 0x5a);
    let surface2 = ThemeColor::Rgb(0x58, 0x5b, 0x70);
    let overlay = ThemeColor::Rgb(0xa6, 0xad, 0xc8);
    let text = ThemeColor::Rgb(0xcd, 0xd6, 0xf4);
    let subtext = ThemeColor::Rgb(0xba, 0xc2, 0xde);
    let blue = ThemeColor::Rgb(0x89, 0xb4, 0xfa);
    let teal = ThemeColor::Rgb(0x94, 0xe2, 0xd5);
    let green = ThemeColor::Rgb(0xa6, 0xe3, 0xa1);
    let yellow = ThemeColor::Rgb(0xf9, 0xe2, 0xaf);
    let peach = ThemeColor::Rgb(0xfa, 0xb3, 0x87);
    let mauve = ThemeColor::Rgb(0xcb, 0xa6, 0xf7);
    let pink = ThemeColor::Rgb(0xf5, 0xc2, 0xe7);
    let red = ThemeColor::Rgb(0xf3, 0x8b, 0xa8);
    ColorScheme {
        panel_bg: base,
        panel_fg: text,
        panel_dim_fg: subtext,
        panel_border: surface1,
        panel_border_active: blue,
        panel_title_fg: subtext,
        panel_title_active_bg: blue,
        panel_title_active_fg: base,
        cursor_bg: blue,
        cursor_fg: base,
        marked_fg: yellow,
        file_dir: blue,
        file_symlink: teal,
        file_executable: green,
        file_device: yellow,
        file_special: mauve,
        file_archive: red,
        file_image: mauve,
        file_media: pink,
        file_doc: text,
        file_source: teal,
        file_build: peach,
        dialog_bg: surface0,
        dialog_fg: text,
        dialog_border: blue,
        dialog_title_fg: blue,
        dialog_focus_bg: yellow,
        dialog_focus_fg: base,
        input_bg: surface2,
        input_fg: text,
        danger_bg: red,
        danger_fg: base,
        danger_focus_bg: yellow,
        danger_focus_fg: base,
        statusbar_bg: mantle,
        statusbar_fg: subtext,
        buttonbar_bg: mantle,
        buttonbar_fg: subtext,
        buttonbar_label_bg: blue,
        buttonbar_label_fg: base,
        search_bg: yellow,
        search_fg: base,
        op_status_bg: yellow,
        op_status_fg: base,
        diff_add_bg: ThemeColor::Rgb(0x26, 0x3a, 0x29),
        diff_add_fg: green,
        diff_del_bg: ThemeColor::Rgb(0x3f, 0x22, 0x2a),
        diff_del_fg: red,
        muted_fg: overlay,
    }
}

/// Tokyo Night: a cooler, deeper bluish dark theme.
pub open spec fn tokyo_night_palette() -> ColorScheme {
    let bg = ThemeColor::Rgb(0x1a, 0x1b, 0x26);
    let bg_dark = ThemeColor::Rgb(0x16, 0x16, 0x1e);
    let bg_hl = ThemeColor::Rgb(0x29, 0x2e, 0x42);
    let surface = ThemeColor::Rgb(0x24, 0x28, 0x3b);
    let muted = ThemeColor::Rgb(0x54, 0x5c, 0x7e);
    let fg = ThemeColor::Rgb(0xc0, 0xca, 0xf5);
    let fg_dim = ThemeColor::Rgb(0xa9, 0xb1, 0xd6);
    let blue = ThemeColor::Rgb(0x7a, 0xa2, 0xf7);
    let cyan = ThemeColor::Rgb(0x7d, 0xcf, 0xff);
    let teal = ThemeColor::Rgb(0x73, 0xda, 0xca);
    let green = ThemeColor::Rgb(0x9e, 0xce, 0x6a);
    let yellow = ThemeColor::Rgb(0xe0, 0xaf, 0x68);
    let orange = ThemeColor::Rgb(0xff, 0x9e, 0x64);
    let magenta = ThemeColor::Rgb(0xbb, 0x9a, 0xf7);
    let red = ThemeColor::Rgb(0xf7, 0x76, 0x8e);
    ColorScheme {
        panel_bg: bg,
        panel_fg: fg,
        panel_dim_fg: fg_dim,
        panel_border: bg_hl,
        panel_border_active: blue,
        panel_title_fg: fg_dim,
        panel_title_active_bg: blue,
        panel_title_active_fg: bg_dark,
        cursor_bg: blue,
        cursor_fg: bg_dark,
        marked_fg: yellow,
        file_dir: blue,
        file_symlink: cyan,
        file_executable: green,
        file_device: yellow,
        file_special: magenta,
        file_archive: red,
        file_image: magenta,
        file_media: magenta,
        file_doc: fg,
        file_source: teal,
        file_build: orange,
        dialog_bg: surface,
        dialog_fg: fg,
        dialog_border: blue,
        dialog_title_fg: blue,
        dialog_focus_bg: yellow,
        dialog_focus_fg: bg_dark,
        input_bg: bg_hl,
        input_fg: fg,
        danger_bg: red,
        danger_fg: bg_dark,
        danger_focus_bg: yellow,
        danger_focus_fg: bg_dark,
        statusbar_bg: bg_dark,
        statusbar_fg: fg_dim,
        buttonbar_bg: bg_dark,
        buttonbar_fg: fg_dim,
        buttonbar_label_bg: blue,
        buttonbar_label_fg: bg_dark,
        search_bg: yellow,
        search_fg: bg_dark,
        op_status_bg: yellow,
        op_status_fg: bg_dark,
        diff_add_bg: ThemeColor::Rgb(0x20, 0x32, 0x2a),
        diff_add_fg: green,
        diff_del_bg: ThemeColor::Rgb(0x37, 0x1f, 0x28),
        diff_del_fg: red,
        muted_fg: muted,
    }
}

/// Solarized Light: a high-luminance background for daytime use.
pub open spec fn solarized_light_palette() -> ColorScheme {
    let base3 = ThemeColor::Rgb(0xfd, 0xf6, 0xe3);
    let base2 = ThemeColor::Rgb(0xee, 0xe8, 0xd5);
    let base1 = ThemeColor::Rgb(0x93, 0xa1, 0xa1);
    let base00 = ThemeColor::Rgb(0x65, 0x7b, 0x83);
    let base02 = ThemeColor::Rgb(0x07, 0x36, 0x42);
    let base03 = ThemeColor::Rgb(0x00, 0x2b, 0x36);
    let yellow = ThemeColor::Rgb(0xb5, 0x89, 0x00);
    let orange = ThemeColor::Rgb(0xcb, 0x4b, 0x16);
    let red = ThemeColor::Rgb(0xdc, 0x32, 0x2f);
    let magenta = ThemeColor::Rgb(0xd3, 0x36, 0x82);
    let violet = ThemeColor::Rgb(0x6c, 0x71, 0xc4);
    let blue = ThemeColor::Rgb(0x26, 0x8b, 0xd2);
    let cyan = ThemeColor::Rgb(0x2a, 0xa1, 0x98);
    let green = ThemeColor::Rgb(0x85, 0x99, 0x00);
    ColorScheme {
        panel_bg: base3,
        panel_fg: base02,
        panel_dim_fg: base00,
        panel_border: base1,
        panel_border_active: blue,
        panel_title_fg: base00,
        panel_title_active_bg: blue,
        panel_title_active_fg: base3,
        cursor_bg: blue,
        cursor_fg: base3,
        marked_fg: orange,
        file_dir: blue,
        file_symlink: cyan,
        file_executable: green,
        file_device: yellow,
        file_special: violet,
        file_archive: red,
        file_image: magenta,
        file_media: magenta,
        file_doc: base02,
        file_source: cyan,
        file_build: orange,
        dialog_bg: base2,
        dialog_fg: base03,
        dialog_border: blue,
        dialog_title_fg: blue,
        dialog_focus_bg: yellow,
        dialog_focus_fg: base3,
        input_bg: base3,
        input_fg: base03,
        danger_bg: red,
        danger_fg: base3,
        danger_focus_bg: yellow,
        danger_focus_fg: base3,
        statusbar_bg: base2,
        statusbar_fg: base02,
        buttonbar_bg: base2,
        buttonbar_fg: base02,
        buttonbar_label_bg: blue,
        buttonbar_label_fg: base3,
        search_bg: yellow,
        search_fg: base3,
        op_status_bg: yellow,
        op_status_fg: base3,
        diff_add_bg: ThemeColor::Rgb(0xe6, 0xf0, 0xc8),
        diff_add_fg: green,
        diff_del_bg: ThemeColor::Rgb(0xf6, 0xd6, 0xd2),
        diff_del_fg: red,
        muted_fg: base1,
    }
}

/// The built-in theme a name selects: the name is trimmed and compared
/// without ASCII case.
pub open spec fn theme_by_name(name: Seq<char>) -> Option<ColorScheme> {
    let n = ascii_lower(trim_ws(name));
    if n == "modern-dark"@ || n == "modern_dark"@ || n == "default"@ {
        Some(modern_dark_palette())
    } else if n == "tokyo-night"@ || n == "tokyo_night"@ {
        Some(tokyo_night_palette())
    } else if n == "solarized-light"@ || n == "solarized_light"@ {
        Some(solarized_light_palette())
    } else {
        None
    }
}

impl ColorScheme {
    /// Look up a built-in theme by name (trimmed, any ASCII case).
    /// Recognised: `modern-dark`, `tokyo-night`, `solarized-light`, also
    /// with `_` for `-`, and `default`.
    pub fn from_named(name: &str) -> (r: Option<Self>)
        ensures
            r == theme_by_name(name@),
    {
        let v = chars_of(name);
        let t = trim_chars(v.as_slice());
        let ts = string_of(t.as_slice());
        let lower = ascii_lowercase(ts.as_str());
        let n = lower.as_str();
        if crate::text::str_eq(n, "modern-dark") || crate::text::str_eq(n, "modern_dark") || crate::text::str_eq(n, "default") {
            Some(Self::modern_dark())
        } else if crate::text::str_eq(n, "tokyo-night") || crate::text::str_eq(n, "tokyo_night") {
            Some(Self::tokyo_night())
        } else if crate::text::str_eq(n, "solarized-light") || crate::text::str_eq(n, "solarized_light") {
            Some(Self::solarized_light())
        } else {
            None
        }
    }

    /// Built-in themes as `(name, display_label)` pairs. Every name selects
    /// a theme through [`Self::from_named`].
    pub fn available_themes() -> (r: Vec<(&'static str, &'static str)>)
        ensures
            r@.len() == 3,
            r@[0].0@ == "modern-dark"@ && r@[0].1@ == "Modern Dark"@,
            r@[1].0@ == "tokyo-night"@ && r@[1].1@ == "Tokyo Night"@,
            r@[2].0@ == "solarized-light"@ && r@[2].1@ == "Solarized Light"@,
            forall|i: int| 0 <= i < r@.len() ==> theme_by_name(#[trigger] r@[i].0@) is Some,
    {
        let mut r: Vec<(&'static str, &'static str)> = Vec::new();
        r.push(("modern-dark", "Modern Dark"));
        r.push(("tokyo-night", "Tokyo Night"));
        r.push(("solarized-light", "Solarized Light"));
        proof {
            reveal_strlit("modern-dark");
            reveal_strlit("tokyo-night");
            reveal_strlit("solarized-light");
            lemma_trim_plain("modern-dark"@);
            lemma_trim_plain("tokyo-night"@);
            lemma_trim_plain("solarized-light"@);
            assert(ascii_lower("modern-dark"@) =~= "modern-dark"@);
            assert(ascii_lower("tokyo-night"@) =~= "tokyo-night"@);
            assert(ascii_lower("solarized-light"@) =~= "solarized-light"@);
        }
        r
    }

    /// Default theme: Catppuccin-Mocha inspired dark palette tuned for
    /// WCAG-AA contrast on every text-bearing pair.
    pub fn modern_dark() -> (s: Self)
        ensures
            s == modern_dark_palette(),
    {
        let base = ThemeColor::rgb(0x1e, 0x1e, 0x2e);
        let mantle = ThemeColor::rgb(0x18, 0x18, 0x25);
        let surface0 = ThemeColor::rgb(0x31, 0x32, 0x44);
        let surface1 = ThemeColor::rgb(0x45, 0x47, 0x5a);
        let surface2 = ThemeColor::rgb(0x58, 0x5b, 0x70);
        // muted text, readable on the dialog background (about 5.6:1)
        let overlay = ThemeColor::rgb(0xa6, 0xad, 0xc8);
        let text = ThemeColor::rgb(0xcd, 0xd6, 0xf4);
        let subtext = ThemeColor::rgb(0xba, 0xc2, 0xde);
        let blue = ThemeColor::rgb(0x89, 0xb4, 0xfa);
        let teal = ThemeColor::rgb(0x94, 0xe2, 0xd5);
        let green = ThemeColor::rgb(0xa6, 0xe3, 0xa1);
        let yellow = ThemeColor::rgb(0xf9, 0xe2, 0xaf);
        let peach = ThemeColor::rgb(0xfa, 0xb3, 0x87);
        let mauve = ThemeColor::rgb(0xcb, 0xa6, 0xf7);
        let pink = ThemeColor::rgb(0xf5, 0xc2, 0xe7);
        let red = ThemeColor::rgb(0xf3, 0x8b, 0xa8);
        ColorScheme {
            panel_bg: base,
            panel_fg: text,
            panel_dim_fg: subtext,
            panel_border: surface1,
            panel_border_active: blue,
            panel_title_fg: subtext,
            panel_title_active_bg: blue,
            panel_title_active_fg: base,
            cursor_bg: blue,
            cursor_fg: base,
            marked_fg: yellow,
            file_dir: blue,
            file_symlink: teal,
            file_executable: green,
            file_device: yellow,
            file_special: mauve,
            file_archive: red,
            file_image: mauve,
            file_media: pink,
            file_doc: text,
            file_source: teal,
            file_build: peach,
            dialog_bg: surface0,
            dialog_fg: text,
            dialog_border: blue,
            dialog_title_fg: blue,
            dialog_focus_bg: yellow,
            dialog_focus_fg: base,
            input_bg: surface2,
            input_fg: text,
            danger_bg: red,
            danger_fg: base,
            danger_focus_bg: yellow,
            danger_focus_fg: base,
            statusbar_bg: mantle,
            statusbar_fg: subtext,
            buttonbar_bg: mantle,
            buttonbar_fg: subtext,
            buttonbar_label_bg: blue,
            buttonbar_label_fg: base,
            search_bg: yellow,
            search_fg: base,
            op_status_bg: yellow,
            op_status_fg: base,
            diff_add_bg: ThemeColor::rgb(0x26, 0x3a, 0x29),
            diff_add_fg: green,
            diff_del_bg: ThemeColor::rgb(0x3f, 0x22, 0x2a),
            diff_del_fg: red,
            muted_fg: overlay,
        }
    }

    /// Tokyo Night: cooler, deeper bluish dark theme.
    pub fn tokyo_night() -> (s: Self)
        ensures
            s == tokyo_night_palette(),
    {
        let bg = ThemeColor::rgb(0x1a, 0x1b, 0x26);
        let bg_dark = ThemeColor::rgb(0x16, 0x16, 0x1e);
        let bg_hl = ThemeColor::rgb(0x29, 0x2e, 0x42);
        let surface = ThemeColor::rgb(0x24, 0x28, 0x3b);
        let muted = ThemeColor::rgb(0x54, 0x5c, 0x7e);
        let fg = ThemeColor::rgb(0xc0, 0xca, 0xf5);
        let fg_dim = ThemeColor::rgb(0xa9, 0xb1, 0xd6);
        let blue = ThemeColor::rgb(0x7a, 0xa2, 0xf7);
        let cyan = ThemeColor::rgb(0x7d, 0xcf, 0xff);
        let teal = ThemeColor::rgb(0x73, 0xda, 0xca);
        let green = ThemeColor::rgb(0x9e, 0xce, 0x6a);
        let yellow = ThemeColor::rgb(0xe0, 0xaf, 0x68);
        let orange = ThemeColor::rgb(0xff, 0x9e, 0x64);
        let magenta = ThemeColor::rgb(0xbb, 0x9a, 0xf7);
        let red = ThemeColor::rgb(0xf7, 0x76, 0x8e);
        ColorScheme {
            panel_bg: bg,
            panel_fg: fg,
            panel_dim_fg: fg_dim,
            panel_border: bg_hl,
            panel_border_active: blue,
            panel_title_fg: fg_dim,
            panel_title_active_bg: blue,
            panel_title_active_fg: bg_dark,
            cursor_bg: blue,
            cursor_fg: bg_dark,
            marked_fg: yellow,
            file_dir: blue,
            file_symlink: cyan,
            file_executable: green,
            file_device: yellow,
            file_special: magenta,
            file_archive: red,
            file_image: magenta,
            file_media: magenta,
            file_doc: fg,
            file_source: teal,
            file_build: orange,
            dialog_bg: surface,
            dialog_fg: fg,
            dialog_border: blue,
            dialog_title_fg: blue,
            dialog_focus_bg: yellow,
            dialog_focus_fg: bg_dark,
            input_bg: bg_hl,
            input_fg: fg,
            danger_bg: red,
            danger_fg: bg_dark,
            danger_focus_bg: yellow,
            danger_focus_fg: bg_dark,
            statusbar_bg: bg_dark,
            statusbar_fg: fg_dim,
            buttonbar_bg: bg_dark,
            buttonbar_fg: fg_dim,
            buttonbar_label_bg: blue,
            buttonbar_label_fg: bg_dark,
            search_bg: yellow,
            search_fg: bg_dark,
            op_status_bg: yellow,
            op_status_fg: bg_dark,
            diff_add_bg: ThemeColor::rgb(0x20, 0x32, 0x2a),
            diff_add_fg: green,
            diff_del_bg: ThemeColor::rgb(0x37, 0x1f, 0x28),
            diff_del_fg: red,
            muted_fg: muted,
        }
    }

    /// Solarized Light: high-luminance background for daytime use.
    pub fn solarized_light() -> (s: Self)
        ensures
            s == solarized_light_palette(),
    {
        let base3 = ThemeColor::rgb(0xfd, 0xf6, 0xe3);
        let base2 = ThemeColor::rgb(0xee, 0xe8, 0xd5);
        let base1 = ThemeColor::rgb(0x93, 0xa1, 0xa1);
        let base00 = ThemeColor::rgb(0x65, 0x7b, 0x83);
        let base02 = ThemeColor::rgb(0x07, 0x36, 0x42);
        let base03 = ThemeColor::rgb(0x00, 0x2b, 0x36);
        let yellow = ThemeColor::rgb(0xb5, 0x89, 0x00);
        let orange = ThemeColor::rgb(0xcb, 0x4b, 0x16);
        let red = ThemeColor::rgb(0xdc, 0x32, 0x2f);
        let magenta = ThemeColor::rgb(0xd3, 0x36, 0x82);
        let violet = ThemeColor::rgb(0x6c, 0x71, 0xc4);
        let blue = ThemeColor::rgb(0x26, 0x8b, 0xd2);
        let cyan = ThemeColor::rgb(0x2a, 0xa1, 0x98);
        let green = ThemeColor::rgb(0x85, 0x99, 0x00);
        ColorScheme {
            panel_bg: base3,
            panel_fg: base02,
            panel_dim_fg: base00,
            panel_border: base1,
            panel_border_active: blue,
            panel_title_fg: base00,
            panel_title_active_bg: blue,
            panel_title_active_fg: base3,
            cursor_bg: blue,
            cursor_fg: base3,
            marked_fg: orange,
            file_dir: blue,
            file_symlink: cyan,
            file_executable: green,
            file_device: yellow,
            file_special: violet,
            file_archive: red,
            file_image: magenta,
            file_media: magenta,
            file_doc: base02,
            file_source: cyan,
            file_build: orange,
            dialog_bg: base2,
            dialog_fg: base03,
            dialog_border: blue,
            dialog_title_fg: blue,
            dialog_focus_bg: yellow,
            dialog_focus_fg: base3,
            input_bg: base3,
            input_fg: base03,
            danger_bg: red,
            danger_fg: base3,
            danger_focus_bg: yellow,
            danger_focus_fg: base3,
            statusbar_bg: base2,
            statusbar_fg: base02,
            buttonbar_bg: base2,
            buttonbar_fg: base02,
            buttonbar_label_bg: blue,
            buttonbar_label_fg: base3,
            search_bg: yellow,
            search_fg: base3,
            op_status_bg: yellow,
            op_status_fg: base3,
            diff_add_bg: ThemeColor::rgb(0xe6, 0xf0, 0xc8),
            diff_add_fg: green,
            diff_del_bg: ThemeColor::rgb(0xf6, 0xd6, 0xd2),
            diff_del_fg: red,
            muted_fg: base1,
        }
    }

}

/// A name without surrounding whitespace is its own trim.
proof fn lemma_trim_plain(s: Seq<char>)
    requires
        s.len() > 0,
        !crate::text::is_whitespace(s[0]),
        !crate::text::is_whitespace(s.last()),
    ensures
        trim_ws(s) == s,
{
    assert(s.skip(0) == s);
    assert(s.take(s.len() as int) == s);
}

} // verus!

verus! {

proof fn lemma_first_index_absent(names: Seq<Seq<char>>, key: Seq<char>)
    ensures
        first_index(names, key) < 0 ==> !names.contains(key),
    decreases names.len(),
{
    if names.len() > 0 && names[0] != key {
        lemma_first_index_absent(names.skip(1), key);
        if first_index(names, key) < 0 && names.contains(key) {
            let i = choose|i: int| 0 <= i < names.len() && names[i] == key;
            assert(names.skip(1)[i - 1] == key);
        }
    }
}

/// Applying `key = value`: it succeeds exactly when the value is a colour
/// and the key names a field, and then sets that field alone to the colour;
/// otherwise the scheme stays and the message names the key.
pub proof fn lemma_apply_override_law(colors: Seq<ThemeColor>, key: Seq<char>, value: Seq<char>)
    ensures
        apply_override_spec(colors, key, value) is Ok <==> (parse_color_spec(value) is Ok && color_field_names().contains(key)),
        apply_override_spec(colors, key, value) matches Ok(n) ==> {
            let i = first_index(color_field_names(), key);
            &&& 0 <= i < color_field_names().len()
            &&& color_field_names()[i] == key
            &&& n == colors.update(i, parse_color_spec(value)->Ok_0)
        },
        apply_override_spec(colors, key, value) matches Err(m) ==> crate::commander::has_infix(m, key),
{
    let names = color_field_names();
    lemma_first_index_bound(names, key);
    lemma_first_index_absent(names, key);
    let i = first_index(names, key);
    if i >= 0 {
        assert(names.contains(key));
    }
    match apply_override_spec(colors, key, value) {
        Err(m) => {
            reveal_strlit("unknown color field '");
            match parse_color_spec(value) {
                Err(pm) => {
                    assert(m.subrange(0, 0 + key.len() as int) =~= key);
                },
                Ok(_) => {
                    let p = "unknown color field '"@;
                    assert(m.subrange(p.len() as int, p.len() + key.len() as int) =~= key);
                },
            }
        },
        Ok(_) => {},
    }
}

} // verus!
