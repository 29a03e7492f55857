//! Per-entry icon glyphs (Nerd Font).
//!
//! Lookup precedence: explicit filename, then extension (case-insensitive),
//! then the entry-kind fallback. All glyphs are single Unicode scalars in
//! the Nerd Font Private Use Area.

use vstd::prelude::*;

use crate::entry::EntryKind;
use crate::text::{ascii_lower, ascii_lowercase, chars_of, rfind, rfind_char, str_eq, string_of};

verus! {

/// The glyph for an entry kind.
pub open spec fn kind_icon(kind: EntryKind) -> Seq<char> {
    match kind {
        EntryKind::Dir => "\u{f07b}"@,
        EntryKind::Symlink => "\u{f0c1}"@,
        EntryKind::Fifo => "\u{f0e7}"@,
        EntryKind::Socket => "\u{f6a7}"@,
        EntryKind::BlockDevice => "\u{f0a0}"@,
        EntryKind::CharDevice => "\u{f108}"@,
        EntryKind::File => "\u{f15b}"@,
        EntryKind::Other => "\u{f15b}"@,
    }
}

/// The glyph for a well-known file name.
pub open spec fn exact_name_icon(name: Seq<char>) -> Option<Seq<char>> {
    if name == ".gitignore"@ || name == ".gitattributes"@ || name == ".gitmodules"@ {
        Some("\u{e702}"@)
    } else if name == "Cargo.toml"@ || name == "Cargo.lock"@ {
        Some("\u{e7a8}"@)
    } else if name == "Dockerfile"@ || name == ".dockerignore"@ {
        Some("\u{f308}"@)
    } else if name == "Makefile"@ || name == "makefile"@ || name == "GNUmakefile"@ {
        Some("\u{e779}"@)
    } else if name == "package.json"@ || name == "package-lock.json"@ || name == "yarn.lock"@ || name == "pnpm-lock.yaml"@ {
        Some("\u{e718}"@)
    } else if name == "README.md"@ || name == "README"@ || name == "README.txt"@ || name == "README.rst"@ {
        Some("\u{f02d}"@)
    } else if name == "LICENSE"@ || name == "LICENSE.md"@ || name == "LICENSE.txt"@ || name == "COPYING"@ {
        Some("\u{f02d}"@)
    } else if name == ".bashrc"@ || name == ".bash_profile"@ || name == ".zshrc"@ || name == ".profile"@ {
        Some("\u{f489}"@)
    } else {
        None
    }
}

/// The glyph for a lower-case extension.
pub open spec fn extension_icon(ext: Seq<char>) -> Option<Seq<char>> {
    if ext == "rs"@ {
        Some("\u{e7a8}"@)
    } else if ext == "go"@ {
        Some("\u{e626}"@)
    } else if ext == "c"@ || ext == "h"@ {
        Some("\u{e61e}"@)
    } else if ext == "cpp"@ || ext == "cc"@ || ext == "cxx"@ || ext == "hpp"@ || ext == "hxx"@ {
        Some("\u{e61d}"@)
    } else if ext == "py"@ || ext == "pyw"@ || ext == "pyc"@ {
        Some("\u{e606}"@)
    } else if ext == "rb"@ {
        Some("\u{e791}"@)
    } else if ext == "java"@ {
        Some("\u{e738}"@)
    } else if ext == "kt"@ || ext == "kts"@ {
        Some("\u{e634}"@)
    } else if ext == "swift"@ {
        Some("\u{e755}"@)
    } else if ext == "scala"@ || ext == "sc"@ {
        Some("\u{e737}"@)
    } else if ext == "lua"@ {
        Some("\u{e620}"@)
    } else if ext == "zig"@ {
        Some("\u{e6a9}"@)
    } else if ext == "js"@ || ext == "mjs"@ || ext == "cjs"@ {
        Some("\u{e74e}"@)
    } else if ext == "jsx"@ {
        Some("\u{e7ba}"@)
    } else if ext == "ts"@ {
        Some("\u{e628}"@)
    } else if ext == "tsx"@ {
        Some("\u{e7ba}"@)
    } else if ext == "html"@ || ext == "htm"@ {
        Some("\u{e736}"@)
    } else if ext == "css"@ {
        Some("\u{e749}"@)
    } else if ext == "scss"@ || ext == "sass"@ {
        Some("\u{e74b}"@)
    } else if ext == "json"@ {
        Some("\u{e60b}"@)
    } else if ext == "vue"@ {
        Some("\u{e6a0}"@)
    } else if ext == "svelte"@ {
        Some("\u{e697}"@)
    } else if ext == "sh"@ || ext == "bash"@ || ext == "zsh"@ || ext == "fish"@ {
        Some("\u{f489}"@)
    } else if ext == "ps1"@ {
        Some("\u{f489}"@)
    } else if ext == "toml"@ {
        Some("\u{e615}"@)
    } else if ext == "yaml"@ || ext == "yml"@ {
        Some("\u{e6a8}"@)
    } else if ext == "ini"@ || ext == "cfg"@ || ext == "conf"@ {
        Some("\u{e615}"@)
    } else if ext == "lock"@ {
        Some("\u{f023}"@)
    } else if ext == "md"@ || ext == "markdown"@ {
        Some("\u{e73e}"@)
    } else if ext == "rst"@ {
        Some("\u{f15c}"@)
    } else if ext == "txt"@ || ext == "log"@ {
        Some("\u{f15c}"@)
    } else if ext == "pdf"@ {
        Some("\u{f1c1}"@)
    } else if ext == "doc"@ || ext == "docx"@ || ext == "odt"@ || ext == "rtf"@ {
        Some("\u{f1c2}"@)
    } else if ext == "xls"@ || ext == "xlsx"@ || ext == "ods"@ || ext == "csv"@ || ext == "tsv"@ {
        Some("\u{f1c3}"@)
    } else if ext == "ppt"@ || ext == "pptx"@ || ext == "odp"@ {
        Some("\u{f1c4}"@)
    } else if ext == "png"@ || ext == "jpg"@ || ext == "jpeg"@ || ext == "gif"@ || ext == "webp"@ || ext == "bmp"@ || ext == "ico"@ || ext == "tif"@ || ext == "tiff"@ {
        Some("\u{f1c5}"@)
    } else if ext == "svg"@ {
        Some("\u{e60a}"@)
    } else if ext == "mp3"@ || ext == "ogg"@ || ext == "flac"@ || ext == "wav"@ || ext == "m4a"@ || ext == "opus"@ {
        Some("\u{f1c7}"@)
    } else if ext == "mp4"@ || ext == "mkv"@ || ext == "webm"@ || ext == "mov"@ || ext == "avi"@ || ext == "mpg"@ || ext == "mpeg"@ {
        Some("\u{f1c8}"@)
    } else if ext == "zip"@ || ext == "tar"@ || ext == "gz"@ || ext == "tgz"@ || ext == "bz2"@ || ext == "tbz"@ || ext == "tbz2"@ || ext == "xz"@ || ext == "txz"@ || ext == "7z"@ || ext == "rar"@ || ext == "zst"@ || ext == "tzst"@ || ext == "lz"@ || ext == "lzma"@ || ext == "cpio"@ {
        Some("\u{f1c6}"@)
    } else if ext == "exe"@ || ext == "dll"@ || ext == "so"@ || ext == "dylib"@ || ext == "a"@ || ext == "o"@ {
        Some("\u{f471}"@)
    } else {
        None
    }
}

/// The glyph a panel shows for an entry named `name` of kind `kind`.
pub open spec fn name_icon(name: Seq<char>, kind: EntryKind) -> Seq<char> {
    if kind != EntryKind::File {
        kind_icon(kind)
    } else if exact_name_icon(name) is Some {
        exact_name_icon(name).unwrap()
    } else if rfind(name, '.') >= 0 && extension_icon(ascii_lower(name.skip(rfind(name, '.') + 1))) is Some {
        extension_icon(ascii_lower(name.skip(rfind(name, '.') + 1))).unwrap()
    } else {
        kind_icon(kind)
    }
}


/// A single Unicode scalar of the Private Use Area (U+E000 to U+F8FF).
pub open spec fn private_glyph(g: Seq<char>) -> bool {
    g.len() == 1 && '\u{e000}' <= g[0] <= '\u{f8ff}'
}

/// Every glyph an entry can get, by its kind, its name or its extension,
/// is a single scalar of the Private Use Area.
pub proof fn lemma_glyphs_private(name: Seq<char>, ext: Seq<char>, kind: EntryKind)
    ensures
        private_glyph(kind_icon(kind)),
        exact_name_icon(name) matches Some(g) ==> private_glyph(g),
        extension_icon(ext) matches Some(g) ==> private_glyph(g),
        private_glyph(name_icon(name, kind)),
{
    reveal_strlit("\u{e606}");
    reveal_strlit("\u{e60a}");
    reveal_strlit("\u{e60b}");
    reveal_strlit("\u{e615}");
    reveal_strlit("\u{e61d}");
    reveal_strlit("\u{e61e}");
    reveal_strlit("\u{e620}");
    reveal_strlit("\u{e626}");
    reveal_strlit("\u{e628}");
    reveal_strlit("\u{e634}");
    reveal_strlit("\u{e697}");
    reveal_strlit("\u{e6a0}");
    reveal_strlit("\u{e6a8}");
    reveal_strlit("\u{e6a9}");
    reveal_strlit("\u{e702}");
    reveal_strlit("\u{e718}");
    reveal_strlit("\u{e736}");
    reveal_strlit("\u{e737}");
    reveal_strlit("\u{e738}");
    reveal_strlit("\u{e73e}");
    reveal_strlit("\u{e749}");
    reveal_strlit("\u{e74b}");
    reveal_strlit("\u{e74e}");
    reveal_strlit("\u{e755}");
    reveal_strlit("\u{e779}");
    reveal_strlit("\u{e791}");
    reveal_strlit("\u{e7a8}");
    reveal_strlit("\u{e7ba}");
    reveal_strlit("\u{f023}");
    reveal_strlit("\u{f02d}");
    reveal_strlit("\u{f07b}");
    reveal_strlit("\u{f0a0}");
    reveal_strlit("\u{f0c1}");
    reveal_strlit("\u{f0e7}");
    reveal_strlit("\u{f108}");
    reveal_strlit("\u{f15b}");
    reveal_strlit("\u{f15c}");
    reveal_strlit("\u{f1c1}");
    reveal_strlit("\u{f1c2}");
    reveal_strlit("\u{f1c3}");
    reveal_strlit("\u{f1c4}");
    reveal_strlit("\u{f1c5}");
    reveal_strlit("\u{f1c6}");
    reveal_strlit("\u{f1c7}");
    reveal_strlit("\u{f1c8}");
    reveal_strlit("\u{f308}");
    reveal_strlit("\u{f471}");
    reveal_strlit("\u{f489}");
    reveal_strlit("\u{f6a7}");
}

/// Glyph for a non-file entry kind.
pub fn icon_for_kind(kind: EntryKind) -> (r: &'static str)
    ensures
        r@ == kind_icon(kind),
{
    match kind {
        EntryKind::Dir => "\u{f07b}",
        EntryKind::Symlink => "\u{f0c1}",
        EntryKind::Fifo => "\u{f0e7}",
        EntryKind::Socket => "\u{f6a7}",
        EntryKind::BlockDevice => "\u{f0a0}",
        EntryKind::CharDevice => "\u{f108}",
        EntryKind::File => "\u{f15b}",
        EntryKind::Other => "\u{f15b}",
    }
}

/// Glyph for an exact file name, if it has one.
pub fn exact_name(name: &str) -> (r: Option<&'static str>)
    ensures
        match r {
            Some(g) => exact_name_icon(name@) == Some(g@),
            None => exact_name_icon(name@) is None,
        },
{
    if str_eq(name, ".gitignore") || str_eq(name, ".gitattributes") || str_eq(name, ".gitmodules") {
        Some("\u{e702}")
    } else if str_eq(name, "Cargo.toml") || str_eq(name, "Cargo.lock") {
        Some("\u{e7a8}")
    } else if str_eq(name, "Dockerfile") || str_eq(name, ".dockerignore") {
        Some("\u{f308}")
    } else if str_eq(name, "Makefile") || str_eq(name, "makefile") || str_eq(name, "GNUmakefile") {
        Some("\u{e779}")
    } else if str_eq(name, "package.json") || str_eq(name, "package-lock.json") || str_eq(name, "yarn.lock") || str_eq(name, "pnpm-lock.yaml") {
        Some("\u{e718}")
    } else if str_eq(name, "README.md") || str_eq(name, "README") || str_eq(name, "README.txt") || str_eq(name, "README.rst") {
        Some("\u{f02d}")
    } else if str_eq(name, "LICENSE") || str_eq(name, "LICENSE.md") || str_eq(name, "LICENSE.txt") || str_eq(name, "COPYING") {
        Some("\u{f02d}")
    } else if str_eq(name, ".bashrc") || str_eq(name, ".bash_profile") || str_eq(name, ".zshrc") || str_eq(name, ".profile") {
        Some("\u{f489}")
    } else {
        None
    }
}

/// Glyph for a lower-case extension, if it has one.
pub fn by_extension(ext: &str) -> (r: Option<&'static str>)
    ensures
        match r {
            Some(g) => extension_icon(ext@) == Some(g@),
            None => extension_icon(ext@) is None,
        },
{
    if str_eq(ext, "rs") {
        Some("\u{e7a8}")
    } else if str_eq(ext, "go") {
        Some("\u{e626}")
    } else if str_eq(ext, "c") || str_eq(ext, "h") {
        Some("\u{e61e}")
    } else if str_eq(ext, "cpp") || str_eq(ext, "cc") || str_eq(ext, "cxx") || str_eq(ext, "hpp") || str_eq(ext, "hxx") {
        Some("\u{e61d}")
    } else if str_eq(ext, "py") || str_eq(ext, "pyw") || str_eq(ext, "pyc") {
        Some("\u{e606}")
    } else if str_eq(ext, "rb") {
        Some("\u{e791}")
    } else if str_eq(ext, "java") {
        Some("\u{e738}")
    } else if str_eq(ext, "kt") || str_eq(ext, "kts") {
        Some("\u{e634}")
    } else if str_eq(ext, "swift") {
        Some("\u{e755}")
    } else if str_eq(ext, "scala") || str_eq(ext, "sc") {
        Some("\u{e737}")
    } else if str_eq(ext, "lua") {
        Some("\u{e620}")
    } else if str_eq(ext, "zig") {
        Some("\u{e6a9}")
    } else if str_eq(ext, "js") || str_eq(ext, "mjs") || str_eq(ext, "cjs") {
        Some("\u{e74e}")
    } else if str_eq(ext, "jsx") {
        Some("\u{e7ba}")
    } else if str_eq(ext, "ts") {
        Some("\u{e628}")
    } else if str_eq(ext, "tsx") {
        Some("\u{e7ba}")
    } else if str_eq(ext, "html") || str_eq(ext, "htm") {
        Some("\u{e736}")
    } else if str_eq(ext, "css") {
        Some("\u{e749}")
    } else if str_eq(ext, "scss") || str_eq(ext, "sass") {
        Some("\u{e74b}")
    } else if str_eq(ext, "json") {
        Some("\u{e60b}")
    } else if str_eq(ext, "vue") {
        Some("\u{e6a0}")
    } else if str_eq(ext, "svelte") {
        Some("\u{e697}")
    } else if str_eq(ext, "sh") || str_eq(ext, "bash") || str_eq(ext, "zsh") || str_eq(ext, "fish") {
        Some("\u{f489}")
    } else if str_eq(ext, "ps1") {
        Some("\u{f489}")
    } else if str_eq(ext, "toml") {
        Some("\u{e615}")
    } else if str_eq(ext, "yaml") || str_eq(ext, "yml") {
        Some("\u{e6a8}")
    } else if str_eq(ext, "ini") || str_eq(ext, "cfg") || str_eq(ext, "conf") {
        Some("\u{e615}")
    } else if str_eq(ext, "lock") {
        Some("\u{f023}")
    } else if str_eq(ext, "md") || str_eq(ext, "markdown") {
        Some("\u{e73e}")
    } else if str_eq(ext, "rst") {
        Some("\u{f15c}")
    } else if str_eq(ext, "txt") || str_eq(ext, "log") {
        Some("\u{f15c}")
    } else if str_eq(ext, "pdf") {
        Some("\u{f1c1}")
    } else if str_eq(ext, "doc") || str_eq(ext, "docx") || str_eq(ext, "odt") || str_eq(ext, "rtf") {
        Some("\u{f1c2}")
    } else if str_eq(ext, "xls") || str_eq(ext, "xlsx") || str_eq(ext, "ods") || str_eq(ext, "csv") || str_eq(ext, "tsv") {
        Some("\u{f1c3}")
    } else if str_eq(ext, "ppt") || str_eq(ext, "pptx") || str_eq(ext, "odp") {
        Some("\u{f1c4}")
    } else if str_eq(ext, "png") || str_eq(ext, "jpg") || str_eq(ext, "jpeg") || str_eq(ext, "gif") || str_eq(ext, "webp") || str_eq(ext, "bmp") || str_eq(ext, "ico") || str_eq(ext, "tif") || str_eq(ext, "tiff") {
        Some("\u{f1c5}")
    } else if str_eq(ext, "svg") {
        Some("\u{e60a}")
    } else if str_eq(ext, "mp3") || str_eq(ext, "ogg") || str_eq(ext, "flac") || str_eq(ext, "wav") || str_eq(ext, "m4a") || str_eq(ext, "opus") {
        Some("\u{f1c7}")
    } else if str_eq(ext, "mp4") || str_eq(ext, "mkv") || str_eq(ext, "webm") || str_eq(ext, "mov") || str_eq(ext, "avi") || str_eq(ext, "mpg") || str_eq(ext, "mpeg") {
        Some("\u{f1c8}")
    } else if str_eq(ext, "zip") || str_eq(ext, "tar") || str_eq(ext, "gz") || str_eq(ext, "tgz") || str_eq(ext, "bz2") || str_eq(ext, "tbz") || str_eq(ext, "tbz2") || str_eq(ext, "xz") || str_eq(ext, "txz") || str_eq(ext, "7z") || str_eq(ext, "rar") || str_eq(ext, "zst") || str_eq(ext, "tzst") || str_eq(ext, "lz") || str_eq(ext, "lzma") || str_eq(ext, "cpio") {
        Some("\u{f1c6}")
    } else if str_eq(ext, "exe") || str_eq(ext, "dll") || str_eq(ext, "so") || str_eq(ext, "dylib") || str_eq(ext, "a") || str_eq(ext, "o") {
        Some("\u{f471}")
    } else {
        None
    }
}

/// Icon for an entry name. `kind_fallback` is used when no name or extension rule matches.
pub fn icon_for_name(name: &str, kind_fallback: EntryKind) -> (r: &'static str)
    ensures
        r@ == name_icon(name@, kind_fallback),
{
    if kind_fallback != EntryKind::File {
        return icon_for_kind(kind_fallback);
    }
    if let Some(g) = exact_name(name) {
        return g;
    }
    let v = chars_of(name);
    proof {
        crate::text::lemma_rfind(name@, '.');
    }
    let len = v.len();
    if let Some(i) = rfind_char(v.as_slice(), '.') {
        let tail = crate::key::slice_from(v.as_slice(), i + 1);
        let tail_s = string_of(tail.as_slice());
        let ext = ascii_lowercase(tail_s.as_str());
        if let Some(g) = by_extension(ext.as_str()) {
            return g;
        }
    }
    icon_for_kind(kind_fallback)
}

} // verus!
