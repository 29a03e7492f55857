//! Dropping to a shell with the working directory kept in sync: which
//! shell it is, the hook each shell runs on exit, and quoting for it.

use vstd::prelude::*;

use crate::archive::file_name_spec;
use crate::text::{append_str, chars_of, push_char, string_of};

verus! {

/// The shells whose exit hook is known.
#[derive(Debug, Clone, Copy, PartialEq, Eq, Structural)]
pub enum ShellKind {
    Bash,
    Zsh,
    Fish,
    Sh,
}

/// The shell a program path names, by its file name.
pub open spec fn shell_kind_spec(path: Seq<char>) -> ShellKind {
    let leaf = match file_name_spec(path) {
        Some(n) => n,
        None => path,
    };
    if leaf == "bash"@ {
        ShellKind::Bash
    } else if leaf == "zsh"@ {
        ShellKind::Zsh
    } else if leaf == "fish"@ {
        ShellKind::Fish
    } else {
        ShellKind::Sh
    }
}

impl ShellKind {
    /// The shell a program path names (`/usr/bin/zsh` is zsh); unknown
    /// shells are treated as `sh`.
    pub fn from_path(path: &str) -> (r: Self)
        ensures
            r == shell_kind_spec(path@),
    {
        let leaf = match crate::archive::file_name(path) {
            Some(n) => n,
            None => String::from_str(path),
        };
        let l = leaf.as_str();
        if crate::text::str_eq(l, "bash") {
            ShellKind::Bash
        } else if crate::text::str_eq(l, "zsh") {
            ShellKind::Zsh
        } else if crate::text::str_eq(l, "fish") {
            ShellKind::Fish
        } else {
            ShellKind::Sh
        }
    }
}

/// A character that needs no quoting.
pub open spec fn shell_safe(c: char) -> bool {
    ('0' <= c && c <= '9') || ('a' <= c && c <= 'z') || ('A' <= c && c <= 'Z') || c == '_' || c == '-' || c == '.' || c == '/'
}

/// The text inside single quotes: each `'` becomes `'\''`.
pub open spec fn quote_body(s: Seq<char>) -> Seq<char>
    decreases s.len(),
{
    if s.len() == 0 {
        Seq::empty()
    } else {
        (if s[0] == '\'' { seq!['\'', '\\', '\'', '\''] } else { seq![s[0]] }) + quote_body(s.skip(1))
    }
}

/// How a text is quoted for a POSIX shell: kept when every character is
/// safe, otherwise put in single quotes.
pub open spec fn shell_quote_spec(s: Seq<char>) -> Seq<char> {
    if forall|i: int| 0 <= i < s.len() ==> shell_safe(#[trigger] s[i]) {
        s
    } else {
        seq!['\''] + quote_body(s) + seq!['\'']
    }
}

/// Quotes a text for a POSIX shell command line.
pub fn shell_quote(s: &str) -> (r: String)
    ensures
        r@ == shell_quote_spec(s@),
{
    let v = chars_of(s);
    let mut i: usize = 0;
    let mut safe = true;
    while i < v.len()
        invariant
            i <= v@.len(),
            v@ == s@,
            safe == forall|q: int| 0 <= q < i ==> shell_safe(#[trigger] v@[q]),
        decreases v@.len() - i,
    {
        let c = v[i];
        let ok = ('0' <= c && c <= '9') || ('a' <= c && c <= 'z') || ('A' <= c && c <= 'Z') || c == '_' || c == '-' || c == '.' || c == '/';
        if !ok {
            safe = false;
        }
        i = i + 1;
    }
    if safe {
        return String::from_str(s);
    }
    let mut out = String::new();
    push_char(&mut out, '\'');
    let mut k: usize = v.len();
    let ghost whole = v@;
    let mut body = String::new();
    while k > 0
        invariant
            k <= v@.len(),
            v@ == whole,
            body@ == quote_body(whole.skip(k as int)),
        decreases k,
    {
        let c = v[k - 1];
        let ghost rest = whole.skip(k as int);
        assert(whole.skip(k - 1).skip(1) =~= rest);
        assert(whole.skip(k - 1)[0] == c);
        let mut piece = String::new();
        if c == '\'' {
            push_char(&mut piece, '\'');
            push_char(&mut piece, '\\');
            push_char(&mut piece, '\'');
            push_char(&mut piece, '\'');
            assert(piece@ =~= seq!['\'', '\\', '\'', '\'']);
        } else {
            push_char(&mut piece, c);
            assert(piece@ =~= seq![c]);
        }
        append_str(&mut piece, body.as_str());
        body = piece;
        k = k - 1;
    }
    assert(whole.skip(0) =~= whole);
    append_str(&mut out, body.as_str());
    push_char(&mut out, '\'');
    assert(out@ =~= seq!['\''] + quote_body(s@) + seq!['\'']);
    out
}

/// How a POSIX shell reads a word made of plain characters, backslash
/// escapes and single-quoted runs; `quoted` says whether a single-quoted
/// run is open.
pub open spec fn shell_word(q: Seq<char>, quoted: bool) -> Seq<char>
    decreases q.len(),
{
    if q.len() == 0 {
        Seq::empty()
    } else if quoted {
        if q[0] == '\'' {
            shell_word(q.skip(1), false)
        } else {
            seq![q[0]] + shell_word(q.skip(1), true)
        }
    } else if q[0] == '\'' {
        shell_word(q.skip(1), true)
    } else if q[0] == '\\' && q.len() > 1 {
        seq![q[1]] + shell_word(q.skip(2), false)
    } else {
        seq![q[0]] + shell_word(q.skip(1), false)
    }
}

proof fn lemma_word_plain(s: Seq<char>)
    requires
        forall|i: int| 0 <= i < s.len() ==> shell_safe(#[trigger] s[i]),
    ensures
        shell_word(s, false) == s,
    decreases s.len(),
{
    if s.len() > 0 {
        let t = s.skip(1);
        assert forall|i: int| 0 <= i < t.len() implies shell_safe(#[trigger] t[i]) by {
            assert(t[i] == s[i + 1]);
        }
        assert(shell_safe(s[0]));
        lemma_word_plain(t);
        assert(seq![s[0]] + t =~= s);
    }
}

proof fn lemma_word_body(s: Seq<char>, rest: Seq<char>)
    ensures
        shell_word(quote_body(s) + rest, true) == s + shell_word(rest, true),
    decreases s.len(),
{
    if s.len() == 0 {
        assert(quote_body(s) + rest =~= rest);
        assert(s + shell_word(rest, true) =~= shell_word(rest, true));
    } else {
        let t = s.skip(1);
        lemma_word_body(t, rest);
        let x = quote_body(t) + rest;
        if s[0] == '\'' {
            let q = seq!['\'', '\\', '\'', '\''] + x;
            assert(quote_body(s) + rest =~= q);
            assert(q.skip(1) =~= seq!['\\', '\'', '\''] + x);
            assert((seq!['\\', '\'', '\''] + x).skip(2) =~= seq!['\''] + x);
            assert((seq!['\''] + x).skip(1) =~= x);
            assert(shell_word(seq!['\''] + x, false) == shell_word(x, true));
            assert(shell_word(seq!['\\', '\'', '\''] + x, false) == seq!['\''] + shell_word(seq!['\''] + x, false));
        } else {
            let q = seq![s[0]] + x;
            assert(quote_body(s) + rest =~= q);
            assert(q.skip(1) =~= x);
        }
        assert(seq![s[0]] + (t + shell_word(rest, true)) =~= s + shell_word(rest, true));
    }
}

/// A shell reads a quoted text back as the text itself.
pub proof fn lemma_shell_quote_reads_back(s: Seq<char>)
    ensures
        shell_word(shell_quote_spec(s), false) == s,
{
    if forall|i: int| 0 <= i < s.len() ==> shell_safe(#[trigger] s[i]) {
        lemma_word_plain(s);
    } else {
        let q = shell_quote_spec(s);
        let inner = quote_body(s) + seq!['\''];
        assert(q =~= seq!['\''] + inner);
        assert(q.skip(1) =~= inner);
        lemma_word_body(s, seq!['\'']);
        assert(seq!['\''].skip(1) =~= Seq::<char>::empty());
        assert(shell_word(seq!['\''], true) == shell_word(Seq::<char>::empty(), false));
        assert(s + Seq::<char>::empty() =~= s);
    }
}

/// The hook file each shell sources: its name and its text, which records
/// the working directory into `pwd_file` when the shell exits.
pub open spec fn hook_spec(kind: ShellKind, pwd_file: Seq<char>) -> (Seq<char>, Seq<char>) {
    let q = shell_quote_spec(pwd_file);
    match kind {
        ShellKind::Bash | ShellKind::Sh => (
            "bashrc"@,
            "[ -f \"$HOME/.bashrc\" ] && . \"$HOME/.bashrc\"\ntrap 'pwd > "@ + q + "' EXIT\n"@,
        ),
        ShellKind::Zsh => (
            "zshrc"@,
            "[ -f \"$HOME/.zshrc\" ] && . \"$HOME/.zshrc\"\nTRAPEXIT() { pwd > "@ + q + "; }\n"@,
        ),
        ShellKind::Fish => (
            "fish_init"@,
            "function __mc_rs_on_exit --on-event fish_exit\n  pwd > "@ + q + "\nend\n"@,
        ),
    }
}

impl ShellKind {
    /// The hook file for this shell: its name and its text.
    pub fn hook(self, pwd_file: &str) -> (r: (String, String))
        ensures
            (r.0@, r.1@) == hook_spec(self, pwd_file@),
    {
        let q = shell_quote(pwd_file);
        match self {
            ShellKind::Bash | ShellKind::Sh => {
                let mut b = String::from_str("[ -f \"$HOME/.bashrc\" ] && . \"$HOME/.bashrc\"\ntrap 'pwd > ");
                append_str(&mut b, q.as_str());
                append_str(&mut b, "' EXIT\n");
                (String::from_str("bashrc"), b)
            },
            ShellKind::Zsh => {
                let mut b = String::from_str("[ -f \"$HOME/.zshrc\" ] && . \"$HOME/.zshrc\"\nTRAPEXIT() { pwd > ");
                append_str(&mut b, q.as_str());
                append_str(&mut b, "; }\n");
                (String::from_str("zshrc"), b)
            },
            ShellKind::Fish => {
                let mut b = String::from_str("function __mc_rs_on_exit --on-event fish_exit\n  pwd > ");
                append_str(&mut b, q.as_str());
                append_str(&mut b, "\nend\n");
                (String::from_str("fish_init"), b)
            },
        }
    }
}

/// A text without its trailing `\r` and `\n` characters.
pub open spec fn trim_line_end(s: Seq<char>) -> Seq<char>
    decreases s.len(),
{
    if s.len() > 0 && (s.last() == '\r' || s.last() == '\n') {
        trim_line_end(s.drop_last())
    } else {
        s
    }
}

/// The directory a shell recorded on exit, without the line end.
pub fn recorded_dir(s: &str) -> (r: String)
    ensures
        r@ == trim_line_end(s@),
{
    let v = chars_of(s);
    let mut n = v.len();
    assert(v@.take(n as int) =~= v@);
    while n > 0 && (v[n - 1] == '\r' || v[n - 1] == '\n')
        invariant
            n <= v@.len(),
            trim_line_end(v@) == trim_line_end(v@.take(n as int)),
        decreases n,
    {
        assert(v@.take(n as int).drop_last() =~= v@.take(n - 1));
        n = n - 1;
    }
    let t = crate::text::sub_chars(v.as_slice(), 0, n);
    assert(t@ =~= v@.take(n as int));
    string_of(t.as_slice())
}

} // verus!
