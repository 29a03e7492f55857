//! Network endpoints: the `[user@]host[:port]` locations of FTP and SFTP
//! layers, and the URL locations of WebDAV layers.

use vstd::prelude::*;

use crate::error::Error;
use crate::num::{decimal, decimal_chars, parse_unsigned, parse_unsigned_chars};
use crate::archive_index::{leaf_name, split_key, trim_end_slashes, trim_end_slashes_of};
use crate::path::{innermost_layer, last_layer_with, Layer, LayerText, VPath};
use crate::text::{
    has_char, push_char, append_chars, debug_quote, debug_text, str_bytes, utf8_bytes, append_str, chars_of, find_char, find_first, has_prefix, lemma_rfind, rfind,
    rfind_char, starts_with_chars, string_of, sub_chars,
};

verus! {

/// `bad port in <loc quoted>`
pub open spec fn bad_port_msg(loc: Seq<char>) -> Seq<char> {
    "bad port in "@ + debug_text(loc)
}

/// `empty host in <loc quoted>`
pub open spec fn empty_host_msg(loc: Seq<char>) -> Seq<char> {
    "empty host in "@ + debug_text(loc)
}

/// How a `[user@]host[:port]` location reads: the text before the last `@`
/// is the user (else `no_user`), the text after the last `:` of the rest is
/// the port (else `default_port`), and the host must not be empty. A port
/// that is not a `u16` is reported before an empty host.
pub open spec fn host_port_spec(loc: Seq<char>, no_user: Seq<char>, default_port: u16) -> Result<(Seq<char>, Seq<char>, u16), Seq<char>> {
    let at = rfind(loc, '@');
    let user = if at >= 0 { loc.take(at) } else { no_user };
    let hp = if at >= 0 { loc.skip(at + 1) } else { loc };
    let colon = rfind(hp, ':');
    let host = if colon >= 0 { hp.take(colon) } else { hp };
    if colon >= 0 && parse_unsigned(hp.skip(colon + 1), 10, 65535) is None {
        Err(bad_port_msg(loc))
    } else if host.len() == 0 {
        Err(empty_host_msg(loc))
    } else {
        let port: u16 = if colon >= 0 {
            parse_unsigned(hp.skip(colon + 1), 10, 65535).unwrap() as u16
        } else {
            default_port
        };
        Ok((user, host, port))
    }
}

/// Splits a location into user, host and port as [`host_port_spec`] says.
fn parse_host_port(loc: &str, no_user: &str, default_port: u16) -> (r: Result<(String, String, u16), Error>)
    ensures
        match r {
            Ok((u, h, p)) => host_port_spec(loc@, no_user@, default_port) == Ok::<(Seq<char>, Seq<char>, u16), Seq<char>>((u@, h@, p)),
            Err(Error::InvalidPath(m)) => host_port_spec(loc@, no_user@, default_port) == Err::<(Seq<char>, Seq<char>, u16), Seq<char>>(m@),
            Err(_) => false,
        },
{
    let v = chars_of(loc);
    proof {
        lemma_rfind(loc@, '@');
    }
    let (user, hp) = match rfind_char(v.as_slice(), '@') {
        Some(at) => {
            assert(v@ == loc@);
            assert(at < v@.len());
            let u = sub_chars(v.as_slice(), 0, at);
            let h = sub_chars(v.as_slice(), at + 1, v.len());
            assert(u@ == loc@.take(at as int));
            assert(h@ == loc@.skip(at + 1));
            (string_of(u.as_slice()), h)
        },
        None => (String::from_str(no_user), v.clone()),
    };
    proof {
        lemma_rfind(hp@, ':');
    }
    let (host, port) = match rfind_char(hp.as_slice(), ':') {
        Some(c) => {
            assert(c < hp@.len());
            let h = sub_chars(hp.as_slice(), 0, c);
            let p = sub_chars(hp.as_slice(), c + 1, hp.len());
            assert(h@ == hp@.take(c as int));
            assert(p@ == hp@.skip(c + 1));
            match parse_unsigned_chars(p.as_slice(), 10, 65535) {
                Some(n) => (h, n as u16),
                None => {
                    let mut m = String::from_str("bad port in ");
                    let q = debug_quote(loc);
                    append_str(&mut m, q.as_str());
                    return Err(Error::InvalidPath(m));
                },
            }
        },
        None => (hp.clone(), default_port),
    };
    if host.len() == 0 {
        let mut m = String::from_str("empty host in ");
        let q = debug_quote(loc);
        append_str(&mut m, q.as_str());
        return Err(Error::InvalidPath(m));
    }
    Ok((user, string_of(host.as_slice()), port))
}

/// An FTP server location.
#[derive(Debug, Clone)]
pub struct FtpEndpoint {
    pub user: String,
    pub host: String,
    pub port: u16,
}

impl FtpEndpoint {
    /// Parses `[user@]host[:port]`; no user means an empty one (anonymous
    /// login), no port means 21.
    pub fn parse(loc: &str) -> (r: Result<Self, Error>)
        ensures
            match r {
                Ok(e) => host_port_spec(loc@, ""@, 21) == Ok::<(Seq<char>, Seq<char>, u16), Seq<char>>((e.user@, e.host@, e.port)),
                Err(Error::InvalidPath(m)) => host_port_spec(loc@, ""@, 21) == Err::<(Seq<char>, Seq<char>, u16), Seq<char>>(m@),
                Err(_) => false,
            },
    {
        match parse_host_port(loc, "", 21) {
            Ok((user, host, port)) => Ok(FtpEndpoint { user, host, port }),
            Err(e) => Err(e),
        }
    }
}

/// The user and password an FTP login sends: `anonymous` with the password
/// `anonymous@example.com` for an empty user, else the user with the
/// password from the environment (empty when unset).
pub open spec fn ftp_login_spec(user: Seq<char>, env_pass: Option<Seq<char>>) -> (Seq<char>, Seq<char>) {
    if user.len() == 0 {
        ("anonymous"@, "anonymous@example.com"@)
    } else {
        (user, match env_pass {
            Some(p) => p,
            None => Seq::empty(),
        })
    }
}

impl FtpEndpoint {
    /// The login to send, as [`ftp_login_spec`] says; `env_pass` is the
    /// value of `MC_RS_FTP_PASS`.
    pub fn login(&self, env_pass: Option<String>) -> (r: (String, String))
        ensures
            (r.0@, r.1@) == ftp_login_spec(self.user@, crate::config::paths::opt_text(env_pass)),
    {
        proof {
            reveal_strlit("anonymous");
            reveal_strlit("anonymous@example.com");
        }
        if self.user.unicode_len() == 0 {
            (String::from_str("anonymous"), String::from_str("anonymous@example.com"))
        } else {
            let pass = match env_pass {
                Some(p) => p,
                None => String::new(),
            };
            (self.user.clone(), pass)
        }
    }
}

/// An SSH server location.
#[derive(Debug, Clone)]
pub struct SftpEndpoint {
    pub user: String,
    pub host: String,
    pub port: u16,
}

/// `user@host`, with `:port` unless the port is 22.
pub open spec fn sftp_display_spec(user: Seq<char>, host: Seq<char>, port: u16) -> Seq<char> {
    if port == 22 {
        user + "@"@ + host
    } else {
        user + "@"@ + host + ":"@ + decimal(port as nat)
    }
}

impl SftpEndpoint {
    /// Parses a `[user@]host[:port]` location (the `location` of a layer);
    /// no user means `default_user` (the login name, `root` when unknown),
    /// no port means 22.
    pub fn parse(loc: &str, default_user: &str) -> (r: Result<Self, Error>)
        ensures
            match r {
                Ok(e) => host_port_spec(loc@, default_user@, 22) == Ok::<(Seq<char>, Seq<char>, u16), Seq<char>>((e.user@, e.host@, e.port)),
                Err(Error::InvalidPath(m)) => host_port_spec(loc@, default_user@, 22) == Err::<(Seq<char>, Seq<char>, u16), Seq<char>>(m@),
                Err(_) => false,
            },
    {
        match parse_host_port(loc, default_user, 22) {
            Ok((user, host, port)) => Ok(SftpEndpoint { user, host, port }),
            Err(e) => Err(e),
        }
    }

    /// The location as it is written back: `user@host[:port]`.
    pub fn display(&self) -> (r: String)
        ensures
            r@ == sftp_display_spec(self.user@, self.host@, self.port),
    {
        let mut s = self.user.clone();
        append_str(&mut s, "@");
        append_str(&mut s, self.host.as_str());
        if self.port != 22 {
            append_str(&mut s, ":");
            let d = decimal_chars(self.port as u64);
            append_chars(&mut s, d.as_slice());
        }
        s
    }
}

/// A WebDAV server: its base URL and credentials.
#[derive(Debug, Clone)]
pub struct DavEndpoint {
    /// Full base URL like `https://dav.example.com/remote.php/dav/`.
    pub base: String,
    pub user: Option<String>,
    pub password: Option<String>,
}

/// The value of an ASCII hexadecimal digit.
pub open spec fn hex_value(b: u8) -> Option<u8> {
    if 0x30 <= b <= 0x39 {
        Some((b - 0x30) as u8)
    } else if 0x41 <= b <= 0x46 {
        Some((b - 0x37) as u8)
    } else if 0x61 <= b <= 0x66 {
        Some((b - 0x57) as u8)
    } else {
        None
    }
}

/// Percent-decoding of bytes: `%` followed by two hexadecimal digits is the
/// byte they spell; every other byte stands for itself.
pub open spec fn pct_decode(b: Seq<u8>) -> Seq<u8>
    decreases b.len(),
{
    if b.len() == 0 {
        Seq::empty()
    } else if b[0] == 0x25 && b.len() >= 3 && hex_value(b[1]) is Some && hex_value(b[2]) is Some {
        seq![(hex_value(b[1])->0 * 16 + hex_value(b[2])->0) as u8] + pct_decode(b.subrange(3, b.len() as int))
    } else {
        seq![b[0]] + pct_decode(b.subrange(1, b.len() as int))
    }
}

/// Whether bytes are well-formed UTF-8: the encoding of some text.
pub open spec fn is_utf8(b: Seq<u8>) -> bool {
    exists|t: Seq<char>| #[trigger] str_bytes(t) == b
}

/// What percent-decoding a location and reading the bytes as UTF-8 gives:
/// the text, or the message of the UTF-8 error.
pub uninterp spec fn percent_decoded(s: Seq<char>) -> Result<Seq<char>, Seq<char>>;

/// Decodes `%XX` sequences with `percent_encoding::percent_decode_str` and
/// reads the bytes with `PercentDecode::decode_utf8`; an error becomes its
/// message. The result is named by `percent_decoded`; beside the name, the
/// contract states that the text's UTF-8 bytes are the percent-decoded bytes
/// of the input, and that an error comes exactly when those bytes are not
/// UTF-8. The wording of the error message is left to the name.
#[verifier::external_body]
fn percent_decode_text(s: &str) -> (r: Result<String, String>)
    ensures
        match r {
            Ok(t) => percent_decoded(s@) == Ok::<Seq<char>, Seq<char>>(t@) && str_bytes(t@) == pct_decode(str_bytes(s@)),
            Err(m) => percent_decoded(s@) == Err::<Seq<char>, Seq<char>>(m@) && !is_utf8(pct_decode(str_bytes(s@))),
        },
{
    match percent_encoding::percent_decode_str(s).decode_utf8() {
        Ok(t) => Ok(t.into_owned()),
        Err(e) => Err(e.to_string()),
    }
}

/// Whether a text starts with an HTTP(S) scheme.
pub open spec fn is_http_url(s: Seq<char>) -> bool {
    has_prefix(s, "http://"@) || has_prefix(s, "https://"@)
}

/// A set, non-empty variable.
pub open spec fn non_empty(v: Option<Seq<char>>) -> Option<Seq<char>> {
    match v {
        Some(s) => if s.len() > 0 { Some(s) } else { None },
        None => None,
    }
}

/// The endpoint a decoded location gives: the text before the first `@` is
/// the user unless it is itself a URL; `https://` is put in front of a URL
/// without a scheme; the user (when none is written) and the password come
/// from the environment values when they are not empty.
pub open spec fn dav_spec(decoded: Seq<char>, env_user: Option<Seq<char>>, env_pass: Option<Seq<char>>) -> (Seq<char>, Option<Seq<char>>, Option<Seq<char>>) {
    let at = find_first(decoded, '@');
    let split = at >= 0 && !is_http_url(decoded.take(at));
    let user = if split { Some(decoded.take(at)) } else { None };
    let url = if split { decoded.skip(at + 1) } else { decoded };
    let base = if is_http_url(url) { url } else { "https://"@ + url };
    let user = match user {
        Some(u) => Some(u),
        None => non_empty(env_user),
    };
    (base, user, non_empty(env_pass))
}

/// The text of an optional string.
pub open spec fn opt_text(o: Option<String>) -> Option<Seq<char>> {
    match o {
        Some(s) => Some(s@),
        None => None,
    }
}

/// `dav location utf8: <message>`
pub open spec fn dav_utf8_msg(m: Seq<char>) -> Seq<char> {
    "dav location utf8: "@ + m
}

fn starts_with_str(v: &[char], p: &str) -> (r: bool)
    ensures
        r == has_prefix(v@, p@),
{
    let pv = chars_of(p);
    starts_with_chars(v, pv.as_slice())
}

fn keep_non_empty(v: Option<String>) -> (r: Option<String>)
    ensures
        opt_text(r) == non_empty(opt_text(v)),
{
    match v {
        Some(s) => if s.as_str().unicode_len() > 0 {
            Some(s)
        } else {
            None
        },
        None => None,
    }
}

impl DavEndpoint {
    /// Builds the endpoint from a decoded `[user@]https://host/...` location
    /// and the values of `MC_RS_DAV_USER` and `MC_RS_DAV_PASS`.
    pub fn from_decoded(decoded: &str, env_user: Option<String>, env_pass: Option<String>) -> (r: Self)
        ensures
            (r.base@, opt_text(r.user), opt_text(r.password)) == dav_spec(decoded@, opt_text(env_user), opt_text(env_pass)),
    {
        let v = chars_of(decoded);
        let n = v.len();
        let (user, url) = match find_char(v.as_slice(), '@') {
            Some(at) => {
                assert(at < n);
                let after = at + 1;
                let prefix = sub_chars(v.as_slice(), 0, at);
                assert(prefix@ == decoded@.take(at as int));
                if starts_with_str(prefix.as_slice(), "http://") || starts_with_str(prefix.as_slice(), "https://") {
                    (None, v.clone())
                } else {
                    let rest = sub_chars(v.as_slice(), after, v.len());
                    assert(rest@ == decoded@.skip(at + 1));
                    (Some(string_of(prefix.as_slice())), rest)
                }
            },
            None => (None, v.clone()),
        };
        let base = if starts_with_str(url.as_slice(), "http://") || starts_with_str(url.as_slice(), "https://") {
            string_of(url.as_slice())
        } else {
            let mut b = String::from_str("https://");
            append_chars(&mut b, url.as_slice());
            b
        };
        let password = keep_non_empty(env_pass);
        let user = match user {
            Some(u) => Some(u),
            None => keep_non_empty(env_user),
        };
        DavEndpoint { base, user, password }
    }

    /// Builds the endpoint from a percent-encoded `[user@]https://host/...`
    /// location, with the values of `MC_RS_DAV_USER` and `MC_RS_DAV_PASS`.
    ///
    /// # Errors
    /// [`Error::InvalidPath`] when the decoded bytes are not UTF-8.
    pub fn parse(loc: &str, env_user: Option<String>, env_pass: Option<String>) -> (r: Result<Self, Error>)
        ensures
            match percent_decoded(loc@) {
                Ok(d) => r matches Ok(e) && (e.base@, opt_text(e.user), opt_text(e.password)) == dav_spec(d, opt_text(env_user), opt_text(env_pass)),
                Err(m) => r matches Err(Error::InvalidPath(em)) && em@ == dav_utf8_msg(m),
            },
            r is Ok <==> is_utf8(pct_decode(str_bytes(loc@))),
            percent_decoded(loc@) matches Ok(d) ==> str_bytes(d) == pct_decode(str_bytes(loc@)),
    {
        match percent_decode_text(loc) {
            Ok(d) => Ok(Self::from_decoded(d.as_str(), env_user, env_pass)),
            Err(m) => {
                let mut em = String::from_str("dav location utf8: ");
                append_str(&mut em, m.as_str());
                Err(Error::InvalidPath(em))
            },
        }
    }

    /// Encodes a location for a layer: every byte of the UTF-8 form that is
    /// not an ASCII letter or digit becomes `%XX`.
    pub fn encode_for_layer(s: &str) -> (r: String)
        ensures
            r@ == percent_encode_spec(s@),
    {
        percent_encode_alnum(s)
    }
}

/// An upper-case hex digit.
pub open spec fn hex_upper(d: u8) -> char {
    if d < 10 {
        (('0' as u8) + d) as char
    } else {
        (('A' as u8) + d - 10) as char
    }
}

/// `%XX` for a byte.
pub open spec fn pct_byte(b: u8) -> Seq<char> {
    seq!['%', hex_upper(b / 16), hex_upper(b % 16)]
}

/// `%XX` for each byte, in order.
pub open spec fn pct_bytes(bs: Seq<u8>) -> Seq<char>
    decreases bs.len(),
{
    if bs.len() == 0 {
        Seq::empty()
    } else {
        pct_bytes(bs.drop_last()) + pct_byte(bs.last())
    }
}

/// Whether a character is an ASCII letter or digit.
pub open spec fn is_ascii_alnum(c: char) -> bool {
    ('0' <= c && c <= '9') || ('a' <= c && c <= 'z') || ('A' <= c && c <= 'Z')
}

/// Percent-encoding with the non-alphanumeric set: letters and digits stay,
/// every byte of every other character becomes `%XX`.
pub open spec fn percent_encode_spec(s: Seq<char>) -> Seq<char>
    decreases s.len(),
{
    if s.len() == 0 {
        Seq::empty()
    } else {
        let c = s.last();
        percent_encode_spec(s.drop_last()) + if is_ascii_alnum(c) { seq![c] } else { pct_bytes(utf8_bytes(c)) }
    }
}

/// Percent-encodes with `percent_encoding::utf8_percent_encode` and the
/// `NON_ALPHANUMERIC` set, as `percent_encode_spec` states: that set holds
/// every ASCII byte but letters and digits, and bytes outside ASCII are
/// always encoded, each as `%` and two upper-case hex digits.
#[verifier::external_body]
fn percent_encode_alnum(s: &str) -> (r: String)
    ensures
        r@ == percent_encode_spec(s@),
{
    percent_encoding::utf8_percent_encode(s, percent_encoding::NON_ALPHANUMERIC).to_string()
}

/// `s` without the `/` characters at its start.
pub open spec fn trim_start_slashes(s: Seq<char>) -> Seq<char>
    decreases s.len(),
{
    if s.len() > 0 && s[0] == '/' {
        trim_start_slashes(s.skip(1))
    } else {
        s
    }
}

/// `vpath has no <scheme> layer`
pub open spec fn no_layer_msg(scheme: Seq<char>) -> Seq<char> {
    "vpath has no "@ + scheme + " layer"@
}

/// The URL of a path on a WebDAV server: the base URL without trailing
/// slashes, then `/` and the innermost layer's sub-path without leading
/// slashes when that is not empty; or the message of the invalid-path error
/// for a path without such a layer.
pub open spec fn dav_url_spec(base: Seq<char>, scheme: Seq<char>, p: Seq<LayerText>) -> Result<Seq<char>, Seq<char>> {
    match last_layer_with(p, scheme) {
        None => Err(no_layer_msg(scheme)),
        Some(l) => {
            let suffix = trim_start_slashes(l.2);
            let b = trim_end_slashes(base);
            Ok(if suffix.len() == 0 { b } else { b + "/"@ + suffix })
        },
    }
}

/// The name a WebDAV listing gives a resource: the last piece of its `href`
/// (after the base URL when the `href` starts with it, without trailing
/// slashes), percent-decoded when that gives UTF-8 text.
pub open spec fn dav_basename_spec(href: Seq<char>, base: Seq<char>) -> Seq<char> {
    let stripped = if has_prefix(href, base) { href.skip(base.len() as int) } else { href };
    let last = leaf_name(trim_end_slashes(stripped));
    match percent_decoded(last) {
        Ok(t) => t,
        Err(_) => last,
    }
}

/// The key of a path on an FTP server: the innermost layer's sub-path, `/`
/// when that is empty; or the message of the invalid-path error.
pub open spec fn ftp_key_spec(scheme: Seq<char>, p: Seq<LayerText>) -> Result<Seq<char>, Seq<char>> {
    match last_layer_with(p, scheme) {
        None => Err(no_layer_msg(scheme)),
        Some(l) => Ok(if l.2.len() == 0 { "/"@ } else { l.2 }),
    }
}

fn no_layer_error(scheme: &str) -> (r: Error)
    ensures
        r matches Error::InvalidPath(m) && m@ == no_layer_msg(scheme@),
{
    let mut m = String::from_str("vpath has no ");
    append_str(&mut m, scheme);
    append_str(&mut m, " layer");
    Error::InvalidPath(m)
}

impl DavEndpoint {
    /// The URL of a path on this server, as [`dav_url_spec`] says; the
    /// error is [`Error::InvalidPath`].
    pub fn url_for(&self, scheme: &str, p: &VPath) -> (r: Result<String, Error>)
        ensures
            match r {
                Ok(u) => dav_url_spec(self.base@, scheme@, p@) == Ok::<Seq<char>, Seq<char>>(u@),
                Err(Error::InvalidPath(m)) => dav_url_spec(self.base@, scheme@, p@) == Err::<Seq<char>, Seq<char>>(m@),
                Err(_) => false,
            },
    {
        let layer = match innermost_layer(p, scheme) {
            Some(l) => l,
            None => return Err(no_layer_error(scheme)),
        };
        let sv = chars_of(layer.sub.as_str());
        let mut a: usize = 0;
        assert(sv@.skip(0) =~= sv@);
        while a < sv.len() && sv[a] == '/'
            invariant
                a <= sv@.len(),
                trim_start_slashes(sv@.skip(a as int)) == trim_start_slashes(sv@),
            decreases sv@.len() - a,
        {
            assert(sv@.skip(a as int).skip(1) =~= sv@.skip(a + 1));
            a = a + 1;
        }
        proof {
            if a < sv@.len() {
                assert(sv@.skip(a as int)[0] == sv@[a as int]);
            }
        }
        let suffix = sub_chars(sv.as_slice(), a, sv.len());
        assert(suffix@ =~= sv@.skip(a as int));
        assert(suffix@ == trim_start_slashes(layer.sub@));
        let bv = chars_of(self.base.as_str());
        let mut url = string_of(trim_end_slashes_of(&bv).as_slice());
        let ghost b = url@;
        assert(b == trim_end_slashes(self.base@));
        if suffix.len() > 0 {
            push_char(&mut url, '/');
            append_chars(&mut url, suffix.as_slice());
            proof {
                reveal_strlit("/");
                assert(seq!['/'] =~= "/"@);
                assert(url@ =~= b + "/"@ + suffix@);
            }
        }
        Ok(url)
    }
}

/// The name a WebDAV listing gives a resource, as [`dav_basename_spec`]
/// says.
pub fn dav_basename(href: &str, base: &str) -> (r: String)
    ensures
        r@ == dav_basename_spec(href@, base@),
        ({
            let stripped = if has_prefix(href@, base@) { href@.skip(base@.len() as int) } else { href@ };
            let last = leaf_name(trim_end_slashes(stripped));
            let bytes = pct_decode(str_bytes(last));
            &&& is_utf8(bytes) ==> str_bytes(r@) == bytes
            &&& !is_utf8(bytes) ==> r@ == last
        }),
{
    let hv = chars_of(href);
    let bv = chars_of(base);
    let stripped = if starts_with_chars(hv.as_slice(), bv.as_slice()) {
        sub_chars(hv.as_slice(), bv.len(), hv.len())
    } else {
        hv
    };
    assert(has_prefix(href@, base@) ==> stripped@ =~= href@.skip(base@.len() as int));
    let trimmed = string_of(trim_end_slashes_of(&stripped).as_slice());
    let last = split_key(trimmed.as_str()).leaf;
    match percent_decode_text(last.as_str()) {
        Ok(t) => t,
        Err(_) => last,
    }
}

/// The key of a path on an FTP server, as [`ftp_key_spec`] says; the error
/// is [`Error::InvalidPath`].
pub fn ftp_key_for(scheme: &str, p: &VPath) -> (r: Result<String, Error>)
    ensures
        match r {
            Ok(k) => ftp_key_spec(scheme@, p@) == Ok::<Seq<char>, Seq<char>>(k@),
            Err(Error::InvalidPath(m)) => ftp_key_spec(scheme@, p@) == Err::<Seq<char>, Seq<char>>(m@),
            Err(_) => false,
        },
{
    match innermost_layer(p, scheme) {
        None => Err(no_layer_error(scheme)),
        Some(l) => if l.sub.as_str().unicode_len() == 0 {
            Ok(String::from_str("/"))
        } else {
            Ok(l.sub.clone())
        },
    }
}

/// A scheme served over the network (`sftp`, `ftp`, `dav`), whose layers
/// need a connected backend.
pub open spec fn remote_scheme(s: Seq<char>) -> bool {
    s == "sftp"@ || s == "ftp"@ || s == "dav"@
}

/// A remote backend a path needs: its scheme and location, and the path.
pub struct RemoteNeed {
    pub scheme: String,
    pub location: String,
    pub sample: VPath,
}

/// The view of a need.
pub open spec fn need_view(n: RemoteNeed) -> (Seq<char>, Seq<char>, Seq<LayerText>) {
    (n.scheme@, n.location@, n.sample@)
}

/// The needs of the layers `ls` of the path `p`, in layer order: one per
/// layer with a remote scheme.
pub open spec fn layer_needs(ls: Seq<LayerText>, p: Seq<LayerText>) -> Seq<(Seq<char>, Seq<char>, Seq<LayerText>)>
    decreases ls.len(),
{
    if ls.len() == 0 {
        Seq::empty()
    } else {
        let rest = layer_needs(ls.drop_last(), p);
        if remote_scheme(ls.last().0) {
            rest.push((ls.last().0, ls.last().1, p))
        } else {
            rest
        }
    }
}

fn is_remote_scheme(s: &str) -> (r: bool)
    ensures
        r == remote_scheme(s@),
{
    proof {
        reveal_strlit("sftp");
        reveal_strlit("ftp");
        reveal_strlit("dav");
    }
    crate::text::str_eq(s, "sftp") || crate::text::str_eq(s, "ftp") || crate::text::str_eq(s, "dav")
}

/// Appends the needs of `p`'s layers, as [`layer_needs`] says.
pub fn push_needs(out: &mut Vec<RemoteNeed>, p: &VPath)
    ensures
        final(out)@.map_values(|n: RemoteNeed| need_view(n)) == old(out)@.map_values(|n: RemoteNeed| need_view(n)) + layer_needs(
            p@,
            p@,
        ),
{
    let ls = p.layers();
    let ghost start = out@.map_values(|n: RemoteNeed| need_view(n));
    let mut i: usize = 0;
    while i < ls.len()
        invariant
            i <= ls@.len(),
            ls@.map_values(|l: Layer| l@) == p@,
            out@.map_values(|n: RemoteNeed| need_view(n)) == start + layer_needs(p@.take(i as int), p@),
        decreases ls@.len() - i,
    {
        assert(p@.take(i + 1).drop_last() =~= p@.take(i as int));
        assert(p@.take(i + 1).last() == ls@[i as int]@);
        let l = &ls[i];
        if is_remote_scheme(l.scheme.as_str()) {
            let ghost before = out@;
            out.push(RemoteNeed { scheme: l.scheme.clone(), location: l.location.clone(), sample: p.clone_path() });
            assert(out@.map_values(|n: RemoteNeed| need_view(n)) =~= before.map_values(|n: RemoteNeed| need_view(n)).push(
                (l.scheme@, l.location@, p@),
            ));
        }
        i = i + 1;
    }
    assert(p@.take(ls@.len() as int) =~= p@);
}

/// The remote backends the two panels' directories need: those of the left
/// panel's layers, then the right panel's, as [`layer_needs`] says.
pub fn remote_needs(left: &VPath, right: &VPath) -> (r: Vec<RemoteNeed>)
    ensures
        r@.map_values(|n: RemoteNeed| need_view(n)) == layer_needs(left@, left@) + layer_needs(right@, right@),
{
    let mut out: Vec<RemoteNeed> = Vec::new();
    assert(out@.map_values(|n: RemoteNeed| need_view(n)) =~= Seq::<(Seq<char>, Seq<char>, Seq<LayerText>)>::empty());
    push_needs(&mut out, left);
    push_needs(&mut out, right);
    assert(layer_needs(left@, left@) =~= Seq::<(Seq<char>, Seq<char>, Seq<LayerText>)>::empty() + layer_needs(left@, left@));
    out
}

} // verus!

verus! {

/// The last `c` of `a`, `c` and `b` is the one between them when `b` has none.
proof fn lemma_rfind_split(a: Seq<char>, c: char, b: Seq<char>)
    requires
        !has_char(b, c),
    ensures
        rfind(a + seq![c] + b, c) == a.len(),
{
    let s = a + seq![c] + b;
    lemma_rfind(s, c);
    assert(s[a.len() as int] == c);
    let k = rfind(s, c);
    if k > a.len() {
        assert(s[k] == b[k - a.len() - 1]);
        assert(has_char(b, c));
    }
}

/// A decimal number has no `:`.
proof fn lemma_decimal_no_colon(n: nat)
    ensures
        !has_char(decimal(n), ':'),
{
    crate::num::lemma_decimal_parses(n);
    if has_char(decimal(n), ':') {
        let i = choose|i: int| 0 <= i < decimal(n).len() && decimal(n)[i] == ':';
        assert(crate::num::radix_digit(decimal(n)[i], 10) is Some);
    }
}

/// Reading back the location an SSH endpoint is displayed as gives its
/// user, host and port, when the host is not empty and has neither `@`
/// nor `:`.
pub proof fn lemma_sftp_display_round_trip(user: Seq<char>, host: Seq<char>, port: u16, no_user: Seq<char>)
    requires
        host.len() > 0,
        !has_char(host, '@'),
        !has_char(host, ':'),
    ensures
        host_port_spec(sftp_display_spec(user, host, port), no_user, 22) == Ok::<(Seq<char>, Seq<char>, u16), Seq<char>>(
            (user, host, port),
        ),
{
    reveal_strlit("@");
    reveal_strlit(":");
    let loc = sftp_display_spec(user, host, port);
    if port == 22 {
        assert(loc == user + seq!['@'] + host);
        lemma_rfind_split(user, '@', host);
        let hp = loc.skip(user.len() as int + 1);
        assert(hp =~= host);
        assert(loc.take(user.len() as int) =~= user);
        lemma_rfind(hp, ':');
        if rfind(hp, ':') >= 0 {
            assert(hp[rfind(hp, ':')] == ':');
            assert(has_char(host, ':'));
        }
    } else {
        let d = decimal(port as nat);
        let tail = host + seq![':'] + d;
        assert(loc =~= user + seq!['@'] + tail);
        lemma_decimal_no_colon(port as nat);
        assert(!has_char(tail, '@')) by {
            crate::num::lemma_decimal_parses(port as nat);
            if has_char(tail, '@') {
                let i = choose|i: int| 0 <= i < tail.len() && tail[i] == '@';
                if i < host.len() {
                    assert(tail[i] == host[i]);
                } else if i > host.len() {
                    assert(tail[i] == d[i - host.len() - 1]);
                    assert(crate::num::radix_digit(d[i - host.len() - 1], 10) is Some);
                }
            }
        }
        lemma_rfind_split(user, '@', tail);
        let hp = loc.skip(user.len() as int + 1);
        assert(hp =~= tail);
        assert(loc.take(user.len() as int) =~= user);
        lemma_rfind_split(host, ':', d);
        assert(hp.take(host.len() as int) =~= host);
        assert(hp.skip(host.len() as int + 1) =~= d);
        crate::num::lemma_decimal_parses(port as nat);
        assert(crate::num::parse_unsigned(d, 10, 65535) == Some(port as nat));
    }
}

} // verus!
