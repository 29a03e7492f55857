//! Where configuration, cache and state files live (XDG layout).

use vstd::prelude::*;

use crate::text::append_str;

verus! {

/// `base` joined with `name` as `PathBuf::join` does on Unix: an absolute
/// `name` replaces `base`; otherwise a `/` is put between them unless `base`
/// is empty or already ends with one.
pub open spec fn path_join(base: Seq<char>, name: Seq<char>) -> Seq<char> {
    if name.len() > 0 && name[0] == '/' {
        name
    } else if base.len() == 0 || base.last() == '/' {
        base + name
    } else {
        base + "/"@ + name
    }
}

/// Joins two paths as [`path_join`] says.
pub fn join(base: &str, name: &str) -> (r: String)
    ensures
        r@ == path_join(base@, name@),
{
    let nv = crate::text::chars_of(name);
    if nv.len() > 0 && nv[0] == '/' {
        return String::from_str(name);
    }
    let bv = crate::text::chars_of(base);
    let mut r = String::from_str(base);
    if !(bv.len() == 0 || bv[bv.len() - 1] == '/') {
        append_str(&mut r, "/");
    }
    append_str(&mut r, name);
    r
}

/// The three directories the application keeps files in.
#[derive(Debug, Clone)]
pub struct ConfigPaths {
    pub config_dir: String,
    pub cache_dir: String,
    pub state_dir: String,
}

/// A set variable, or the fallback.
pub open spec fn or_else(v: Option<Seq<char>>, fallback: Seq<char>) -> Seq<char> {
    match v {
        Some(s) => s,
        None => fallback,
    }
}

/// The text of an optional string.
pub open spec fn opt_text(o: Option<String>) -> Option<Seq<char>> {
    match o {
        Some(s) => Some(s@),
        None => None,
    }
}

/// The configuration directory: `$MC_RS_CONFIG_DIR`, else
/// `$XDG_CONFIG_HOME/mc-rs`, else `$HOME/.config/mc-rs` (`.` for an unset
/// `HOME`).
pub open spec fn config_dir_of(home: Option<Seq<char>>, own: Option<Seq<char>>, xdg_config: Option<Seq<char>>) -> Seq<char> {
    match own {
        Some(d) => d,
        None => match xdg_config {
            Some(x) => path_join(x, "mc-rs"@),
            None => path_join(path_join(or_else(home, "."@), ".config"@), "mc-rs"@),
        },
    }
}

/// The cache directory: `$XDG_CACHE_HOME/mc-rs`, else `$HOME/.cache/mc-rs`.
pub open spec fn cache_dir_of(home: Option<Seq<char>>, xdg_cache: Option<Seq<char>>) -> Seq<char> {
    match xdg_cache {
        Some(x) => path_join(x, "mc-rs"@),
        None => path_join(path_join(or_else(home, "."@), ".cache"@), "mc-rs"@),
    }
}

/// The state directory: `$XDG_STATE_HOME/mc-rs`, else
/// `$HOME/.local/state/mc-rs`.
pub open spec fn state_dir_of(home: Option<Seq<char>>, xdg_state: Option<Seq<char>>) -> Seq<char> {
    match xdg_state {
        Some(x) => path_join(x, "mc-rs"@),
        None => path_join(path_join(path_join(or_else(home, "."@), ".local"@), "state"@), "mc-rs"@),
    }
}

fn home_or_dot(home: &Option<String>) -> (r: String)
    ensures
        r@ == or_else(opt_text(*home), "."@),
{
    match home {
        Some(h) => h.clone(),
        None => String::from_str("."),
    }
}

impl ConfigPaths {
    /// Resolves the directories from the values of `HOME`,
    /// `MC_RS_CONFIG_DIR`, `XDG_CONFIG_HOME`, `XDG_CACHE_HOME` and
    /// `XDG_STATE_HOME` (`None` where unset).
    pub fn from_env(
        home: Option<String>,
        own_config_dir: Option<String>,
        xdg_config_home: Option<String>,
        xdg_cache_home: Option<String>,
        xdg_state_home: Option<String>,
    ) -> (r: Self)
        ensures
            r.config_dir@ == config_dir_of(opt_text(home), opt_text(own_config_dir), opt_text(xdg_config_home)),
            r.cache_dir@ == cache_dir_of(opt_text(home), opt_text(xdg_cache_home)),
            r.state_dir@ == state_dir_of(opt_text(home), opt_text(xdg_state_home)),
    {
        let h = home_or_dot(&home);
        let config_dir = match own_config_dir {
            Some(d) => d,
            None => match xdg_config_home {
                Some(x) => join(x.as_str(), "mc-rs"),
                None => {
                    let c = join(h.as_str(), ".config");
                    join(c.as_str(), "mc-rs")
                },
            },
        };
        let cache_dir = match xdg_cache_home {
            Some(x) => join(x.as_str(), "mc-rs"),
            None => {
                let c = join(h.as_str(), ".cache");
                join(c.as_str(), "mc-rs")
            },
        };
        let state_dir = match xdg_state_home {
            Some(x) => join(x.as_str(), "mc-rs"),
            None => {
                let l = join(h.as_str(), ".local");
                let s = join(l.as_str(), "state");
                join(s.as_str(), "mc-rs")
            },
        };
        ConfigPaths { config_dir, cache_dir, state_dir }
    }

    /// `config.toml` in the configuration directory.
    pub fn main_config(&self) -> (r: String)
        ensures
            r@ == path_join(self.config_dir@, "config.toml"@),
    {
        join(self.config_dir.as_str(), "config.toml")
    }

    /// `keymap.toml` in the configuration directory.
    pub fn keymap(&self) -> (r: String)
        ensures
            r@ == path_join(self.config_dir@, "keymap.toml"@),
    {
        join(self.config_dir.as_str(), "keymap.toml")
    }

    /// `skin.toml` in the configuration directory.
    pub fn skin(&self) -> (r: String)
        ensures
            r@ == path_join(self.config_dir@, "skin.toml"@),
    {
        join(self.config_dir.as_str(), "skin.toml")
    }

    /// `log` in the cache directory.
    pub fn log_dir(&self) -> (r: String)
        ensures
            r@ == path_join(self.cache_dir@, "log"@),
    {
        join(self.cache_dir.as_str(), "log")
    }

    /// Path to the user-defined menu file (the F2 / Command, User menu source).
    pub fn user_menu(&self) -> (r: String)
        ensures
            r@ == path_join(self.config_dir@, "menu.toml"@),
    {
        join(self.config_dir.as_str(), "menu.toml")
    }

    /// Path to the file-extension binding rules.
    pub fn extbind(&self) -> (r: String)
        ensures
            r@ == path_join(self.config_dir@, "extbind.toml"@),
    {
        join(self.config_dir.as_str(), "extbind.toml")
    }

    /// Path to the file-highlighting rules.
    pub fn filehighlight(&self) -> (r: String)
        ensures
            r@ == path_join(self.config_dir@, "filehighlight.toml"@),
    {
        join(self.config_dir.as_str(), "filehighlight.toml")
    }
}

} // verus!
