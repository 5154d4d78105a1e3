//! File-system paths: joining, the default output directory and config file.

use vstd::prelude::*;

verus! {

/// `PathBuf::join` on Unix: an absolute `rel` replaces `base`; otherwise a
/// `/` is put between them unless `base` is empty or already ends in `/`.
pub open spec fn spec_join(base: Seq<char>, rel: Seq<char>) -> Seq<char> {
    if rel.len() > 0 && rel[0] == '/' {
        rel
    } else if base.len() > 0 && base.last() != '/' {
        base + "/"@ + rel
    } else {
        base + rel
    }
}

/// Joins two paths as `PathBuf::join` does on Unix.
pub fn join_path(base: &str, rel: &str) -> (r: String)
    ensures
        r@ == spec_join(base@, rel@),
{
    let rn = rel.unicode_len();
    if rn > 0 && rel.get_char(0) == '/' {
        return String::from_str(rel);
    }
    let bn = base.unicode_len();
    let mut r = String::from_str(base);
    if bn > 0 && base.get_char(bn - 1) != '/' {
        r.append("/");
    }
    r.append(rel);
    r
}

/// The default output directory: `$HOME/Pictures/Screenshots`, with `/tmp`
/// standing in for an unset `HOME`.
pub open spec fn spec_default_output_dir(home: Option<Seq<char>>) -> Seq<char> {
    let base = match home {
        Some(h) => h,
        None => "/tmp"@,
    };
    spec_join(base, "Pictures/Screenshots"@)
}

/// The default output directory for the given value of `HOME`.
pub fn default_output_dir(home: Option<&str>) -> (r: String)
    ensures
        r@ == spec_default_output_dir(opt_str(home)),
{
    let base = match home {
        Some(h) => h,
        None => "/tmp",
    };
    join_path(base, "Pictures/Screenshots")
}

/// The default config file: `$XDG_CONFIG_HOME/tilecap/config.toml`, or
/// `$HOME/.config/tilecap/config.toml` (`/tmp` for an unset `HOME`).
pub open spec fn spec_default_config_path(xdg: Option<Seq<char>>, home: Option<Seq<char>>) -> Seq<char> {
    let base = match xdg {
        Some(x) => x,
        None => spec_join(
            match home {
                Some(h) => h,
                None => "/tmp"@,
            },
            ".config"@,
        ),
    };
    spec_join(base, "tilecap/config.toml"@)
}

pub open spec fn opt_str(o: Option<&str>) -> Option<Seq<char>> {
    match o {
        Some(s) => Some(s@),
        None => None,
    }
}

/// The default config file for the given values of `XDG_CONFIG_HOME` and `HOME`.
pub fn default_config_path(xdg: Option<&str>, home: Option<&str>) -> (r: String)
    ensures
        r@ == spec_default_config_path(opt_str(xdg), opt_str(home)),
{
    let base = match xdg {
        Some(x) => String::from_str(x),
        None => {
            let h = match home {
                Some(h) => h,
                None => "/tmp",
            };
            join_path(h, ".config")
        },
    };
    join_path(base.as_str(), "tilecap/config.toml")
}

/// The config file to read: the one named on the command line, else the default.
pub fn config_path(arg: Option<&str>, xdg: Option<&str>, home: Option<&str>) -> (r: String)
    ensures
        r@ == match arg {
            Some(p) => p@,
            None => spec_default_config_path(opt_str(xdg), opt_str(home)),
        },
{
    match arg {
        Some(p) => String::from_str(p),
        None => default_config_path(xdg, home),
    }
}

/// The tool's settings.
#[derive(Debug)]
pub struct Config {
    /// Where screenshots are written.
    pub output_dir: String,
}

impl Config {
    /// The settings used when no config file gives others, for the given `HOME`.
    pub fn with_home(home: Option<&str>) -> (r: Config)
        ensures
            r.output_dir@ == spec_default_output_dir(opt_str(home)),
    {
        Config { output_dir: default_output_dir(home) }
    }
}

/// The path of the PNG file for a screenshot named `stem` in `dir`.
pub fn output_file_path(dir: &str, stem: &str) -> (r: String)
    ensures
        r@ == spec_join(dir@, stem@ + ".png"@),
{
    let file = String::from_str(stem).concat(".png");
    join_path(dir, file.as_str())
}

} // verus!
