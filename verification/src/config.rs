//! The bridge's configuration: how to reach each platform.

use vstd::prelude::*;
use vstd::string::StringExecFns;

verus! {

/// The whole configuration.
#[derive(Debug)]
pub struct Config {
    pub irc: IrcConfig,
    pub discord: DiscordConfig,
}

/// How to reach the IRC server.
#[derive(Debug)]
pub struct IrcConfig {
    pub server: String,
    pub port: u16,
    pub use_tls: bool,
    pub accept_invalid_certs: bool,
    pub nickname: String,
}

/// How to reach Discord.
#[derive(Debug)]
pub struct DiscordConfig {
    pub token: String,
}

/// The value of a setting that is on unless configured off (TLS).
pub fn default_true() -> (r: bool)
    ensures
        r,
{
    true
}

/// Calls `Path::parent` on a path given as text and hands the parent back as
/// text. Claims only what std documents of every platform: the empty path
/// has no parent, and a parent is the path without its final component, so
/// it is shorter. Which part of the path it is depends on the platform's
/// path syntax and is left unsaid.
#[verifier::external_body]
fn path_parent(p: &str) -> (r: Option<String>)
    ensures
        p@.len() == 0 ==> r is None,
        r matches Some(d) ==> d@.len() < p@.len(),
{
    match std::path::Path::new(p).parent() {
        Some(d) => Some(d.to_string_lossy().into_owned()),
        None => None,
    }
}

/// A file named `file` in the directory `dir`: `dir` and `file` joined by
/// `/`, with no separator added after an empty `dir` or one that already
/// ends in `/`.
pub open spec fn in_dir(dir: Seq<char>, file: Seq<char>) -> Seq<char> {
    if dir.len() == 0 {
        file
    } else if dir.last() == '/' {
        dir + file
    } else {
        dir + "/"@ + file
    }
}

/// The runtime directory of a configured config path, given the path's
/// parent: the parent, or `.` when it has none.
pub fn runtime_dir_from(parent: Option<String>) -> (r: String)
    ensures
        r@ == match parent {
            Some(d) => d@,
            None => "."@,
        },
{
    match parent {
        Some(d) => d,
        None => ".".to_string(),
    }
}

/// The name of the config file in the runtime directory.
pub open spec fn config_file_name() -> Seq<char> {
    "config.toml"@
}

/// The path of the file `file` in the directory `dir`.
fn join_in_dir(dir: &str, file: &str) -> (r: String)
    ensures
        r@ == in_dir(dir@, file@),
{
    let n = dir.unicode_len();
    if n == 0 {
        return file.to_string();
    }
    let mut out = dir.to_string();
    if dir.get_char(n - 1) != '/' {
        out.append("/");
    }
    out.append(file);
    proof {
        reveal_strlit("/");
    }
    out
}

/// The runtime directory and the config path. With a config path, the
/// path itself and, as runtime directory, its parent (`.` when it has none);
/// without one, the given runtime directory (`runtime` when none is given)
/// and the config file in it.
pub fn resolve_paths(config_arg: Option<String>, env_runtime: Option<String>) -> (r: (String, String))
    ensures
        match config_arg {
            Some(c) => {
                &&& r.1@ == c@
                &&& c@.len() == 0 ==> r.0@ == "."@
                &&& r.0@ == "."@ || r.0@.len() < c@.len()
            },
            None => {
                &&& r.0@ == match env_runtime {
                    Some(e) => e@,
                    None => "runtime"@,
                }
                &&& r.1@ == in_dir(r.0@, config_file_name())
            },
        },
{
    match config_arg {
        Some(c) => {
            let parent = path_parent(c.as_str());
            (runtime_dir_from(parent), c)
        },
        None => {
            let dir = match env_runtime {
                Some(e) => e,
                None => "runtime".to_string(),
            };
            let path = join_in_dir(dir.as_str(), "config.toml");
            (dir, path)
        },
    }
}

} // verus!
