//! Where the capture log is: the command line, the lookup of the proxy's
//! configuration file, and the expansion of `~/` in the configured path.
use crate::text::{chars_of, push_char, same_text, string_of};
use vstd::prelude::*;
use vstd::string::*;

verus! {

/// What the command line asks for.
#[derive(Clone, Copy, Debug, PartialEq, Eq, Structural)]
pub enum ArgMode {
    /// Open the flow viewer.
    Tui,
    /// Print every captured flow as JSON.
    List,
    /// Print the usage text.
    Help,
}

/// The message for an argument the program does not know.
pub open spec fn unrecognized_message(arg: Seq<char>) -> Seq<char> {
    "wf-echo: unrecognized argument '"@ + arg + "'\nRun `wf-echo --help` for usage."@
}

/// Decides from the first command-line argument what to do.
pub fn parse_args(first: Option<&str>) -> (r: Result<ArgMode, String>)
    ensures
        match first {
            None => r == Ok::<ArgMode, String>(ArgMode::Tui),
            Some(a) => if a@ == "--list"@ {
                r == Ok::<ArgMode, String>(ArgMode::List)
            } else if a@ == "-h"@ || a@ == "--help"@ {
                r == Ok::<ArgMode, String>(ArgMode::Help)
            } else {
                r matches Err(m) && m@ == unrecognized_message(a@)
            },
        },
{
    match first {
        None => Ok(ArgMode::Tui),
        Some(a) => {
            if same_text(a, "--list") {
                Ok(ArgMode::List)
            } else if same_text(a, "-h") || same_text(a, "--help") {
                Ok(ArgMode::Help)
            } else {
                let mut m = String::from_str("wf-echo: unrecognized argument '");
                m.append(a);
                m.append("'\nRun `wf-echo --help` for usage.");
                Err(m)
            }
        },
    }
}

/// `Path::join` on Unix: an absolute `part` replaces `base`; otherwise `part`
/// is appended, after a `/` unless `base` is empty or already ends in one.
pub open spec fn joined(base: Seq<char>, part: Seq<char>) -> Seq<char> {
    if part.len() > 0 && part[0] == '/' {
        part
    } else if base.len() == 0 || base.last() == '/' {
        base + part
    } else {
        base.push('/') + part
    }
}

/// `base` joined with `part` as a Unix path.
pub fn join_path(base: &str, part: &str) -> (p: String)
    ensures
        p@ == joined(base@, part@),
{
    let b = chars_of(base);
    let q = chars_of(part);
    if q.len() > 0 && q[0] == '/' {
        return String::from_str(part);
    }
    let mut p = String::from_str(base);
    if b.len() > 0 && b[b.len() - 1] != '/' {
        push_char(&mut p, '/');
    }
    p.append(part);
    p
}

/// The directory holding the proxy's configuration: `$XDG_CONFIG_HOME` when
/// set, else `$HOME/.config`, else none.
pub open spec fn config_home_of(xdg_config_home: Option<Seq<char>>, home: Option<Seq<char>>) -> Option<Seq<char>> {
    match xdg_config_home {
        Some(x) => Some(x),
        None => match home {
            Some(h) => Some(joined(h, ".config"@)),
            None => None,
        },
    }
}

/// The configuration files looked for, in order: `wraithflow/config.toml`
/// under the configuration directory, then `config.toml` and `config.json`
/// in the working directory.
pub open spec fn candidates_for(config_home: Seq<char>) -> Seq<Seq<char>> {
    seq![joined(joined(config_home, "wraithflow"@), "config.toml"@), "config.toml"@, "config.json"@]
}

/// The configuration files to look for, given the values of `XDG_CONFIG_HOME`
/// and `HOME`; none when neither is set.
pub fn config_candidates(xdg_config_home: Option<String>, home: Option<String>) -> (c: Option<Vec<String>>)
    ensures
        match config_home_of(
            match xdg_config_home { Some(x) => Some(x@), None => None },
            match home { Some(h) => Some(h@), None => None },
        ) {
            Some(dir) => c matches Some(v) && v@.map_values(|s: String| s@) == candidates_for(dir),
            None => c is None,
        },
{
    let dir = match xdg_config_home {
        Some(x) => x,
        None => match home {
            Some(h) => join_path(h.as_str(), ".config"),
            None => {
                return None;
            },
        },
    };
    let first = join_path(dir.as_str(), "wraithflow");
    let first = join_path(first.as_str(), "config.toml");
    let mut v: Vec<String> = Vec::new();
    v.push(first);
    v.push(String::from_str("config.toml"));
    v.push(String::from_str("config.json"));
    assert(v@.map_values(|s: String| s@) =~= candidates_for(dir@));
    Some(v)
}

/// The first candidate that exists (`exists[i]` tells whether `candidates[i]` does).
pub fn first_existing(candidates: &Vec<String>, exists: &Vec<bool>) -> (p: Option<String>)
    requires
        candidates@.len() == exists@.len(),
    ensures
        match p {
            Some(s) => exists|i: int|
                0 <= i < exists@.len() && exists@[i] && s@ == candidates@[i]@ && forall|j: int|
                    0 <= j < i ==> !exists@[j],
            None => forall|i: int| 0 <= i < exists@.len() ==> !exists@[i],
        },
{
    let mut i: usize = 0;
    while i < exists.len()
        invariant
            candidates@.len() == exists@.len(),
            i <= exists@.len(),
            forall|j: int| 0 <= j < i ==> !exists@[j],
        decreases exists@.len() - i,
    {
        if exists[i] {
            return Some(candidates[i].clone());
        }
        i = i + 1;
    }
    None
}

/// A configured path with a leading `~/` resolved against `home`.
pub open spec fn expanded(path: Seq<char>, home: Option<Seq<char>>) -> Seq<char> {
    if path.len() >= 2 && path[0] == '~' && path[1] == '/' && home is Some {
        joined(home.unwrap(), path.skip(2))
    } else {
        path
    }
}

/// Resolves a leading `~/` in `path` against the home directory `home`
/// (the value of `HOME`, if it is set).
pub fn expand_home(path: &str, home: Option<&str>) -> (p: String)
    ensures
        p@ == expanded(path@, match home { Some(h) => Some(h@), None => None }),
{
    let cs = chars_of(path);
    if cs.len() >= 2 && cs[0] == '~' && cs[1] == '/' {
        match home {
            Some(h) => {
                let rest = string_of(&cs, 2, cs.len());
                assert(cs@.subrange(2, cs@.len() as int) =~= path@.skip(2));
                return join_path(h, rest.as_str());
            },
            None => {},
        }
    }
    String::from_str(path)
}

/// Why no capture log could be found.
#[derive(Debug)]
pub enum ResolveError {
    /// No configuration file of the proxy exists.
    NoConfig,
    /// The configuration file at this path sets no `capture_log`.
    NoCaptureLog(String),
}

impl ResolveError {
    /// What to tell the user, including what to do about it.
    pub fn message(&self) -> (m: String)
        ensures
            m@ == match self {
                ResolveError::NoConfig => "no WraithFlow config found (checked $XDG_CONFIG_HOME/wraithflow, ~/.config/wraithflow, ./config.toml)"@,
                ResolveError::NoCaptureLog(p) => "WraithFlow config at "@ + p@
                    + " has no `capture_log` set — add e.g.\n  capture_log = \"~/.local/state/wraithflow/captures.jsonl\"\nand restart wraithflow before running echo"@,
            },
    {
        match self {
            ResolveError::NoConfig => String::from_str(
                "no WraithFlow config found (checked $XDG_CONFIG_HOME/wraithflow, ~/.config/wraithflow, ./config.toml)",
            ),
            ResolveError::NoCaptureLog(p) => {
                let mut m = String::from_str("WraithFlow config at ");
                m.append(p.as_str());
                m.append(
                    " has no `capture_log` set — add e.g.\n  capture_log = \"~/.local/state/wraithflow/captures.jsonl\"\nand restart wraithflow before running echo",
                );
                m
            },
        }
    }
}

/// The capture log to open: the path configured in the proxy's configuration
/// file `config` (`capture_log`, as read from that file), or why there is none.
pub fn resolve_capture_log_path(config: Option<String>, capture_log: Option<String>) -> (r: Result<String, ResolveError>)
    ensures
        match config {
            None => r matches Err(ResolveError::NoConfig),
            Some(c) => match capture_log {
                Some(p) => r == Ok::<String, ResolveError>(p),
                None => r matches Err(ResolveError::NoCaptureLog(q)) && q == c,
            },
        },
{
    match config {
        None => Err(ResolveError::NoConfig),
        Some(c) => match capture_log {
            Some(p) => Ok(p),
            None => Err(ResolveError::NoCaptureLog(c)),
        },
    }
}

/// The index of the last `c` in `s`, or -1 when there is none.
pub open spec fn last_index_of(s: Seq<char>, c: char) -> int
    decreases s.len(),
{
    if s.len() == 0 {
        -1
    } else if s.last() == c {
        s.len() - 1
    } else {
        last_index_of(s.drop_last(), c)
    }
}

/// The last index of `c` in `s` lies in `s` and holds `c`.
pub proof fn lemma_last_index_of(s: Seq<char>, c: char)
    ensures
        -1 <= last_index_of(s, c) < s.len(),
        last_index_of(s, c) >= 0 ==> s[last_index_of(s, c)] == c,
    decreases s.len(),
{
    if s.len() > 0 && s.last() != c {
        lemma_last_index_of(s.drop_last(), c);
    }
}

/// The file name of a Unix path (`Path::file_name`): its last component,
/// skipping empty components (repeated or trailing `/`) and `.`; none when
/// that last component is `..` or there is none.
pub open spec fn file_name_of(p: Seq<char>) -> Option<Seq<char>>
    decreases p.len(),
{
    let k = last_index_of(p, '/');
    let piece = p.skip(k + 1);
    if piece.len() == 0 || piece == "."@ {
        if k < 0 {
            None
        } else {
            proof {
                lemma_last_index_of(p, '/');
            }
            file_name_of(p.take(k))
        }
    } else if piece == ".."@ {
        None
    } else {
        Some(piece)
    }
}

/// What `Path::extension` gives for the Unix path `p`: the text after the
/// last `.` of its file name, none when the name has no `.` or its only `.`
/// leads it.
pub open spec fn path_extension(p: Seq<char>) -> Option<Seq<char>> {
    match file_name_of(p) {
        Some(name) => if last_index_of(name, '.') > 0 {
            Some(name.skip(last_index_of(name, '.') + 1))
        } else {
            None
        },
        None => None,
    }
}

/// Calls `std::path::Path::extension` on `path`; claims that the extension is
/// `path_extension` of it, which is how Unix paths split into components.
#[verifier::external_body]
fn extension_of(path: &str) -> (e: Option<String>)
    ensures
        match e {
            Some(x) => path_extension(path@) == Some(x@),
            None => path_extension(path@) is None,
        },
{
    std::path::Path::new(path).extension().and_then(|x| x.to_str()).map(|x| x.to_string())
}

/// Whether the configuration file at `path` is read as JSON (its extension is
/// `json`); any other file is read as TOML.
pub fn is_json_config(path: &str) -> (b: bool)
    ensures
        b == (path_extension(path@) == Some("json"@)),
{
    match extension_of(path) {
        Some(x) => same_text(x.as_str(), "json"),
        None => false,
    }
}

} // verus!
