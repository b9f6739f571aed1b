//! The backend process manager's pure half: where the backend executable is
//! expected, what the handshake file is called, how the backend's invocation
//! (arguments and environment) is put together, and the precondition check
//! before a spawn is attempted. The host side performs the actual file-system
//! probes and the spawn.

use vstd::prelude::*;
use crate::errors::SetupError;

verus! {

/// The expected location of the backend binary: a fixed file name beside the
/// launcher's own executable.
pub fn backend_exe_path(exe_dir: &str) -> (r: String)
    ensures
        r@ == exe_dir@ + "/"@ + "mvp_backend.exe"@,
{
    let mut s = exe_dir.to_owned();
    s.append("/");
    s.append("mvp_backend.exe");
    s
}

/// The handshake file path for one launch attempt with the given unique
/// identifier, under the application data directory.
pub open spec fn handshake_path_spec(data_dir: Seq<char>, id: Seq<char>) -> Seq<char> {
    data_dir + "/"@ + "backend-port-"@ + id + ".json"@
}

/// Builds the handshake file path from a data directory and an identifier.
pub fn handshake_file_path(data_dir: &str, id: &str) -> (r: String)
    ensures
        r@ == handshake_path_spec(data_dir@, id@),
{
    let mut s = data_dir.to_owned();
    s.append("/");
    s.append("backend-port-");
    s.append(id);
    s.append(".json");
    s
}

/// Relies on `uuid::Uuid::new_v4` and its hyphenated rendering: a fresh
/// random version-4 UUID, formatted as 36 ASCII characters. Nothing further
/// can be promised of a random value.
#[verifier::external_body]
fn fresh_launch_id() -> (r: String)
    ensures
        r@.len() == 36,
{
    uuid::Uuid::new_v4().to_string()
}

/// A handshake file path unique to this launch attempt: the fixed prefix and
/// suffix around a freshly drawn 36-character identifier, so that no two
/// attempts (and no stale file of an earlier run) share a path.
pub fn fresh_handshake_file_path(data_dir: &str) -> (r: String)
    ensures
        exists|id: Seq<char>| id.len() == 36 && r@ == handshake_path_spec(data_dir@, id),
{
    let id = fresh_launch_id();
    let r = handshake_file_path(data_dir, id.as_str());
    proof {
        assert(id@.len() == 36 && r@ == handshake_path_spec(data_dir@, id@));
    }
    r
}

/// The temporary sibling that a hardened write goes to before being renamed
/// into place: the path with its file name's extension replaced by `tmp`, or
/// with `.tmp` appended when the file name has no extension. A leading dot
/// (a hidden file) does not count as an extension, and a dot in an earlier
/// path component does not either.
pub open spec fn tmp_sibling_spec(p: Seq<char>) -> Seq<char> {
    let name_start: int = match last_before(p, '/', p.len() as int) {
        Some(k) => k + 1,
        None => 0,
    };
    let stem_end: int = match last_before(p, '.', p.len() as int) {
        Some(d) => if d > name_start {
            d
        } else {
            p.len() as int
        },
        None => p.len() as int,
    };
    p.subrange(0, stem_end) + ".tmp"@
}

/// The last index before `j` holding `c`, if any.
pub open spec fn last_before(s: Seq<char>, c: char, j: int) -> Option<int>
    decreases j,
{
    if j <= 0 {
        None
    } else if s[j - 1] == c {
        Some(j - 1)
    } else {
        last_before(s, c, j - 1)
    }
}

fn last_before_x(s: &str, c: char, j: usize) -> (r: Option<usize>)
    requires
        j <= s@.len(),
    ensures
        match r {
            Some(k) => last_before(s@, c, j as int) == Some(k as int) && k < j,
            None => last_before(s@, c, j as int) is None,
        },
    decreases j,
{
    if j == 0 {
        None
    } else if s.get_char(j - 1) == c {
        Some(j - 1)
    } else {
        last_before_x(s, c, j - 1)
    }
}

/// Derives the temporary sibling path a write-then-rename goes through.
pub fn tmp_sibling_path(path: &str) -> (r: String)
    ensures
        r@ == tmp_sibling_spec(path@),
{
    let n = path.unicode_len();
    let name_start = match last_before_x(path, '/', n) {
        Some(k) => k + 1,
        None => 0,
    };
    let stem_end = match last_before_x(path, '.', n) {
        Some(d) => if d > name_start {
            d
        } else {
            n
        },
        None => n,
    };
    let mut s = path.substring_char(0, stem_end).to_owned();
    s.append(".tmp");
    s
}

/// Everything the backend is started with: its executable, the host literal
/// it must bind, the handshake file it must write, and the data directory it
/// is told about. Built once per launch; never persisted.
pub struct BackendInvocation {
    pub exe_path: String,
    pub host: String,
    pub handshake_path: String,
    pub data_dir: String,
}

impl BackendInvocation {
    /// Puts an invocation together; the bound host is always the loopback
    /// literal.
    pub fn new(exe_path: String, handshake_path: String, data_dir: String) -> (r: Self)
        ensures
            r.exe_path == exe_path,
            r.host@ == "127.0.0.1"@,
            r.handshake_path == handshake_path,
            r.data_dir == data_dir,
    {
        BackendInvocation {
            exe_path,
            host: "127.0.0.1".to_owned(),
            handshake_path,
            data_dir,
        }
    }

    /// The backend's command line: `--host <host> --port-file <path>`.
    pub fn args(&self) -> (r: Vec<String>)
        ensures
            r@.len() == 4,
            r@[0]@ == "--host"@,
            r@[1]@ == self.host@,
            r@[2]@ == "--port-file"@,
            r@[3]@ == self.handshake_path@,
    {
        let mut v: Vec<String> = Vec::new();
        v.push("--host".to_owned());
        v.push(self.host.clone());
        v.push("--port-file".to_owned());
        v.push(self.handshake_path.clone());
        v
    }

    /// The environment variable handed to the backend: the data directory
    /// under its well-known name.
    pub fn env_var(&self) -> (r: (String, String))
        ensures
            r.0@ == "MVP_DATA_DIR"@,
            r.1@ == self.data_dir@,
    {
        ("MVP_DATA_DIR".to_owned(), self.data_dir.clone())
    }
}

/// The precondition check before a spawn: a backend reported absent at its
/// expected path is a fatal missing-backend error naming that path; a present
/// one clears the check. Nothing is retried either way.
pub fn check_backend_present(path: &str, present: bool) -> (r: Result<(), SetupError>)
    ensures
        r is Ok <==> present,
        r matches Err(e) ==> e matches SetupError::MissingBackend { path: p } && p@ == path@,
{
    if present {
        Ok(())
    } else {
        Err(SetupError::MissingBackend { path: path.to_owned() })
    }
}

} // verus!
