//! Project listing records and the directory-name decoding helper.

use vstd::prelude::*;
use vstd::string::StrSliceExecFns;

verus! {

/// A project under the session root.
#[derive(Debug)]
pub struct Project {
    /// The project id, derived from the directory name.
    pub id: String,
    /// The original project path, decoded from the directory name.
    pub path: String,
    /// Session ids: transcript file names without their extension.
    pub sessions: Vec<String>,
    /// When the project directory was created, seconds since the epoch.
    pub created_at: u64,
    /// When the newest session was last written, seconds since the epoch.
    pub last_session_time: u64,
}

/// A project guidance file found under the project root.
#[derive(Debug)]
pub struct ClaudeMdFile {
    pub relative_path: String,
    pub absolute_path: String,
    pub size: u64,
    pub modified: u64,
}

/// A file or directory listing entry.
#[derive(Debug)]
pub struct FileEntry {
    pub name: String,
    pub path: String,
    pub is_directory: bool,
    pub size: u64,
    pub extension: Option<String>,
}

/// Dashes become path separators.
pub open spec fn decode_char(c: char) -> char {
    if c == '-' {
        '/'
    } else {
        c
    }
}

/// The decoded form of an encoded directory name.
pub open spec fn decode_spec(s: Seq<char>) -> Seq<char> {
    s.map_values(|c: char| decode_char(c))
}

/// Decodes a project directory name back to a path: every dash becomes a
/// separator. The encoding is not reversible when the original path held
/// dashes, so this is a fallback.
pub fn decode_project_path(encoded: &str) -> (r: String)
    ensures
        r@ == decode_spec(encoded@),
{
    let n = encoded.unicode_len();
    let mut out = String::new();
    let mut i: usize = 0;
    proof {
        assert(out@ =~= decode_spec(encoded@).take(0));
    }
    while i < n
        invariant
            n == encoded@.len(),
            i <= n,
            out@ == decode_spec(encoded@).take(i as int),
        decreases n - i,
    {
        let c = encoded.get_char(i);
        if c == '-' {
            out.append("/");
            proof {
                reveal_strlit("/");
                assert("/"@ =~= seq!['/']);
                assert(out@ =~= decode_spec(encoded@).take(i + 1));
            }
        } else {
            let piece = encoded.substring_char(i, i + 1);
            out.append(piece);
            proof {
                assert(piece@ =~= seq![encoded@[i as int]]);
                assert(out@ =~= decode_spec(encoded@).take(i + 1));
            }
        }
        i += 1;
    }
    proof {
        assert(decode_spec(encoded@).take(n as int) =~= decode_spec(encoded@));
    }
    out
}

} // verus!
