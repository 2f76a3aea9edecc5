//! Usage-scan helpers: which files a scan skips, and the stable keys
//! under which usage entries are deduplicated.

use vstd::prelude::*;
use vstd::string::StrSliceExecFns;
use crate::strutil::{push_str, str_eq};

verus! {

/// One usage entry as the scanners read it off a transcript line.
#[derive(Debug)]
pub struct UsageEntry {
    pub session_id: String,
    pub timestamp: String,
    pub model: String,
    pub project_path: String,
}

/// Whether `p` starts `s`.
pub fn str_starts_with(s: &str, p: &str) -> (r: bool)
    ensures
        r == p@.is_prefix_of(s@),
{
    let pl = p.unicode_len();
    if pl > s.unicode_len() {
        return false;
    }
    let head = s.substring_char(0, pl);
    let r = str_eq(head, p);
    proof {
        assert(s@.subrange(0, pl as int) =~= s@.take(pl as int));
        if r {
            assert(p@.is_prefix_of(s@));
        } else {
            assert(!p@.is_prefix_of(s@));
        }
    }
    r
}

/// Whether `p` ends `s`.
pub fn str_ends_with(s: &str, p: &str) -> (r: bool)
    ensures
        r == p@.is_suffix_of(s@),
{
    let pl = p.unicode_len();
    let sl = s.unicode_len();
    if pl > sl {
        return false;
    }
    let tail = s.substring_char(sl - pl, sl);
    let r = str_eq(tail, p);
    proof {
        assert(s@.subrange(s@.len() - pl, s@.len() as int) =~= s@.skip(s@.len() - pl));
        if r {
            assert(p@.is_suffix_of(s@));
        } else {
            assert(!p@.is_suffix_of(s@));
        }
    }
    r
}

/// What a scan skips: the conventional dependency and build directories,
/// lock files, and any caller-supplied prefix.
pub open spec fn should_exclude_spec(rel: Seq<char>, excludes: Seq<String>) -> bool {
    ||| "node_modules/"@.is_prefix_of(rel)
    ||| "dist/"@.is_prefix_of(rel)
    ||| "target/"@.is_prefix_of(rel)
    ||| ".git/"@.is_prefix_of(rel)
    ||| ".lock"@.is_suffix_of(rel)
    ||| exists|k: int| 0 <= k < excludes.len() && (#[trigger] excludes[k])@.is_prefix_of(rel)
}

/// Whether a scan skips this relative path.
pub fn should_exclude(rel: &str, excludes: &Vec<String>) -> (r: bool)
    ensures
        r == should_exclude_spec(rel@, excludes@),
{
    if str_starts_with(rel, "node_modules/") || str_starts_with(rel, "dist/") || str_starts_with(
        rel,
        "target/",
    ) || str_starts_with(rel, ".git/") || str_ends_with(rel, ".lock") {
        return true;
    }
    let n = excludes.len();
    let mut k: usize = 0;
    while k < n
        invariant
            n == excludes@.len(),
            k <= n,
            forall|j: int| 0 <= j < k ==> !(#[trigger] excludes@[j])@.is_prefix_of(rel@),
        decreases n - k,
    {
        if str_starts_with(rel, excludes[k].as_str()) {
            return true;
        }
        k += 1;
    }
    false
}

/// The deduplication key of a usage entry: keyed by session, time and
/// model when it carries input/output tokens; by time, model and project
/// when only cache tokens; by time and session otherwise.
pub fn generate_unique_hash(entry: &UsageEntry, has_io_tokens: bool, has_cache_tokens: bool) -> (r:
    String)
    ensures
        has_io_tokens ==> r@ == "io:"@ + entry.session_id@ + ":"@ + entry.timestamp@ + ":"@
            + entry.model@,
        !has_io_tokens && has_cache_tokens ==> r@ == "cache:"@ + entry.timestamp@ + ":"@
            + entry.model@ + ":"@ + entry.project_path@,
        !has_io_tokens && !has_cache_tokens ==> r@ == "other:"@ + entry.timestamp@ + ":"@
            + entry.session_id@,
{
    if has_io_tokens {
        let mut s = "io:".to_owned();
        push_str(&mut s, entry.session_id.as_str());
        push_str(&mut s, ":");
        push_str(&mut s, entry.timestamp.as_str());
        push_str(&mut s, ":");
        push_str(&mut s, entry.model.as_str());
        s
    } else if has_cache_tokens {
        let mut s = "cache:".to_owned();
        push_str(&mut s, entry.timestamp.as_str());
        push_str(&mut s, ":");
        push_str(&mut s, entry.model.as_str());
        push_str(&mut s, ":");
        push_str(&mut s, entry.project_path.as_str());
        s
    } else {
        let mut s = "other:".to_owned();
        push_str(&mut s, entry.timestamp.as_str());
        push_str(&mut s, ":");
        push_str(&mut s, entry.session_id.as_str());
        s
    }
}

} // verus!
