//! Coarse comparison of two checkpoints' file sets: which paths were
//! added, deleted, or modified, with whole-file line counts standing in
//! for true content diffs.

use vstd::prelude::*;
use crate::types::{CheckpointDiff, FileDiff, FileSnapshot};
use vstd::string::StrSliceExecFns;

verus! {

/// How many times `c` occurs in `s`.
pub open spec fn count_char(s: Seq<char>, c: char) -> nat
    decreases s.len(),
{
    if s.len() == 0 {
        0
    } else {
        count_char(s.drop_last(), c) + if s.last() == c {
            1nat
        } else {
            0nat
        }
    }
}

/// Lines of a text: newline-terminated pieces, plus a final unterminated
/// piece if the text does not end in a newline. Empty text has no lines.
pub open spec fn line_count(s: Seq<char>) -> nat {
    if s.len() == 0 {
        0
    } else {
        count_char(s, '\n') + if s.last() == '\n' {
            0nat
        } else {
            1nat
        }
    }
}

/// A character occurs at most once per position.
proof fn lemma_count_char_le_len(s: Seq<char>, c: char)
    ensures
        count_char(s, c) <= s.len(),
    decreases s.len(),
{
    if s.len() > 0 {
        lemma_count_char_le_len(s.drop_last(), c);
    }
}

/// Counts the lines of `s` as `line_count` defines them.
pub fn count_lines(s: &str) -> (r: u64)
    ensures
        r == line_count(s@),
{
    let n = s.unicode_len();
    let mut cnt: u64 = 0;
    let mut i: usize = 0;
    proof {
        assert(s@.take(0) =~= Seq::<char>::empty());
        lemma_count_char_le_len(s@, '\n');
    }
    while i < n
        invariant
            n == s@.len(),
            i <= n,
            cnt == count_char(s@.take(i as int), '\n'),
            cnt <= i,
        decreases n - i,
    {
        let c = s.get_char(i);
        proof {
            assert(s@.take(i + 1).drop_last() =~= s@.take(i as int));
            assert(s@.take(i + 1).last() == s@[i as int]);
        }
        if c == '\n' {
            cnt += 1;
        }
        i += 1;
    }
    proof {
        assert(s@.take(n as int) =~= s@);
    }
    if n == 0 {
        0
    } else {
        let last = s.get_char(n - 1);
        if last == '\n' {
            cnt
        } else {
            proof {
                lemma_count_char_le_len(s@, '\n');
                assert(count_char(s@, '\n') < s@.len()) by {
                    assert(s@.drop_last().len() == s@.len() - 1);
                    lemma_count_char_le_len(s@.drop_last(), '\n');
                }
            }
            cnt + 1
        }
    }
}

/// The views of a list of path strings.
pub open spec fn path_views(v: Seq<String>) -> Seq<Seq<char>> {
    v.map_values(|p: String| p@)
}

/// The paths of a list of snapshots.
pub open spec fn snap_paths(files: Seq<FileSnapshot>) -> Seq<Seq<char>> {
    files.map_values(|f: FileSnapshot| f.file_path@)
}

/// Some snapshot carries this path.
pub open spec fn has_path(files: Seq<FileSnapshot>, p: Seq<char>) -> bool {
    exists|i: int| 0 <= i < files.len() && (#[trigger] files[i]).file_path@ == p
}

/// The index of the snapshot with this path.
pub open spec fn snap_index(files: Seq<FileSnapshot>, p: Seq<char>) -> int {
    choose|i: int| 0 <= i < files.len() && (#[trigger] files[i]).file_path@ == p
}

/// The snapshot with this path.
pub open spec fn snap_for(files: Seq<FileSnapshot>, p: Seq<char>) -> FileSnapshot {
    files[snap_index(files, p)]
}

/// No two snapshots share a path.
pub open spec fn snap_paths_unique(files: Seq<FileSnapshot>) -> bool {
    forall|i: int, j: int|
        0 <= i < j < files.len() ==> (#[trigger] files[i]).file_path@ != (
        #[trigger] files[j]).file_path@
}

/// The paths deleted going from `from` to `to`: present before, gone after.
pub open spec fn deleted_of(from: Seq<FileSnapshot>, to: Seq<FileSnapshot>) -> Seq<
    FileSnapshot,
> {
    from.filter(|f: FileSnapshot| !has_path(to, f.file_path@))
}

/// The snapshots modified going from `from` to `to`: present in both, with
/// differing digests.
pub open spec fn modified_of(from: Seq<FileSnapshot>, to: Seq<FileSnapshot>) -> Seq<
    FileSnapshot,
> {
    from.filter(
        |f: FileSnapshot|
            has_path(to, f.file_path@) && snap_for(to, f.file_path@).hash@ != f.hash@,
    )
}

/// Unique paths pin the snapshot an index lookup finds.
pub proof fn lemma_snap_index(files: Seq<FileSnapshot>, i: int, p: Seq<char>)
    requires
        snap_paths_unique(files),
        0 <= i < files.len(),
        files[i].file_path@ == p,
    ensures
        has_path(files, p),
        snap_index(files, p) == i,
{
    assert(has_path(files, p));
    let j = snap_index(files, p);
    if i != j {
        assert(files[i].file_path@ != files[j].file_path@);
    }
}

/// Pushing a snapshot and its path keeps the path views aligned.
proof fn lemma_path_views_push(
    prev: Seq<String>,
    fprev: Seq<FileSnapshot>,
    v: Seq<String>,
    fv: Seq<FileSnapshot>,
    s: FileSnapshot,
)
    requires
        path_views(prev) == snap_paths(fprev),
        v == prev.push(s.file_path),
        fv == fprev.push(s),
    ensures
        path_views(v) == snap_paths(fv),
{
    assert(prev.len() == fprev.len()) by {
        assert(path_views(prev).len() == prev.len());
        assert(snap_paths(fprev).len() == fprev.len());
    }
    assert forall|x: int|
        0 <= x < fv.len() implies #[trigger] path_views(v)[x] == snap_paths(fv)[x] by {
        assert(prev.len() == fprev.len());
        if x < prev.len() {
            assert(prev.push(s.file_path)[x] == prev[x]);
            assert(fprev.push(s)[x] == fprev[x]);
            assert(path_views(prev)[x] == snap_paths(fprev)[x]);
        } else {
            assert(prev.push(s.file_path)[x] == s.file_path);
            assert(fprev.push(s)[x] == s);
        }
    }
    assert(path_views(v) =~= snap_paths(fv));
}

/// Looks up the snapshot index for a path.
fn find_snap(files: &Vec<FileSnapshot>, p: &String) -> (r: Option<usize>)
    ensures
        match r {
            Some(i) => i < files@.len() && files@[i as int].file_path@ == p@,
            None => !has_path(files@, p@),
        },
{
    let n = files.len();
    let mut i: usize = 0;
    while i < n
        invariant
            n == files@.len(),
            i <= n,
            forall|j: int| 0 <= j < i ==> (#[trigger] files@[j]).file_path@ != p@,
        decreases n - i,
    {
        if crate::strutil::str_eq(files[i].file_path.as_str(), p.as_str()) {
            return Some(i);
        }
        i += 1;
    }
    None
}

/// Compares two file sets: a path only in `from` is deleted, one only in
/// `to` is added, one in both with different digests is modified — with
/// the old and new whole-file line counts as deletions and additions. A
/// path in both with equal digests appears nowhere. The token delta is the
/// exact signed difference.
pub fn compute_diff(
    from_id: &String,
    to_id: &String,
    from_files: &Vec<FileSnapshot>,
    to_files: &Vec<FileSnapshot>,
    from_tokens: u64,
    to_tokens: u64,
) -> (r: CheckpointDiff)
    requires
        snap_paths_unique(from_files@),
        snap_paths_unique(to_files@),
    ensures
        r.from_checkpoint_id == *from_id,
        r.to_checkpoint_id == *to_id,
        r.token_delta == to_tokens as i128 - from_tokens as i128,
        path_views(r.deleted_files@) == snap_paths(deleted_of(from_files@, to_files@)),
        path_views(r.added_files@) == snap_paths(deleted_of(to_files@, from_files@)),
        r.modified_files@.len() == modified_of(from_files@, to_files@).len(),
        forall|x: int|
            0 <= x < r.modified_files@.len() ==> {
                let f = modified_of(from_files@, to_files@)[x];
                &&& (#[trigger] r.modified_files@[x]).path@ == f.file_path@
                &&& r.modified_files@[x].deletions == line_count(f.content@)
                &&& r.modified_files@[x].additions == line_count(
                    snap_for(to_files@, f.file_path@).content@,
                )
            },
{
    let n = from_files.len();
    let mut modified: Vec<FileDiff> = Vec::new();
    let mut deleted: Vec<String> = Vec::new();
    let ghost del_pred = |f: FileSnapshot| !has_path(to_files@, f.file_path@);
    let ghost mod_pred = |f: FileSnapshot|
        has_path(to_files@, f.file_path@) && snap_for(to_files@, f.file_path@).hash@
            != f.hash@;
    let mut i: usize = 0;
    proof {
        reveal_with_fuel(Seq::filter, 2);
        assert(from_files@.take(0) =~= Seq::<FileSnapshot>::empty());
    }
    while i < n
        invariant
            del_pred == (|f: FileSnapshot| !has_path(to_files@, f.file_path@)),
            mod_pred == (|f: FileSnapshot|
                has_path(to_files@, f.file_path@) && snap_for(to_files@, f.file_path@).hash@
                    != f.hash@),
            snap_paths_unique(to_files@),
            n == from_files@.len(),
            i <= n,
            path_views(deleted@) == snap_paths(from_files@.take(i as int).filter(del_pred)),
            modified@.len() == from_files@.take(i as int).filter(mod_pred).len(),
            forall|x: int|
                0 <= x < modified@.len() ==> {
                    let f = from_files@.take(i as int).filter(mod_pred)[x];
                    &&& (#[trigger] modified@[x]).path@ == f.file_path@
                    &&& modified@[x].deletions == line_count(f.content@)
                    &&& modified@[x].additions == line_count(
                        snap_for(to_files@, f.file_path@).content@,
                    )
                },
        decreases n - i,
    {
        let ghost taken = from_files@.take(i + 1);
        proof {
            reveal_with_fuel(Seq::filter, 2);
            assert(taken.drop_last() =~= from_files@.take(i as int));
            assert(taken.last() == from_files@[i as int]);
        }
        let f = &from_files[i];
        match find_snap(to_files, &f.file_path) {
            Some(j) => {
                proof {
                    lemma_snap_index(to_files@, j as int, f.file_path@);
                }
                if !crate::strutil::str_eq(to_files[j].hash.as_str(), f.hash.as_str()) {
                    let additions = count_lines(to_files[j].content.as_str());
                    let deletions = count_lines(f.content.as_str());
                    let ghost prev = modified@;
                    modified.push(
                        FileDiff { path: f.file_path.clone(), additions, deletions },
                    );
                    proof {
                        reveal_with_fuel(Seq::filter, 2);
                        assert(mod_pred(from_files@[i as int]));
                        assert(taken.filter(mod_pred) == from_files@.take(i as int).filter(
                            mod_pred,
                        ).push(from_files@[i as int]));
                        assert(forall|x: int|
                            0 <= x < prev.len() ==> #[trigger] modified@[x] == prev[x]);
                    }
                } else {
                    proof {
                        reveal_with_fuel(Seq::filter, 2);
                        assert(!mod_pred(from_files@[i as int]));
                        assert(!del_pred(from_files@[i as int]));
                    }
                }
            },
            None => {
                let ghost prev = deleted@;
                deleted.push(f.file_path.clone());
                proof {
                    reveal_with_fuel(Seq::filter, 2);
                    assert(del_pred(from_files@[i as int]));
                    assert(!mod_pred(from_files@[i as int]));
                    assert(taken.filter(del_pred) == from_files@.take(i as int).filter(
                        del_pred,
                    ).push(from_files@[i as int]));
                    lemma_path_views_push(
                        prev,
                        from_files@.take(i as int).filter(del_pred),
                        deleted@,
                        taken.filter(del_pred),
                        from_files@[i as int],
                    );
                }
            },
        }
        proof {
            reveal_with_fuel(Seq::filter, 2);
            assert(path_views(deleted@) == snap_paths(taken.filter(del_pred)));
        }
        i += 1;
    }
    proof {
        assert(from_files@.take(n as int) =~= from_files@);
    }
    // Added files: paths of `to` that `from` does not carry.
    let m = to_files.len();
    let mut added: Vec<String> = Vec::new();
    let ghost add_pred = |f: FileSnapshot| !has_path(from_files@, f.file_path@);
    let mut j: usize = 0;
    proof {
        reveal_with_fuel(Seq::filter, 2);
        assert(to_files@.take(0) =~= Seq::<FileSnapshot>::empty());
    }
    while j < m
        invariant
            add_pred == (|f: FileSnapshot| !has_path(from_files@, f.file_path@)),
            m == to_files@.len(),
            j <= m,
            path_views(added@) == snap_paths(to_files@.take(j as int).filter(add_pred)),
        decreases m - j,
    {
        let ghost taken = to_files@.take(j + 1);
        proof {
            reveal_with_fuel(Seq::filter, 2);
            assert(taken.drop_last() =~= to_files@.take(j as int));
            assert(taken.last() == to_files@[j as int]);
        }
        let f = &to_files[j];
        let ghost prev_added = added@;
        if find_snap(from_files, &f.file_path).is_none() {
            added.push(f.file_path.clone());
            proof {
                reveal_with_fuel(Seq::filter, 2);
                assert(add_pred(to_files@[j as int]));
                assert(taken.filter(add_pred) == to_files@.take(j as int).filter(
                    add_pred,
                ).push(to_files@[j as int]));
                lemma_path_views_push(
                    prev_added,
                    to_files@.take(j as int).filter(add_pred),
                    added@,
                    taken.filter(add_pred),
                    to_files@[j as int],
                );
            }
        } else {
            proof {
                reveal_with_fuel(Seq::filter, 2);
                assert(!add_pred(to_files@[j as int]));
                assert(taken.filter(add_pred) == to_files@.take(j as int).filter(add_pred));
            }
        }
        j += 1;
    }
    proof {
        assert(to_files@.take(m as int) =~= to_files@);
    }
    let token_delta: i128 = to_tokens as i128 - from_tokens as i128;
    CheckpointDiff {
        from_checkpoint_id: from_id.clone(),
        to_checkpoint_id: to_id.clone(),
        modified_files: modified,
        added_files: added,
        deleted_files: deleted,
        token_delta,
    }
}

} // verus!
