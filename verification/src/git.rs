//! Git working-tree status: the record types and a verified parser for
//! the porcelain v1 status listing. Running git itself is process work
//! and lives with the application.

use vstd::prelude::*;
use vstd::string::StrSliceExecFns;

verus! {

/// A repository's status summary.
#[derive(Debug)]
pub struct GitStatus {
    pub branch: String,
    pub ahead: u32,
    pub behind: u32,
    pub staged: Vec<GitFileStatus>,
    pub modified: Vec<GitFileStatus>,
    pub untracked: Vec<GitFileStatus>,
    pub conflicted: Vec<GitFileStatus>,
    pub is_clean: bool,
    pub remote_url: Option<String>,
}

/// One file's status: its path, a status word, and whether it is staged.
#[derive(Debug)]
pub struct GitFileStatus {
    pub path: String,
    pub status: String,
    pub staged: bool,
}

/// One commit of the history listing.
#[derive(Debug)]
pub struct GitCommit {
    pub hash: String,
    pub short_hash: String,
    pub author: String,
    pub email: String,
    pub date: String,
    pub message: String,
    pub files_changed: u32,
    pub insertions: u32,
    pub deletions: u32,
}

/// One branch of the branch listing.
#[derive(Debug)]
pub struct GitBranch {
    pub name: String,
    pub is_current: bool,
    pub remote: Option<String>,
    pub last_commit: Option<String>,
}

/// The whitespace the parser trims around paths.
pub open spec fn is_ws(c: char) -> bool {
    c == ' ' || c == '\t' || c == '\r'
}

/// `s` without leading whitespace.
pub open spec fn trim_front(s: Seq<char>) -> Seq<char>
    decreases s.len(),
{
    if s.len() > 0 && is_ws(s[0]) {
        trim_front(s.skip(1))
    } else {
        s
    }
}

/// `s` without trailing whitespace.
pub open spec fn trim_back(s: Seq<char>) -> Seq<char>
    decreases s.len(),
{
    if s.len() > 0 && is_ws(s.last()) {
        trim_back(s.drop_last())
    } else {
        s
    }
}

/// `s` without whitespace at either end.
pub open spec fn trim_spec(s: Seq<char>) -> Seq<char> {
    trim_back(trim_front(s))
}

/// A line piece with one trailing carriage return removed.
pub open spec fn strip_cr(s: Seq<char>) -> Seq<char> {
    if s.len() > 0 && s.last() == '\r' {
        s.drop_last()
    } else {
        s
    }
}

/// Splits text into lines at newlines, with `cur` the piece read so far: a
/// trailing empty piece is dropped, a carriage return before each newline
/// is stripped.
pub open spec fn split_acc(s: Seq<char>, cur: Seq<char>) -> Seq<Seq<char>>
    decreases s.len(),
{
    if s.len() == 0 {
        if cur.len() == 0 {
            Seq::empty()
        } else {
            seq![cur]
        }
    } else if s[0] == '\n' {
        seq![strip_cr(cur)] + split_acc(s.skip(1), Seq::empty())
    } else {
        split_acc(s.skip(1), cur.push(s[0]))
    }
}

/// The lines of `s`.
pub open spec fn lines_spec(s: Seq<char>) -> Seq<Seq<char>> {
    split_acc(s, Seq::empty())
}

/// The view of one parsed file status.
pub open spec fn gfs_view(g: GitFileStatus) -> (Seq<char>, Seq<char>, bool) {
    (g.path@, g.status@, g.staged)
}

/// What one status line contributes to the staged list.
pub open spec fn staged_entries(line: Seq<char>) -> Seq<(Seq<char>, Seq<char>, bool)> {
    if line.len() < 3 {
        Seq::empty()
    } else {
        let code = line.take(2);
        let path = trim_spec(line.skip(3));
        if code == "MM"@ {
            seq![(path, "modified"@, true)]
        } else if code == "A "@ || code == "AM"@ {
            seq![(path, "added"@, true)]
        } else if code == "D "@ {
            seq![(path, "deleted"@, true)]
        } else if code == "R "@ {
            seq![(path, "renamed"@, true)]
        } else {
            Seq::empty()
        }
    }
}

/// What one status line contributes to the modified list.
pub open spec fn modified_entries(line: Seq<char>) -> Seq<(Seq<char>, Seq<char>, bool)> {
    if line.len() < 3 {
        Seq::empty()
    } else {
        let code = line.take(2);
        let path = trim_spec(line.skip(3));
        if code == "M "@ || code == " M"@ || code == "MM"@ {
            seq![(path, "modified"@, false)]
        } else if code == " D"@ {
            seq![(path, "deleted"@, false)]
        } else {
            Seq::empty()
        }
    }
}

/// What one status line contributes to the untracked list.
pub open spec fn untracked_entries(line: Seq<char>) -> Seq<(Seq<char>, Seq<char>, bool)> {
    if line.len() < 3 {
        Seq::empty()
    } else if line.take(2) == "??"@ {
        seq![(trim_spec(line.skip(3)), "untracked"@, false)]
    } else {
        Seq::empty()
    }
}

/// What one status line contributes to the conflicted list.
pub open spec fn conflicted_entries(line: Seq<char>) -> Seq<(Seq<char>, Seq<char>, bool)> {
    if line.len() < 3 {
        Seq::empty()
    } else {
        let code = line.take(2);
        if code == "UU"@ || code == "AA"@ || code == "DD"@ {
            seq![(trim_spec(line.skip(3)), "conflicted"@, false)]
        } else {
            Seq::empty()
        }
    }
}

/// One category's entries over a whole listing.
pub open spec fn entries_over(
    lines: Seq<Seq<char>>,
    per_line: spec_fn(Seq<char>) -> Seq<(Seq<char>, Seq<char>, bool)>,
) -> Seq<(Seq<char>, Seq<char>, bool)>
    decreases lines.len(),
{
    if lines.len() == 0 {
        Seq::empty()
    } else {
        entries_over(lines.drop_last(), per_line) + per_line(lines.last())
    }
}

/// The views of parsed statuses.
pub open spec fn gfs_views(v: Seq<GitFileStatus>) -> Seq<(Seq<char>, Seq<char>, bool)> {
    v.map_values(|g: GitFileStatus| gfs_view(g))
}

/// Trims whitespace from both ends.
fn trim_chars(s: &str) -> (r: String)
    ensures
        r@ == trim_spec(s@),
{
    let n = s.unicode_len();
    let mut start: usize = 0;
    proof {
        assert(s@.skip(0) =~= s@);
    }
    while start < n && (s.get_char(start) == ' ' || s.get_char(start) == '\t' || s.get_char(start)
        == '\r')
        invariant
            n == s@.len(),
            start <= n,
            trim_front(s@) == trim_front(s@.skip(start as int)),
        decreases n - start,
    {
        proof {
            assert(s@.skip(start as int)[0] == s@[start as int]);
            assert(s@.skip(start as int).skip(1) =~= s@.skip(start + 1));
        }
        start += 1;
    }
    proof {
        if start < n {
            assert(s@.skip(start as int)[0] == s@[start as int]);
        }
        assert(trim_front(s@) == s@.skip(start as int));
    }
    let mut end: usize = n;
    while end > start && (s.get_char(end - 1) == ' ' || s.get_char(end - 1) == '\t' || s.get_char(
        end - 1,
    ) == '\r')
        invariant
            n == s@.len(),
            start <= end <= n,
            trim_front(s@) == s@.skip(start as int),
            trim_back(s@.subrange(start as int, n as int)) == trim_back(
                s@.subrange(start as int, end as int),
            ),
        decreases end,
    {
        proof {
            let sub = s@.subrange(start as int, end as int);
            assert(sub.last() == s@[end - 1]);
            assert(sub.drop_last() =~= s@.subrange(start as int, end - 1));
        }
        end -= 1;
    }
    proof {
        let sub = s@.subrange(start as int, end as int);
        if end > start {
            assert(sub.last() == s@[end - 1]);
        }
        assert(trim_back(sub) == sub);
        assert(s@.skip(start as int).subrange(0, n - start) =~= s@.skip(start as int));
        assert(s@.subrange(start as int, n as int) =~= s@.skip(start as int));
    }
    let piece = s.substring_char(start, end);
    piece.to_owned()
}

/// Splits text into lines, as `lines_spec` lays it out.
fn split_lines(s: &str) -> (r: Vec<String>)
    ensures
        r@.map_values(|p: String| p@) == lines_spec(s@),
{
    let n = s.unicode_len();
    let mut out: Vec<String> = Vec::new();
    let mut start: usize = 0;
    let mut i: usize = 0;
    proof {
        assert(s@.subrange(0, 0) =~= Seq::<char>::empty());
        assert(s@.skip(0) =~= s@);
        assert(out@.map_values(|p: String| p@) + split_acc(s@, Seq::<char>::empty())
            =~= split_acc(s@, Seq::<char>::empty()));
    }
    while i < n
        invariant
            n == s@.len(),
            start <= i <= n,
            out@.map_values(|p: String| p@) + split_acc(
                s@.skip(i as int),
                s@.subrange(start as int, i as int),
            ) == lines_spec(s@),
        decreases n - i,
    {
        let c = s.get_char(i);
        proof {
            assert(s@.skip(i as int)[0] == s@[i as int]);
            assert(s@.skip(i as int).skip(1) =~= s@.skip(i + 1));
        }
        if c == '\n' {
            let ghost cur = s@.subrange(start as int, i as int);
            let mut stop = i;
            if stop > start && s.get_char(stop - 1) == '\r' {
                stop = stop - 1;
            }
            proof {
                assert(s@.subrange(start as int, stop as int) =~= strip_cr(cur));
            }
            let piece = s.substring_char(start, stop);
            let ghost prev = out@.map_values(|p: String| p@);
            out.push(piece.to_owned());
            start = i + 1;
            proof {
                assert(out@.map_values(|p: String| p@) =~= prev.push(strip_cr(cur)));
                assert(prev.push(strip_cr(cur)) + split_acc(
                    s@.skip(i + 1),
                    Seq::<char>::empty(),
                ) =~= prev + (seq![strip_cr(cur)] + split_acc(s@.skip(i + 1), Seq::empty())));
                assert(s@.subrange(i + 1, i + 1) =~= Seq::<char>::empty());
            }
        } else {
            proof {
                assert(s@.subrange(start as int, i as int).push(s@[i as int]) =~= s@.subrange(
                    start as int,
                    i + 1,
                ));
            }
        }
        i += 1;
    }
    proof {
        assert(s@.skip(n as int) =~= Seq::<char>::empty());
    }
    if start < n {
        let piece = s.substring_char(start, n);
        let ghost prev = out@.map_values(|p: String| p@);
        out.push(piece.to_owned());
        proof {
            assert(s@.subrange(start as int, n as int).len() > 0);
            assert(out@.map_values(|p: String| p@) =~= prev.push(
                s@.subrange(start as int, n as int),
            ));
            assert(out@.map_values(|p: String| p@) =~= lines_spec(s@));
        }
    } else {
        proof {
            assert(s@.subrange(start as int, n as int) =~= Seq::<char>::empty());
            assert(out@.map_values(|p: String| p@) + Seq::<Seq<char>>::empty() =~= out@.map_values(
                |p: String| p@,
            ));
            assert(out@.map_values(|p: String| p@) =~= lines_spec(s@));
        }
    }
    out
}

/// Parses a porcelain v1 status listing into the staged, modified,
/// untracked and conflicted entries, in listing order. A line shorter than
/// three characters contributes nothing; `MM` contributes to both the
/// staged and the modified list.
pub fn parse_git_status(status_text: &str) -> (r: (
    Vec<GitFileStatus>,
    Vec<GitFileStatus>,
    Vec<GitFileStatus>,
    Vec<GitFileStatus>,
))
    ensures
        gfs_views(r.0@) == entries_over(lines_spec(status_text@), |l: Seq<char>| staged_entries(l)),
        gfs_views(r.1@) == entries_over(
            lines_spec(status_text@),
            |l: Seq<char>| modified_entries(l),
        ),
        gfs_views(r.2@) == entries_over(
            lines_spec(status_text@),
            |l: Seq<char>| untracked_entries(l),
        ),
        gfs_views(r.3@) == entries_over(
            lines_spec(status_text@),
            |l: Seq<char>| conflicted_entries(l),
        ),
{
    let lines = split_lines(status_text);
    let ghost lviews = lines@.map_values(|p: String| p@);
    let ghost st_f = |l: Seq<char>| staged_entries(l);
    let ghost mo_f = |l: Seq<char>| modified_entries(l);
    let ghost un_f = |l: Seq<char>| untracked_entries(l);
    let ghost co_f = |l: Seq<char>| conflicted_entries(l);
    let mut staged: Vec<GitFileStatus> = Vec::new();
    let mut modified: Vec<GitFileStatus> = Vec::new();
    let mut untracked: Vec<GitFileStatus> = Vec::new();
    let mut conflicted: Vec<GitFileStatus> = Vec::new();
    let n = lines.len();
    let mut i: usize = 0;
    while i < n
        invariant
            st_f == (|l: Seq<char>| staged_entries(l)),
            mo_f == (|l: Seq<char>| modified_entries(l)),
            un_f == (|l: Seq<char>| untracked_entries(l)),
            co_f == (|l: Seq<char>| conflicted_entries(l)),
            lviews == lines@.map_values(|p: String| p@),
            n == lines@.len(),
            i <= n,
            gfs_views(staged@) == entries_over(lviews.take(i as int), st_f),
            gfs_views(modified@) == entries_over(lviews.take(i as int), mo_f),
            gfs_views(untracked@) == entries_over(lviews.take(i as int), un_f),
            gfs_views(conflicted@) == entries_over(lviews.take(i as int), co_f),
        decreases n - i,
    {
        let line = &lines[i];
        let ghost lv = lviews[i as int];
        proof {
            assert(lviews.take(i + 1).drop_last() =~= lviews.take(i as int));
            assert(lviews.take(i + 1).last() == lv);
            assert(lv == line@);
        }
        let len = line.as_str().unicode_len();
        if len >= 3 {
            let c0 = line.as_str().get_char(0);
            let c1 = line.as_str().get_char(1);
            let path = trim_chars(line.as_str().substring_char(3, len));
            proof {
                assert(line@.skip(3) =~= line@.subrange(3, line@.len() as int));
                assert(lv.take(2) =~= seq![c0, c1]);
                reveal_strlit("MM");
                reveal_strlit("A ");
                reveal_strlit("AM");
                reveal_strlit("D ");
                reveal_strlit(" D");
                reveal_strlit("R ");
                reveal_strlit("M ");
                reveal_strlit(" M");
                reveal_strlit("??");
                reveal_strlit("UU");
                reveal_strlit("AA");
                reveal_strlit("DD");
            }
            if c0 == 'M' && c1 == ' ' {
                proof {
                    assert(lv.take(2) =~= "M "@);
                }
                modified.push(
                    GitFileStatus { path, status: "modified".to_owned(), staged: false },
                );
                proof {
                    assert(gfs_views(modified@) =~= entries_over(lviews.take(i + 1), mo_f));
                }
            } else if c0 == ' ' && c1 == 'M' {
                proof {
                    assert(lv.take(2) =~= " M"@);
                }
                modified.push(
                    GitFileStatus { path, status: "modified".to_owned(), staged: false },
                );
                proof {
                    assert(gfs_views(modified@) =~= entries_over(lviews.take(i + 1), mo_f));
                }
            } else if c0 == 'M' && c1 == 'M' {
                proof {
                    assert(lv.take(2) =~= "MM"@);
                }
                staged.push(
                    GitFileStatus { path: path.clone(), status: "modified".to_owned(), staged: true },
                );
                modified.push(
                    GitFileStatus { path, status: "modified".to_owned(), staged: false },
                );
                proof {
                    assert(gfs_views(staged@) =~= entries_over(lviews.take(i + 1), st_f));
                    assert(gfs_views(modified@) =~= entries_over(lviews.take(i + 1), mo_f));
                }
            } else if (c0 == 'A' && c1 == ' ') || (c0 == 'A' && c1 == 'M') {
                proof {
                    if c1 == ' ' {
                        assert(lv.take(2) =~= "A "@);
                    } else {
                        assert(lv.take(2) =~= "AM"@);
                    }
                }
                staged.push(GitFileStatus { path, status: "added".to_owned(), staged: true });
                proof {
                    assert(gfs_views(staged@) =~= entries_over(lviews.take(i + 1), st_f));
                }
            } else if c0 == 'D' && c1 == ' ' {
                proof {
                    assert(lv.take(2) =~= "D "@);
                }
                staged.push(GitFileStatus { path, status: "deleted".to_owned(), staged: true });
                proof {
                    assert(gfs_views(staged@) =~= entries_over(lviews.take(i + 1), st_f));
                }
            } else if c0 == ' ' && c1 == 'D' {
                proof {
                    assert(lv.take(2) =~= " D"@);
                }
                modified.push(
                    GitFileStatus { path, status: "deleted".to_owned(), staged: false },
                );
                proof {
                    assert(gfs_views(modified@) =~= entries_over(lviews.take(i + 1), mo_f));
                }
            } else if c0 == 'R' && c1 == ' ' {
                proof {
                    assert(lv.take(2) =~= "R "@);
                }
                staged.push(GitFileStatus { path, status: "renamed".to_owned(), staged: true });
                proof {
                    assert(gfs_views(staged@) =~= entries_over(lviews.take(i + 1), st_f));
                }
            } else if c0 == '?' && c1 == '?' {
                proof {
                    assert(lv.take(2) =~= "??"@);
                }
                untracked.push(
                    GitFileStatus { path, status: "untracked".to_owned(), staged: false },
                );
                proof {
                    assert(gfs_views(untracked@) =~= entries_over(lviews.take(i + 1), un_f));
                }
            } else if (c0 == 'U' && c1 == 'U') || (c0 == 'A' && c1 == 'A') || (c0 == 'D' && c1
                == 'D') {
                proof {
                    if c0 == 'U' {
                        assert(lv.take(2) =~= "UU"@);
                    } else if c0 == 'A' {
                        assert(lv.take(2) =~= "AA"@);
                    } else {
                        assert(lv.take(2) =~= "DD"@);
                    }
                }
                conflicted.push(
                    GitFileStatus { path, status: "conflicted".to_owned(), staged: false },
                );
                proof {
                    assert(gfs_views(conflicted@) =~= entries_over(lviews.take(i + 1), co_f));
                }
            } else {
                proof {
                    lemma_code_no_entries(lv, c0, c1);
                }
            }
        }
        proof {
            assert(gfs_views(staged@) =~= entries_over(lviews.take(i + 1), st_f));
            assert(gfs_views(modified@) =~= entries_over(lviews.take(i + 1), mo_f));
            assert(gfs_views(untracked@) =~= entries_over(lviews.take(i + 1), un_f));
            assert(gfs_views(conflicted@) =~= entries_over(lviews.take(i + 1), co_f));
        }
        i += 1;
    }
    proof {
        assert(lviews.take(n as int) =~= lviews);
    }
    (staged, modified, untracked, conflicted)
}

/// A code matching none of the handled pairs contributes nothing.
proof fn lemma_code_no_entries(lv: Seq<char>, c0: char, c1: char)
    requires
        lv.len() >= 3,
        lv[0] == c0,
        lv[1] == c1,
        !(c0 == 'M' && c1 == ' '),
        !(c0 == ' ' && c1 == 'M'),
        !(c0 == 'M' && c1 == 'M'),
        !(c0 == 'A' && c1 == ' '),
        !(c0 == 'A' && c1 == 'M'),
        !(c0 == 'D' && c1 == ' '),
        !(c0 == ' ' && c1 == 'D'),
        !(c0 == 'R' && c1 == ' '),
        !(c0 == '?' && c1 == '?'),
        !(c0 == 'U' && c1 == 'U'),
        !(c0 == 'A' && c1 == 'A'),
        !(c0 == 'D' && c1 == 'D'),
    ensures
        staged_entries(lv) == Seq::<(Seq<char>, Seq<char>, bool)>::empty(),
        modified_entries(lv) == Seq::<(Seq<char>, Seq<char>, bool)>::empty(),
        untracked_entries(lv) == Seq::<(Seq<char>, Seq<char>, bool)>::empty(),
        conflicted_entries(lv) == Seq::<(Seq<char>, Seq<char>, bool)>::empty(),
{
    reveal_strlit("MM");
    reveal_strlit("A ");
    reveal_strlit("AM");
    reveal_strlit("D ");
    reveal_strlit(" D");
    reveal_strlit("R ");
    reveal_strlit("M ");
    reveal_strlit(" M");
    reveal_strlit("??");
    reveal_strlit("UU");
    reveal_strlit("AA");
    reveal_strlit("DD");
    assert(lv.take(2) =~= seq![c0, c1]);
    let code = lv.take(2);
    assert(code.len() == 2 && code[0] == c0 && code[1] == c1);
    if code == "MM"@ {
        assert(c0 == 'M' && c1 == 'M');
    }
    if code == "A "@ {
        assert(c0 == 'A' && c1 == ' ');
    }
    if code == "AM"@ {
        assert(c0 == 'A' && c1 == 'M');
    }
    if code == "D "@ {
        assert(c0 == 'D' && c1 == ' ');
    }
    if code == " D"@ {
        assert(c0 == ' ' && c1 == 'D');
    }
    if code == "R "@ {
        assert(c0 == 'R' && c1 == ' ');
    }
    if code == "M "@ {
        assert(c0 == 'M' && c1 == ' ');
    }
    if code == " M"@ {
        assert(c0 == ' ' && c1 == 'M');
    }
    if code == "??"@ {
        assert(c0 == '?' && c1 == '?');
    }
    if code == "UU"@ {
        assert(c0 == 'U' && c1 == 'U');
    }
    if code == "AA"@ {
        assert(c0 == 'A' && c1 == 'A');
    }
    if code == "DD"@ {
        assert(c0 == 'D' && c1 == 'D');
    }
}


/// The view of one parsed commit.
pub struct CommitView {
    pub hash: Seq<char>,
    pub short_hash: Seq<char>,
    pub author: Seq<char>,
    pub email: Seq<char>,
    pub date: Seq<char>,
    pub message: Seq<char>,
    pub files_changed: int,
    pub insertions: int,
    pub deletions: int,
}

/// The parser's running state: finished commits, and the commit whose
/// statistics lines are still being read.
pub struct LogState {
    pub out: Seq<CommitView>,
    pub cur: Option<CommitView>,
}

/// Splits on pipes; every piece is kept, empty ones included.
pub open spec fn pipe_split_acc(s: Seq<char>, cur: Seq<char>) -> Seq<Seq<char>>
    decreases s.len(),
{
    if s.len() == 0 {
        seq![cur]
    } else if s[0] == '|' {
        seq![cur] + pipe_split_acc(s.skip(1), Seq::empty())
    } else {
        pipe_split_acc(s.skip(1), cur.push(s[0]))
    }
}

/// Splits on blanks and tabs, dropping empty runs.
pub open spec fn ws_split_acc(s: Seq<char>, cur: Seq<char>) -> Seq<Seq<char>>
    decreases s.len(),
{
    if s.len() == 0 {
        if cur.len() == 0 {
            Seq::empty()
        } else {
            seq![cur]
        }
    } else if s[0] == ' ' || s[0] == '\t' {
        if cur.len() == 0 {
            ws_split_acc(s.skip(1), Seq::empty())
        } else {
            seq![cur] + ws_split_acc(s.skip(1), Seq::empty())
        }
    } else {
        ws_split_acc(s.skip(1), cur.push(s[0]))
    }
}

/// A strict decimal number that fits the counter type, or nothing.
pub open spec fn strict_u32(s: Seq<char>) -> Option<int> {
    if s.len() > 0 && (forall|i: int| 0 <= i < s.len() ==> crate::claude_binary::is_digit(
        #[trigger] s[i],
    )) && crate::claude_binary::dec_value(s) <= u32::MAX {
        Some(crate::claude_binary::dec_value(s) as int)
    } else {
        None
    }
}

/// A saturating counter step.
pub open spec fn sat_add_u32(a: int, b: int) -> int {
    if a + b > u32::MAX {
        u32::MAX as int
    } else {
        a + b
    }
}

/// What one log line does to the parser's state. A line with exactly five
/// pipes opens a new commit, finishing the previous one; a non-blank line
/// under an open commit is a statistics line whose first two numbers
/// accumulate (saturating) and count one changed file.
pub open spec fn log_step(st: LogState, line: Seq<char>) -> LogState {
    if crate::diff::count_char(line, '|') == 5 {
        let parts = pipe_split_acc(line, Seq::empty());
        let flushed = match st.cur {
            Some(c) => st.out.push(c),
            None => st.out,
        };
        if parts.len() >= 6 {
            let fresh = CommitView {
                hash: parts[0],
                short_hash: parts[1],
                author: parts[2],
                email: parts[3],
                date: parts[4],
                message: parts[5],
                files_changed: 0,
                insertions: 0,
                deletions: 0,
            };
            LogState { out: flushed, cur: Some(fresh) }
        } else {
            LogState { out: flushed, cur: None }
        }
    } else if trim_spec(line).len() > 0 && st.cur is Some {
        let tokens = ws_split_acc(line, Seq::empty());
        if tokens.len() >= 2 {
            let c = st.cur->0;
            let ins = match strict_u32(tokens[0]) {
                Some(v) => sat_add_u32(c.insertions, v),
                None => c.insertions,
            };
            let del = match strict_u32(tokens[1]) {
                Some(v) => sat_add_u32(c.deletions, v),
                None => c.deletions,
            };
            LogState {
                out: st.out,
                cur: Some(
                    CommitView {
                        files_changed: sat_add_u32(c.files_changed, 1),
                        insertions: ins,
                        deletions: del,
                        ..c
                    },
                ),
            }
        } else {
            st
        }
    } else {
        st
    }
}

/// The parser's state after a whole listing.
pub open spec fn log_fold(lines: Seq<Seq<char>>) -> LogState
    decreases lines.len(),
{
    if lines.len() == 0 {
        LogState { out: Seq::empty(), cur: None }
    } else {
        log_step(log_fold(lines.drop_last()), lines.last())
    }
}

/// The commits a whole listing parses to: the folded state with the open
/// commit, if any, finished.
pub open spec fn log_commits(text: Seq<char>) -> Seq<CommitView> {
    let st = log_fold(lines_spec(text));
    match st.cur {
        Some(c) => st.out.push(c),
        None => st.out,
    }
}

/// The view of one parsed commit record.
pub open spec fn commit_view(c: GitCommit) -> CommitView {
    CommitView {
        hash: c.hash@,
        short_hash: c.short_hash@,
        author: c.author@,
        email: c.email@,
        date: c.date@,
        message: c.message@,
        files_changed: c.files_changed as int,
        insertions: c.insertions as int,
        deletions: c.deletions as int,
    }
}

/// The views of parsed commits.
pub open spec fn commit_views(v: Seq<GitCommit>) -> Seq<CommitView> {
    v.map_values(|c: GitCommit| commit_view(c))
}


/// Counts the pipe characters of a line.
fn count_pipes(s: &str) -> (r: u64)
    ensures
        r == crate::diff::count_char(s@, '|'),
{
    let n = s.unicode_len();
    let mut cnt: u64 = 0;
    let mut i: usize = 0;
    proof {
        assert(s@.take(0) =~= Seq::<char>::empty());
    }
    while i < n
        invariant
            n == s@.len(),
            i <= n,
            cnt == crate::diff::count_char(s@.take(i as int), '|'),
            cnt <= i,
        decreases n - i,
    {
        let c = s.get_char(i);
        proof {
            assert(s@.take(i + 1).drop_last() =~= s@.take(i as int));
            assert(s@.take(i + 1).last() == s@[i as int]);
        }
        if c == '|' {
            cnt += 1;
        }
        i += 1;
    }
    proof {
        assert(s@.take(n as int) =~= s@);
    }
    cnt
}

/// Splits a line on pipes.
fn pipe_split(s: &str) -> (r: Vec<String>)
    ensures
        r@.map_values(|p: String| p@) == pipe_split_acc(s@, Seq::<char>::empty()),
{
    let n = s.unicode_len();
    let mut out: Vec<String> = Vec::new();
    let mut start: usize = 0;
    let mut i: usize = 0;
    proof {
        assert(s@.subrange(0, 0) =~= Seq::<char>::empty());
        assert(s@.skip(0) =~= s@);
        assert(out@.map_values(|p: String| p@) + pipe_split_acc(s@, Seq::<char>::empty())
            =~= pipe_split_acc(s@, Seq::<char>::empty()));
    }
    while i < n
        invariant
            n == s@.len(),
            start <= i <= n,
            out@.map_values(|p: String| p@) + pipe_split_acc(
                s@.skip(i as int),
                s@.subrange(start as int, i as int),
            ) == pipe_split_acc(s@, Seq::<char>::empty()),
        decreases n - i,
    {
        let c = s.get_char(i);
        proof {
            assert(s@.skip(i as int)[0] == s@[i as int]);
            assert(s@.skip(i as int).skip(1) =~= s@.skip(i + 1));
        }
        if c == '|' {
            let piece = s.substring_char(start, i);
            let ghost prev = out@.map_values(|p: String| p@);
            let ghost cur = s@.subrange(start as int, i as int);
            out.push(piece.to_owned());
            start = i + 1;
            proof {
                assert(out@.map_values(|p: String| p@) =~= prev.push(cur));
                assert(prev.push(cur) + pipe_split_acc(s@.skip(i + 1), Seq::<char>::empty())
                    =~= prev + (seq![cur] + pipe_split_acc(s@.skip(i + 1), Seq::empty())));
                assert(s@.subrange(i + 1, i + 1) =~= Seq::<char>::empty());
            }
        } else {
            proof {
                assert(s@.subrange(start as int, i as int).push(s@[i as int]) =~= s@.subrange(
                    start as int,
                    i + 1,
                ));
            }
        }
        i += 1;
    }
    let piece = s.substring_char(start, n);
    let ghost prev = out@.map_values(|p: String| p@);
    out.push(piece.to_owned());
    proof {
        assert(s@.skip(n as int) =~= Seq::<char>::empty());
        assert(out@.map_values(|p: String| p@) =~= prev.push(s@.subrange(start as int, n as int)));
        assert(prev.push(s@.subrange(start as int, n as int)) =~= prev + seq![
            s@.subrange(start as int, n as int),
        ]);
    }
    out
}

/// Splits a line on blanks and tabs, dropping empty runs.
fn ws_split(s: &str) -> (r: Vec<String>)
    ensures
        r@.map_values(|p: String| p@) == ws_split_acc(s@, Seq::<char>::empty()),
{
    let n = s.unicode_len();
    let mut out: Vec<String> = Vec::new();
    let mut start: usize = 0;
    let mut i: usize = 0;
    proof {
        assert(s@.subrange(0, 0) =~= Seq::<char>::empty());
        assert(s@.skip(0) =~= s@);
        assert(out@.map_values(|p: String| p@) + ws_split_acc(s@, Seq::<char>::empty())
            =~= ws_split_acc(s@, Seq::<char>::empty()));
    }
    while i < n
        invariant
            n == s@.len(),
            start <= i <= n,
            out@.map_values(|p: String| p@) + ws_split_acc(
                s@.skip(i as int),
                s@.subrange(start as int, i as int),
            ) == ws_split_acc(s@, Seq::<char>::empty()),
        decreases n - i,
    {
        let c = s.get_char(i);
        proof {
            assert(s@.skip(i as int)[0] == s@[i as int]);
            assert(s@.skip(i as int).skip(1) =~= s@.skip(i + 1));
        }
        if c == ' ' || c == '\t' {
            if start < i {
                let piece = s.substring_char(start, i);
                let ghost prev = out@.map_values(|p: String| p@);
                let ghost cur = s@.subrange(start as int, i as int);
                out.push(piece.to_owned());
                proof {
                    assert(cur.len() > 0);
                    assert(out@.map_values(|p: String| p@) =~= prev.push(cur));
                    assert(prev.push(cur) + ws_split_acc(s@.skip(i + 1), Seq::<char>::empty())
                        =~= prev + (seq![cur] + ws_split_acc(s@.skip(i + 1), Seq::empty())));
                }
            } else {
                proof {
                    assert(s@.subrange(start as int, i as int).len() == 0);
                }
            }
            start = i + 1;
            proof {
                assert(s@.subrange(i + 1, i + 1) =~= Seq::<char>::empty());
            }
        } else {
            proof {
                assert(s@.subrange(start as int, i as int).push(s@[i as int]) =~= s@.subrange(
                    start as int,
                    i + 1,
                ));
            }
        }
        i += 1;
    }
    proof {
        assert(s@.skip(n as int) =~= Seq::<char>::empty());
    }
    if start < n {
        let piece = s.substring_char(start, n);
        let ghost prev = out@.map_values(|p: String| p@);
        out.push(piece.to_owned());
        proof {
            assert(s@.subrange(start as int, n as int).len() > 0);
            assert(out@.map_values(|p: String| p@) =~= prev.push(
                s@.subrange(start as int, n as int),
            ));
            assert(prev.push(s@.subrange(start as int, n as int)) =~= prev + seq![
                s@.subrange(start as int, n as int),
            ]);
        }
    } else {
        proof {
            assert(s@.subrange(start as int, n as int).len() == 0);
            assert(out@.map_values(|p: String| p@) + Seq::<Seq<char>>::empty() =~= out@.map_values(
                |p: String| p@,
            ));
        }
    }
    out
}

/// Parses a whole token as a counter value; anything else is nothing.
fn parse_strict_u32(p: &str) -> (r: Option<u32>)
    ensures
        match r {
            Some(v) => strict_u32(p@) == Some(v as int),
            None => strict_u32(p@) is None,
        },
{
    let n = p.unicode_len();
    if n == 0 {
        return None;
    }
    let mut acc: u64 = 0;
    let mut i: usize = 0;
    let limit: u64 = u32::MAX as u64;
    proof {
        assert(p@.take(0) =~= Seq::<char>::empty());
    }
    while i < n
        invariant
            n == p@.len(),
            i <= n,
            limit == u32::MAX,
            acc <= limit,
            forall|j: int| 0 <= j < i ==> crate::claude_binary::is_digit(#[trigger] p@[j]),
            acc == crate::claude_binary::dec_value(p@.take(i as int)),
        decreases n - i,
    {
        let c = p.get_char(i);
        if !crate::claude_binary::char_is_digit(c) {
            return None;
        }
        let dv: u64 = if c == '0' {
            0
        } else if c == '1' {
            1
        } else if c == '2' {
            2
        } else if c == '3' {
            3
        } else if c == '4' {
            4
        } else if c == '5' {
            5
        } else if c == '6' {
            6
        } else if c == '7' {
            7
        } else if c == '8' {
            8
        } else {
            9
        };
        proof {
            assert(p@.take(i + 1).drop_last() =~= p@.take(i as int));
            assert(p@.take(i + 1).last() == p@[i as int]);
            assert(dv == crate::claude_binary::digit_val(p@[i as int]));
        }
        if acc > (limit - dv) / 10 {
            proof {
                assert(crate::claude_binary::dec_value(p@.take(i + 1)) == acc * 10 + dv);
                assert(crate::claude_binary::dec_value(p@.take(i + 1)) > u32::MAX)
                    by (nonlinear_arith)
                    requires
                        acc > (limit - dv) / 10,
                        limit == u32::MAX,
                        dv <= 9,
                        crate::claude_binary::dec_value(p@.take(i + 1)) == acc * 10 + dv,
                {}
                crate::claude_binary::lemma_dec_value_prefix(p@, i + 1);
                assert(p@.take(p@.len() as int) =~= p@);
            }
            return None;
        }
        proof {
            assert(acc * 10 + dv <= u32::MAX) by (nonlinear_arith)
                requires
                    acc <= (limit - dv) / 10,
                    limit == u32::MAX,
                    dv <= 9,
            {}
        }
        acc = acc * 10 + dv;
        i += 1;
    }
    proof {
        assert(p@.take(n as int) =~= p@);
    }
    Some(acc as u32)
}

/// Parses a pipe-delimited history listing with per-commit statistics
/// lines, as `log_commits` lays it out: a line with exactly five pipes
/// opens a commit, each following statistics line accumulates its first
/// two counters (saturating) and counts one changed file, and blank or
/// stray lines pass by.
pub fn parse_git_log(log_text: &str) -> (r: Result<Vec<GitCommit>, String>)
    ensures
        r is Ok,
        commit_views(r->Ok_0@) == log_commits(log_text@),
{
    let lines = split_lines(log_text);
    let ghost lviews = lines@.map_values(|p: String| p@);
    let mut commits: Vec<GitCommit> = Vec::new();
    let mut current: Option<GitCommit> = None;
    let mut files_changed: u32 = 0;
    let mut insertions: u32 = 0;
    let mut deletions: u32 = 0;
    let n = lines.len();
    let mut i: usize = 0;
    proof {
        assert(lviews.take(0) =~= Seq::<Seq<char>>::empty());
        assert(commit_views(commits@) =~= log_fold(lviews.take(0)).out);
    }
    while i < n
        invariant
            lviews == lines@.map_values(|p: String| p@),
            n == lines@.len(),
            i <= n,
            commit_views(commits@) == log_fold(lviews.take(i as int)).out,
            match current {
                None => log_fold(lviews.take(i as int)).cur is None,
                Some(c) => log_fold(lviews.take(i as int)).cur == Some(
                    CommitView {
                        files_changed: files_changed as int,
                        insertions: insertions as int,
                        deletions: deletions as int,
                        ..commit_view(c)
                    },
                ),
            },
        decreases n - i,
    {
        let line = &lines[i];
        let ghost lv = lviews[i as int];
        let ghost st = log_fold(lviews.take(i as int));
        proof {
            assert(lviews.take(i + 1).drop_last() =~= lviews.take(i as int));
            assert(lviews.take(i + 1).last() == lv);
            assert(lv == line@);
            assert(log_fold(lviews.take(i + 1)) == log_step(st, lv));
        }
        if count_pipes(line.as_str()) == 5 {
            if let Some(c) = current {
                commits.push(
                    GitCommit { files_changed, insertions, deletions, ..c },
                );
                proof {
                    assert(commit_views(commits@) =~= st.out.push(st.cur->0));
                }
            }
            let parts = pipe_split(line.as_str());
            proof {
                assert(parts@.len() == pipe_split_acc(lv, Seq::<char>::empty()).len());
            }
            if parts.len() >= 6 {
                proof {
                    assert(forall|k: int|
                        0 <= k < parts@.len() ==> (#[trigger] parts@[k])@ == pipe_split_acc(
                            lv,
                            Seq::<char>::empty(),
                        )[k]);
                }
                let mut it = parts;
                let hash = it.remove(0);
                let short_hash = it.remove(0);
                let author = it.remove(0);
                let email = it.remove(0);
                let date = it.remove(0);
                let message = it.remove(0);
                current = Some(
                    GitCommit {
                        hash,
                        short_hash,
                        author,
                        email,
                        date,
                        message,
                        files_changed: 0,
                        insertions: 0,
                        deletions: 0,
                    },
                );
            } else {
                current = None;
            }
            files_changed = 0;
            insertions = 0;
            deletions = 0;
        } else {
            let trimmed = trim_chars(line.as_str());
            if !trimmed.as_str().is_empty() && current.is_some() {
                let tokens = ws_split(line.as_str());
                proof {
                    assert(tokens@.len() == ws_split_acc(lv, Seq::<char>::empty()).len());
                }
                if tokens.len() >= 2 {
                    proof {
                        assert(tokens@[0]@ == ws_split_acc(lv, Seq::<char>::empty())[0]);
                        assert(tokens@[1]@ == ws_split_acc(lv, Seq::<char>::empty())[1]);
                    }
                    if let Some(added) = parse_strict_u32(tokens[0].as_str()) {
                        insertions = insertions.saturating_add(added);
                    }
                    if let Some(removed) = parse_strict_u32(tokens[1].as_str()) {
                        deletions = deletions.saturating_add(removed);
                    }
                    files_changed = files_changed.saturating_add(1);
                }
            }
        }
        i += 1;
    }
    proof {
        assert(lviews.take(n as int) =~= lviews);
    }
    if let Some(c) = current {
        commits.push(GitCommit { files_changed, insertions, deletions, ..c });
        proof {
            let st = log_fold(lviews);
            assert(commit_views(commits@) =~= st.out.push(st.cur->0));
        }
    }
    Ok(commits)
}

} // verus!
