//! Selection among discovered binary installations: semantic version
//! comparison, source preference, and best-installation choice. The
//! discovery itself spawns processes and lives with the application.

use vstd::prelude::*;
use vstd::string::StrSliceExecFns;
use crate::strutil::str_eq;

verus! {

/// How an installation was put on the machine.
#[derive(Debug, Clone, PartialEq, Eq)]
pub enum InstallationType {
    /// Found on the system.
    System,
    /// A path the user supplied.
    Custom,
}

/// One discovered installation: its path, its version if detectable, and
/// where the discovery found it.
#[derive(Debug)]
pub struct ClaudeInstallation {
    pub path: String,
    pub version: Option<String>,
    pub source: String,
    pub installation_type: InstallationType,
}

/// Whether the version string of an install attempt could be read, and
/// what the command printed.
#[derive(Debug)]
pub struct ClaudeVersionStatus {
    pub is_installed: bool,
    pub version: Option<String>,
    pub output: String,
}

/// A decimal digit.
pub open spec fn is_digit(c: char) -> bool {
    c == '0' || c == '1' || c == '2' || c == '3' || c == '4' || c == '5' || c == '6' || c == '7'
        || c == '8' || c == '9'
}

/// The numeric value of a digit.
pub open spec fn digit_val(c: char) -> nat {
    if c == '0' {
        0
    } else if c == '1' {
        1
    } else if c == '2' {
        2
    } else if c == '3' {
        3
    } else if c == '4' {
        4
    } else if c == '5' {
        5
    } else if c == '6' {
        6
    } else if c == '7' {
        7
    } else if c == '8' {
        8
    } else {
        9
    }
}

/// The leading run of digits.
pub open spec fn digits_prefix(s: Seq<char>) -> Seq<char>
    decreases s.len(),
{
    if s.len() > 0 && is_digit(s[0]) {
        seq![s[0]] + digits_prefix(s.skip(1))
    } else {
        Seq::empty()
    }
}

/// The value of a digit string.
pub open spec fn dec_value(ds: Seq<char>) -> nat
    decreases ds.len(),
{
    if ds.len() == 0 {
        0
    } else {
        dec_value(ds.drop_last()) * 10 + digit_val(ds.last())
    }
}

/// What one dot-separated part contributes: its numeric prefix's value,
/// or nothing when there is no prefix or the value does not fit in `u32`.
pub open spec fn part_value(s: Seq<char>) -> Option<nat> {
    let ds = digits_prefix(s);
    if ds.len() == 0 || dec_value(ds) > u32::MAX {
        None
    } else {
        Some(dec_value(ds))
    }
}

/// Splits on dots; every piece is kept, empty ones included.
pub open spec fn dot_split_acc(s: Seq<char>, cur: Seq<char>) -> Seq<Seq<char>>
    decreases s.len(),
{
    if s.len() == 0 {
        seq![cur]
    } else if s[0] == '.' {
        seq![cur] + dot_split_acc(s.skip(1), Seq::empty())
    } else {
        dot_split_acc(s.skip(1), cur.push(s[0]))
    }
}

/// The numeric parts of a version string, in order, parts without a
/// usable number skipped.
pub open spec fn version_parts(s: Seq<char>) -> Seq<nat> {
    parts_values(dot_split_acc(s, Seq::empty()))
}

/// The usable numeric values of a list of parts.
pub open spec fn parts_values(parts: Seq<Seq<char>>) -> Seq<nat>
    decreases parts.len(),
{
    if parts.len() == 0 {
        Seq::empty()
    } else {
        parts_values(parts.drop_last()) + match part_value(parts.last()) {
            Some(v) => seq![v],
            None => Seq::<nat>::empty(),
        }
    }
}

/// Componentwise comparison from index `i` on, missing parts reading as
/// zero: negative when `a` is older, zero when equal, positive when newer.
pub open spec fn cmp_parts_from(a: Seq<nat>, b: Seq<nat>, i: int) -> int
    decreases (if a.len() > b.len() {
        a.len()
    } else {
        b.len()
    }) - i when 0 <= i
{
    if i >= a.len() && i >= b.len() {
        0
    } else {
        let av: nat = if i < a.len() {
            a[i]
        } else {
            0
        };
        let bv: nat = if i < b.len() {
            b[i]
        } else {
            0
        };
        if av < bv {
            -1
        } else if av > bv {
            1
        } else {
            cmp_parts_from(a, b, i + 1)
        }
    }
}

/// The semantic comparison of two version strings.
pub open spec fn cmp_versions_spec(a: Seq<char>, b: Seq<char>) -> int {
    cmp_parts_from(version_parts(a), version_parts(b), 0)
}

/// A digit string's value only grows as digits are appended.
pub proof fn lemma_dec_value_prefix(ds: Seq<char>, i: int)
    requires
        0 <= i <= ds.len(),
    ensures
        dec_value(ds) >= dec_value(ds.take(i)),
    decreases ds.len() - i,
{
    if i < ds.len() {
        lemma_dec_value_prefix(ds, i + 1);
        assert(ds.take(i + 1).drop_last() =~= ds.take(i));
        assert(dec_value(ds.take(i + 1)) == dec_value(ds.take(i)) * 10 + digit_val(
            ds.take(i + 1).last(),
        ));
    } else {
        assert(ds.take(i) =~= ds);
    }
}

/// Whether a character is a decimal digit.
pub fn char_is_digit(c: char) -> (r: bool)
    ensures
        r == is_digit(c),
{
    c == '0' || c == '1' || c == '2' || c == '3' || c == '4' || c == '5' || c == '6' || c == '7'
        || c == '8' || c == '9'
}

/// Parses the numeric prefix of one part, refusing values beyond `u32`.
fn parse_part(p: &str) -> (r: Option<u32>)
    ensures
        match r {
            Some(v) => part_value(p@) == Some(v as nat),
            None => part_value(p@) is None,
        },
{
    let n = p.unicode_len();
    // Find the end of the digit prefix.
    let mut d: usize = 0;
    let mut more = n > 0 && char_is_digit(p.get_char(0));
    while more
        invariant
            n == p@.len(),
            d <= n,
            forall|j: int| 0 <= j < d ==> is_digit(#[trigger] p@[j]),
            more == (d < n && is_digit(p@[d as int])),
        decreases n - d,
    {
        d += 1;
        more = d < n && char_is_digit(p.get_char(d));
    }
    let ghost ds = digits_prefix(p@);
    proof {
        lemma_digits_prefix_is_take(p@, d as int);
    }
    if d == 0 {
        return None;
    }
    // Accumulate the value, stopping when it cannot fit.
    let mut acc: u64 = 0;
    let mut i: usize = 0;
    let limit: u64 = u32::MAX as u64;
    proof {
        assert(ds.take(0) =~= Seq::<char>::empty());
    }
    while i < d
        invariant
            n == p@.len(),
            d <= n,
            ds == digits_prefix(p@),
            ds.len() == d,
            forall|j: int| 0 <= j < d ==> #[trigger] ds[j] == p@[j] && is_digit(p@[j]),
            i <= d,
            limit == u32::MAX,
            acc <= limit,
            acc == dec_value(ds.take(i as int)),
        decreases d - i,
    {
        let c = p.get_char(i);
        let dv: u64 = if c == '0' {
            0
        } else if c == '1' {
            1
        } else if c == '2' {
            2
        } else if c == '3' {
            3
        } else if c == '4' {
            4
        } else if c == '5' {
            5
        } else if c == '6' {
            6
        } else if c == '7' {
            7
        } else if c == '8' {
            8
        } else {
            9
        };
        proof {
            assert(ds.take(i + 1).drop_last() =~= ds.take(i as int));
            assert(ds.take(i + 1).last() == p@[i as int]);
            assert(dv == digit_val(p@[i as int]));
        }
        if acc > (limit - dv) / 10 {
            proof {
                assert(dec_value(ds.take(i + 1)) == acc * 10 + dv);
                assert(dec_value(ds.take(i + 1)) > u32::MAX) by (nonlinear_arith)
                    requires
                        acc > (limit - dv) / 10,
                        limit == u32::MAX,
                        dv <= 9,
                        dec_value(ds.take(i + 1)) == acc * 10 + dv,
                {}
                lemma_dec_value_prefix(ds, i + 1);
                assert(dec_value(ds) > u32::MAX);
            }
            return None;
        }
        proof {
            assert(acc * 10 + dv <= u32::MAX) by (nonlinear_arith)
                requires
                    acc <= (limit - dv) / 10,
                    limit == u32::MAX,
                    dv <= 9,
            {}
        }
        acc = acc * 10 + dv;
        i += 1;
    }
    proof {
        assert(ds.take(d as int) =~= ds);
    }
    Some(acc as u32)
}

/// The digit prefix is exactly the first maximal digit run.
proof fn lemma_digits_prefix_is_take(s: Seq<char>, d: int)
    requires
        0 <= d <= s.len(),
        forall|j: int| 0 <= j < d ==> is_digit(#[trigger] s[j]),
        d < s.len() ==> !is_digit(s[d]),
    ensures
        digits_prefix(s) == s.take(d),
    decreases s.len(),
{
    if s.len() > 0 && is_digit(s[0]) {
        assert(d > 0);
        lemma_digits_prefix_is_take(s.skip(1), d - 1);
        assert(seq![s[0]] + s.skip(1).take(d - 1) =~= s.take(d));
    } else {
        assert(s.take(d) =~= Seq::<char>::empty());
    }
}

/// Splits a version string on dots.
fn dot_split(s: &str) -> (r: Vec<String>)
    ensures
        r@.map_values(|p: String| p@) == dot_split_acc(s@, Seq::<char>::empty()),
{
    let n = s.unicode_len();
    let mut out: Vec<String> = Vec::new();
    let mut start: usize = 0;
    let mut i: usize = 0;
    proof {
        assert(s@.subrange(0, 0) =~= Seq::<char>::empty());
        assert(s@.skip(0) =~= s@);
        assert(out@.map_values(|p: String| p@) + dot_split_acc(s@, Seq::<char>::empty())
            =~= dot_split_acc(s@, Seq::<char>::empty()));
    }
    while i < n
        invariant
            n == s@.len(),
            start <= i <= n,
            out@.map_values(|p: String| p@) + dot_split_acc(
                s@.skip(i as int),
                s@.subrange(start as int, i as int),
            ) == dot_split_acc(s@, Seq::<char>::empty()),
        decreases n - i,
    {
        let c = s.get_char(i);
        proof {
            assert(s@.skip(i as int)[0] == s@[i as int]);
            assert(s@.skip(i as int).skip(1) =~= s@.skip(i + 1));
        }
        if c == '.' {
            let piece = s.substring_char(start, i);
            let ghost prev = out@.map_values(|p: String| p@);
            let ghost cur = s@.subrange(start as int, i as int);
            out.push(piece.to_owned());
            start = i + 1;
            proof {
                assert(out@.map_values(|p: String| p@) =~= prev.push(cur));
                assert(prev.push(cur) + dot_split_acc(s@.skip(i + 1), Seq::<char>::empty())
                    =~= prev + (seq![cur] + dot_split_acc(s@.skip(i + 1), Seq::empty())));
                assert(s@.subrange(i + 1, i + 1) =~= Seq::<char>::empty());
            }
        } else {
            proof {
                assert(s@.subrange(start as int, i as int).push(s@[i as int]) =~= s@.subrange(
                    start as int,
                    i + 1,
                ));
            }
        }
        i += 1;
    }
    let piece = s.substring_char(start, n);
    let ghost prev = out@.map_values(|p: String| p@);
    out.push(piece.to_owned());
    proof {
        assert(s@.skip(n as int) =~= Seq::<char>::empty());
        assert(out@.map_values(|p: String| p@) =~= prev.push(s@.subrange(start as int, n as int)));
        assert(prev.push(s@.subrange(start as int, n as int)) =~= prev + seq![
            s@.subrange(start as int, n as int),
        ]);
    }
    out
}

/// Compares two version strings semantically: dot-separated numeric
/// parts, left to right, missing parts reading as zero; parts without a
/// usable number are skipped. Negative means `a` is older than `b`, zero
/// the same, positive newer.
pub fn compare_versions(a: &str, b: &str) -> (r: i8)
    ensures
        r == cmp_versions_spec(a@, b@),
        -1 <= r <= 1,
{
    let pa = collect_parts(a);
    let pb = collect_parts(b);
    let la = pa.len();
    let lb = pb.len();
    let m = if la > lb {
        la
    } else {
        lb
    };
    let mut i: usize = 0;
    while i < m
        invariant
            la == pa@.len(),
            lb == pb@.len(),
            m == if la > lb {
                la
            } else {
                lb
            },
            i <= m,
            pa@.map_values(|v: u32| v as nat) == version_parts(a@),
            pb@.map_values(|v: u32| v as nat) == version_parts(b@),
            cmp_parts_from(version_parts(a@), version_parts(b@), 0) == cmp_parts_from(
                version_parts(a@),
                version_parts(b@),
                i as int,
            ),
        decreases m - i,
    {
        let av: u32 = if i < la {
            pa[i]
        } else {
            0
        };
        let bv: u32 = if i < lb {
            pb[i]
        } else {
            0
        };
        if av < bv {
            return -1;
        }
        if av > bv {
            return 1;
        }
        i += 1;
    }
    0
}

/// The parsed numeric parts of a version string.
fn collect_parts(s: &str) -> (r: Vec<u32>)
    ensures
        r@.map_values(|v: u32| v as nat) == version_parts(s@),
{
    let pieces = dot_split(s);
    let ghost pviews = pieces@.map_values(|p: String| p@);
    let mut out: Vec<u32> = Vec::new();
    let n = pieces.len();
    let mut i: usize = 0;
    proof {
        assert(pviews.take(0) =~= Seq::<Seq<char>>::empty());
        assert(out@.map_values(|v: u32| v as nat) =~= parts_values(pviews.take(0)));
    }
    while i < n
        invariant
            pviews == pieces@.map_values(|p: String| p@),
            n == pieces@.len(),
            i <= n,
            out@.map_values(|v: u32| v as nat) == parts_values(pviews.take(i as int)),
        decreases n - i,
    {
        proof {
            assert(pviews.take(i + 1).drop_last() =~= pviews.take(i as int));
            assert(pviews.take(i + 1).last() == pviews[i as int]);
            assert(pviews[i as int] == pieces@[i as int]@);
        }
        match parse_part(pieces[i].as_str()) {
            Some(v) => {
                out.push(v);
                proof {
                    assert(out@.map_values(|v2: u32| v2 as nat) =~= parts_values(
                        pviews.take(i + 1),
                    ));
                }
            },
            None => {
                proof {
                    assert(out@.map_values(|v2: u32| v2 as nat) =~= parts_values(
                        pviews.take(i + 1),
                    ));
                }
            },
        }
        i += 1;
    }
    proof {
        assert(pviews.take(n as int) =~= pviews);
    }
    out
}

/// The preference rank of a discovery source: smaller is better.
pub open spec fn source_rank(source: Seq<char>) -> int {
    if source == "which"@ {
        1
    } else if source == "homebrew"@ {
        2
    } else if source == "system"@ {
        3
    } else if source.len() >= 3 && source.take(3) == "nvm"@ {
        4
    } else if source == "local-bin"@ {
        5
    } else if source == "agent-local"@ {
        6
    } else if source == "npm-global"@ {
        7
    } else if source == "yarn"@ || source == "yarn-global"@ {
        8
    } else if source == "bun"@ {
        9
    } else if source == "node-modules"@ {
        10
    } else if source == "home-bin"@ {
        11
    } else if source == "PATH"@ {
        12
    } else {
        13
    }
}

/// The preference score of an installation's source; lower is better.
pub fn source_preference(installation: &ClaudeInstallation) -> (r: u8)
    ensures
        r == source_rank(installation.source@),
{
    let src = installation.source.as_str();
    if str_eq(src, "which") {
        1
    } else if str_eq(src, "homebrew") {
        2
    } else if str_eq(src, "system") {
        3
    } else if src.unicode_len() >= 3 && str_eq(src.substring_char(0, 3), "nvm") {
        proof {
            assert(src@.take(3) =~= src@.subrange(0, 3));
        }
        4
    } else if str_eq(src, "local-bin") {
        5
    } else if str_eq(src, "agent-local") {
        6
    } else if str_eq(src, "npm-global") {
        7
    } else if str_eq(src, "yarn") || str_eq(src, "yarn-global") {
        8
    } else if str_eq(src, "bun") {
        9
    } else if str_eq(src, "node-modules") {
        10
    } else if str_eq(src, "home-bin") {
        11
    } else if str_eq(src, "PATH") {
        12
    } else {
        proof {
            if src@.len() >= 3 && src@.take(3) == "nvm"@ {
                assert(src@.take(3) =~= src@.subrange(0, 3));
            }
        }
        13
    }
}

/// The comparison is reflexive: every version list ties with itself.
proof fn lemma_cmp_parts_refl(a: Seq<nat>, i: int)
    requires
        0 <= i,
    ensures
        cmp_parts_from(a, a, i) == 0,
    decreases a.len() - i,
{
    if i < a.len() {
        lemma_cmp_parts_refl(a, i + 1);
    }
}

/// The comparison flips sign with its arguments.
proof fn lemma_cmp_parts_antisym(a: Seq<nat>, b: Seq<nat>, i: int)
    requires
        0 <= i,
    ensures
        cmp_parts_from(a, b, i) == -cmp_parts_from(b, a, i),
    decreases a.len() + b.len() - i,
{
    if i < a.len() || i < b.len() {
        lemma_cmp_parts_antisym(a, b, i + 1);
    }
}

/// The comparison is transitive through a common middle, strictly so when
/// either side is strict.
proof fn lemma_cmp_parts_trans(a: Seq<nat>, b: Seq<nat>, c: Seq<nat>, i: int)
    requires
        0 <= i,
    ensures
        cmp_parts_from(a, b, i) <= 0 && cmp_parts_from(b, c, i) <= 0 ==> cmp_parts_from(
            a,
            c,
            i,
        ) <= 0,
        cmp_parts_from(a, b, i) < 0 && cmp_parts_from(b, c, i) <= 0 ==> cmp_parts_from(
            a,
            c,
            i,
        ) < 0,
        cmp_parts_from(a, b, i) <= 0 && cmp_parts_from(b, c, i) < 0 ==> cmp_parts_from(
            a,
            c,
            i,
        ) < 0,
    decreases a.len() + b.len() + c.len() - i,
{
    if i < a.len() || i < b.len() || i < c.len() {
        let av: nat = if i < a.len() { a[i] } else { 0 };
        let bv: nat = if i < b.len() { b[i] } else { 0 };
        let cv: nat = if i < c.len() { c[i] } else { 0 };
        if av == bv && bv == cv {
            lemma_cmp_parts_trans(a, b, c, i + 1);
        }
    }
}

/// `beats` is transitive through a common loser: if nothing beaten by `z`
/// beats it, a non-loser `y` against `z` is not beaten by any `x` that
/// lost to `z`.
proof fn lemma_beats_trans(x: ClaudeInstallation, y: ClaudeInstallation, z: ClaudeInstallation)
    requires
        beats(x, z) <= 0,
        beats(y, z) >= 0,
    ensures
        beats(x, y) <= 0,
{
    match (x.version, y.version, z.version) {
        (Some(a), Some(b), Some(c)) => {
            lemma_cmp_parts_antisym(version_parts(b@), version_parts(c@), 0);
            lemma_cmp_parts_trans(
                version_parts(a@),
                version_parts(c@),
                version_parts(b@),
                0,
            );
        },
        _ => {},
    }
}

/// The order `discover_claude_installations` presents: newest version
/// first, versioned installations before unversioned ones, the source
/// preference breaking ties. Negative means `a` comes before `b`.
pub open spec fn install_cmp(a: ClaudeInstallation, b: ClaudeInstallation) -> int {
    match (a.version, b.version) {
        (Some(v1), Some(v2)) => {
            let c = cmp_versions_spec(v2@, v1@);
            if c != 0 {
                c
            } else {
                source_rank(a.source@) - source_rank(b.source@)
            }
        },
        (Some(_), None) => -1,
        (None, Some(_)) => 1,
        (None, None) => source_rank(a.source@) - source_rank(b.source@),
    }
}

/// `a` sorts at or before `b`.
pub open spec fn install_le(a: ClaudeInstallation, b: ClaudeInstallation) -> bool {
    install_cmp(a, b) <= 0
}

/// The whole listing is in presentation order.
pub open spec fn installs_sorted(s: Seq<ClaudeInstallation>) -> bool {
    forall|i: int, j: int| 0 <= i < j < s.len() ==> install_le(#[trigger] s[i], #[trigger] s[j])
}

/// The presentation order flips sign with its arguments.
proof fn lemma_install_antisym(a: ClaudeInstallation, b: ClaudeInstallation)
    ensures
        install_cmp(a, b) == -install_cmp(b, a),
{
    match (a.version, b.version) {
        (Some(v1), Some(v2)) => {
            lemma_cmp_parts_antisym(version_parts(v2@), version_parts(v1@), 0);
        },
        _ => {},
    }
}

/// The presentation order is transitive.
proof fn lemma_install_trans(a: ClaudeInstallation, b: ClaudeInstallation, c: ClaudeInstallation)
    requires
        install_le(a, b),
        install_le(b, c),
    ensures
        install_le(a, c),
{
    match (a.version, b.version, c.version) {
        (Some(va), Some(vb), Some(vc)) => {
            lemma_cmp_parts_trans(
                version_parts(vc@),
                version_parts(vb@),
                version_parts(va@),
                0,
            );
        },
        _ => {},
    }
}

/// Compares two installations as `install_le` lays it out.
fn install_le_exec(a: &ClaudeInstallation, b: &ClaudeInstallation) -> (r: bool)
    ensures
        r == install_le(*a, *b),
{
    match (&a.version, &b.version) {
        (Some(v1), Some(v2)) => {
            let c = compare_versions(v2.as_str(), v1.as_str());
            if c != 0 {
                c < 0
            } else {
                source_preference(a) <= source_preference(b)
            }
        },
        (Some(_), None) => true,
        (None, Some(_)) => false,
        (None, None) => source_preference(a) <= source_preference(b),
    }
}

/// Sorts installations into presentation order: newest version first,
/// versioned before unversioned, source preference breaking ties. The
/// same installations come out that went in.
pub fn sort_installations(installations: &mut Vec<ClaudeInstallation>)
    ensures
        installs_sorted(final(installations)@),
        final(installations)@.to_multiset() == old(installations)@.to_multiset(),
        final(installations)@.len() == old(installations)@.len(),
{
    let n = installations.len();
    proof {
        broadcast use vstd::seq_lib::group_to_multiset_ensures;

    }
    if n <= 1 {
        return;
    }
    let mut i: usize = 1;
    while i < n
        invariant
            n == installations@.len(),
            1 <= i <= n,
            installations@.to_multiset() == old(installations)@.to_multiset(),
            installs_sorted(installations@.take(i as int)),
        decreases n - i,
    {
        // Find where the element at `i` belongs within the sorted prefix.
        let mut j: usize = 0;
        while j < i && install_le_exec(&installations[j], &installations[i])
            invariant
                n == installations@.len(),
                i < n,
                j <= i,
                forall|k: int|
                    0 <= k < j ==> install_le(
                        #[trigger] installations@[k],
                        installations@[i as int],
                    ),
            decreases i - j,
        {
            j += 1;
        }
        let ghost pre = installations@;
        let ghost x = installations@[i as int];
        let moved = installations.remove(i);
        installations.insert(j, moved);
        proof {
            broadcast use vstd::seq_lib::group_to_multiset_ensures;

            let removed = pre.remove(i as int);
            crate::strutil::lemma_insert_to_multiset(removed, j as int, x);
            assert(pre.to_multiset().contains(x)) by {
                assert(pre.contains(x));
            }
            assert(installations@.to_multiset() =~= pre.to_multiset());
            assert(installations@ =~= removed.insert(j as int, x));
            assert(forall|k: int| 0 <= k < j ==> #[trigger] installations@[k] == pre[k]);
            assert(forall|k: int| j < k <= i ==> #[trigger] installations@[k] == pre[k - 1]);
            assert(installations@[j as int] == x);
            if j < i {
                assert(!install_le(pre[j as int], x));
                lemma_install_antisym(pre[j as int], x);
                assert(install_le(x, pre[j as int]));
            }
            assert forall|a: int, b: int|
                0 <= a < b < i + 1 implies install_le(
                #[trigger] installations@[a],
                #[trigger] installations@[b],
            ) by {
                let taken = pre.take(i as int);
                if a < j && b < j {
                    assert(install_le(taken[a], taken[b]));
                } else if a < j && b == j {
                    assert(install_le(pre[a], x));
                } else if a < j && b > j {
                    assert(install_le(taken[a], taken[b - 1]));
                } else if a == j && b > j {
                    assert(install_le(x, pre[j as int]));
                    if b - 1 > j {
                        assert(install_le(taken[j as int], taken[b - 1]));
                        lemma_install_trans(x, pre[j as int], pre[b - 1]);
                    }
                } else if a > j {
                    assert(install_le(taken[a - 1], taken[b - 1]));
                }
            }
            assert(installs_sorted(installations@.take(i + 1)));
        }
        i += 1;
    }
    proof {
        assert(installations@.take(n as int) =~= installations@);
    }
}

/// How `select_best_installation` ranks a pair: positive when `x` beats
/// `y`, negative when `y` beats `x`, zero when neither does. An
/// installation with a version beats one without; two versions compare
/// semantically; among two versionless ones a real path beats the bare
/// agent lookup.
pub open spec fn beats(x: ClaudeInstallation, y: ClaudeInstallation) -> int {
    match (x.version, y.version) {
        (Some(v1), Some(v2)) => cmp_versions_spec(v1@, v2@),
        (Some(_), None) => 1,
        (None, Some(_)) => -1,
        (None, None) => if x.path@ == "agent"@ && y.path@ != "agent"@ {
            -1
        } else if x.path@ != "agent"@ && y.path@ == "agent"@ {
            1
        } else {
            0
        },
    }
}

/// Picks the best installation: the last one that no later candidate
/// beats, preferring versioned installations and newest versions. None
/// only when the list is empty.
pub fn select_best_installation(installations: Vec<ClaudeInstallation>) -> (r: Option<
    ClaudeInstallation,
>)
    ensures
        r is Some <==> installations@.len() > 0,
        match r {
            Some(best) => exists|i: int|
                {
                    &&& 0 <= i < installations@.len()
                    &&& best == #[trigger] installations@[i]
                    &&& forall|j: int|
                        0 <= j < installations@.len() ==> beats(
                            #[trigger] installations@[j],
                            best,
                        ) <= 0
                    &&& forall|j: int|
                        i < j < installations@.len() ==> beats(
                            #[trigger] installations@[j],
                            best,
                        ) < 0
                },
            None => true,
        },
{
    let n = installations.len();
    if n == 0 {
        return None;
    }
    let mut best: usize = 0;
    let mut i: usize = 1;
    proof {
        lemma_beats_refl(installations@[0]);
    }
    while i < n
        invariant
            n == installations@.len(),
            best < i <= n,
            forall|j: int|
                0 <= j < i ==> beats(
                    #[trigger] installations@[j],
                    installations@[best as int],
                ) <= 0,
            forall|j: int|
                best < j < i ==> beats(
                    #[trigger] installations@[j],
                    installations@[best as int],
                ) < 0,
        decreases n - i,
    {
        let up = beats_exec(&installations[i], &installations[best]) >= 0;
        proof {
            if up {
                assert forall|j: int|
                    0 <= j < i + 1 implies beats(
                    #[trigger] installations@[j],
                    installations@[i as int],
                ) <= 0 by {
                    if j < i {
                        lemma_beats_trans(
                            installations@[j],
                            installations@[i as int],
                            installations@[best as int],
                        );
                    } else {
                        lemma_beats_refl(installations@[j]);
                    }
                }
            }
        }
        if up {
            best = i;
        }
        i += 1;
    }
    let mut v = installations;
    let r = v.remove(best);
    Some(r)
}

/// No installation beats itself.
proof fn lemma_beats_refl(x: ClaudeInstallation)
    ensures
        beats(x, x) == 0,
{
    match x.version {
        Some(v) => {
            lemma_cmp_parts_refl(version_parts(v@), 0);
        },
        None => {},
    }
}

/// Compares two installations as `beats` lays it out.
fn beats_exec(x: &ClaudeInstallation, y: &ClaudeInstallation) -> (r: i8)
    ensures
        r == beats(*x, *y),
        -1 <= r <= 1,
{
    match (&x.version, &y.version) {
        (Some(v1), Some(v2)) => compare_versions(v1.as_str(), v2.as_str()),
        (Some(_), None) => 1,
        (None, Some(_)) => -1,
        (None, None) => {
            proof {
                reveal_strlit("agent");
            }
            let xc = str_eq(x.path.as_str(), "agent");
            let yc = str_eq(y.path.as_str(), "agent");
            if xc && !yc {
                -1
            } else if !xc && yc {
                1
            } else {
                0
            }
        },
    }
}

} // verus!
