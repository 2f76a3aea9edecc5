//! Tag extraction for prompt files: a fixed keyword list matched against
//! the lowercased content.

use vstd::prelude::*;
use vstd::string::StrSliceExecFns;

verus! {

/// The lowercase form of a text. A fixed function of the characters
/// alone; its value is named, not restated.
pub uninterp spec fn lower_of(s: Seq<char>) -> Seq<char>;

/// Relies on str::to_lowercase: the Unicode lowercase form, a function of
/// the characters alone.
#[verifier::external_body]
fn lowercase(s: &str) -> (r: String)
    ensures
        r@ == lower_of(s@),
{
    s.to_lowercase()
}

/// `p` occurs contiguously in `s`.
pub open spec fn has_substring(s: Seq<char>, p: Seq<char>) -> bool {
    exists|i: int| 0 <= i <= s.len() - p.len() && #[trigger] s.subrange(i, i + p.len()) == p
}

/// Whether `pat` occurs in `s`.
pub fn contains_sub(s: &str, pat: &str) -> (r: bool)
    ensures
        r == has_substring(s@, pat@),
{
    let sl = s.unicode_len();
    let pl = pat.unicode_len();
    if pl > sl {
        return false;
    }
    let mut i: usize = 0;
    while i <= sl - pl
        invariant
            sl == s@.len(),
            pl == pat@.len(),
            pl <= sl,
            i <= sl - pl + 1,
            forall|x: int| 0 <= x < i ==> #[trigger] s@.subrange(x, x + pl) != pat@,
        decreases sl - pl + 1 - i,
    {
        let mut j: usize = 0;
        let mut matched = true;
        while j < pl && matched
            invariant
                sl == s@.len(),
                pl == pat@.len(),
                i + pl <= sl,
                j <= pl,
                matched ==> forall|y: int| 0 <= y < j ==> s@[i + y] == pat@[y],
                !matched ==> j > 0 && s@[i + j - 1] != pat@[j - 1],
            decreases pl - j,
        {
            if s.get_char(i + j) != pat.get_char(j) {
                matched = false;
            }
            j += 1;
        }
        if matched {
            proof {
                assert(s@.subrange(i as int, i + pl) =~= pat@);
            }
            return true;
        }
        proof {
            assert(s@.subrange(i as int, i + pl) != pat@) by {
                assert(s@.subrange(i as int, i + pl)[j - 1] == s@[i + j - 1]);
            }
        }
        i += 1;
    }
    false
}

/// The keywords a prompt's tags are drawn from.
pub open spec fn tag_keywords() -> Seq<Seq<char>> {
    seq![
        "react"@,
        "vue"@,
        "angular"@,
        "typescript"@,
        "javascript"@,
        "node"@,
        "nodejs"@,
        "express"@,
        "nest"@,
        "python"@,
        "django"@,
        "flask"@,
        "rust"@,
        "go"@,
        "java"@,
        "spring"@,
        "frontend"@,
        "backend"@,
        "fullstack"@,
        "api"@,
        "rest"@,
        "graphql"@,
        "database"@,
        "mongodb"@,
        "postgresql"@,
        "mysql"@,
        "redis"@,
        "docker"@,
        "kubernetes"@,
        "aws"@,
        "testing"@,
        "jest"@,
        "vitest"@,
    ]
}

/// The fixed keyword list, in order.
fn keyword_list() -> (r: Vec<&'static str>)
    ensures
        r@.map_values(|p: &str| p@) == tag_keywords(),
{
    let mut v: Vec<&'static str> = Vec::new();
    v.push("react");
    v.push("vue");
    v.push("angular");
    v.push("typescript");
    v.push("javascript");
    v.push("node");
    v.push("nodejs");
    v.push("express");
    v.push("nest");
    v.push("python");
    v.push("django");
    v.push("flask");
    v.push("rust");
    v.push("go");
    v.push("java");
    v.push("spring");
    v.push("frontend");
    v.push("backend");
    v.push("fullstack");
    v.push("api");
    v.push("rest");
    v.push("graphql");
    v.push("database");
    v.push("mongodb");
    v.push("postgresql");
    v.push("mysql");
    v.push("redis");
    v.push("docker");
    v.push("kubernetes");
    v.push("aws");
    v.push("testing");
    v.push("jest");
    v.push("vitest");
    proof {
        assert(v@.map_values(|p: &str| p@) =~= tag_keywords());
    }
    v
}

/// The lowercased content mentions this keyword.
pub open spec fn keyword_matches(content: Seq<char>, k: Seq<char>) -> bool {
    has_substring(lower_of(content), k)
}

/// The matches among the first `i` keywords, in list order.
pub open spec fn matched_prefix(content: Seq<char>, i: int) -> Seq<Seq<char>> {
    tag_keywords().take(i).filter(|k: Seq<char>| keyword_matches(content, k))
}

/// The keywords the lowercased content mentions, in list order.
pub open spec fn matched_keywords(content: Seq<char>) -> Seq<Seq<char>> {
    matched_prefix(content, tag_keywords().len() as int)
}

/// Extracts tags: each listed keyword the lowercased content mentions, in
/// list order, capped at ten.
pub fn extract_tags_from_content(content: &str) -> (r: Vec<String>)
    ensures
        r@.map_values(|t: String| t@) == if matched_keywords(content@).len() <= 10 {
            matched_keywords(content@)
        } else {
            matched_keywords(content@).take(10)
        },
{
    let lowered = lowercase(content);
    let keywords = keyword_list();
    let ghost kws = tag_keywords();
    let mut tags: Vec<String> = Vec::new();
    let n = keywords.len();
    let mut i: usize = 0;
    proof {
        reveal_with_fuel(Seq::filter, 2);
        assert(kws.take(0) =~= Seq::<Seq<char>>::empty());
        assert(tags@.map_values(|t: String| t@) =~= matched_prefix(content@, 0));
    }
    while i < n
        invariant
            kws == tag_keywords(),
            n == keywords@.len(),
            keywords@.map_values(|p: &str| p@) == kws,
            lowered@ == lower_of(content@),
            i <= n,
            tags@.map_values(|t: String| t@) == matched_prefix(content@, i as int),
        decreases n - i,
    {
        proof {
            assert(kws.take(i + 1).drop_last() =~= kws.take(i as int));
            assert(kws.take(i + 1).last() == kws[i as int]);
            assert(keywords@.map_values(|p: &str| p@)[i as int] == keywords@[i as int]@);
        }
        if contains_sub(lowered.as_str(), keywords[i]) {
            tags.push(keywords[i].to_owned());
            proof {
                reveal_with_fuel(Seq::filter, 2);
                assert(keyword_matches(content@, kws[i as int]));
                assert(tags@.map_values(|t: String| t@) =~= matched_prefix(content@, i + 1));
            }
        } else {
            proof {
                reveal_with_fuel(Seq::filter, 2);
                assert(!keyword_matches(content@, kws[i as int]));
                assert(tags@.map_values(|t: String| t@) =~= matched_prefix(content@, i + 1));
            }
        }
        i += 1;
    }
    proof {
        assert(kws.take(n as int) =~= kws);
        assert(matched_prefix(content@, n as int) == matched_keywords(content@));
    }
    // Cap the tag count.
    proof {
        let f = matched_keywords(content@);
        assert(f.take(f.len() as int) =~= f);
    }
    while tags.len() > 10
        invariant
            tags@.map_values(|t: String| t@) == matched_keywords(content@).take(
                tags@.len() as int,
            ),
            tags@.len() <= matched_keywords(content@).len(),
            tags@.len() == matched_keywords(content@).len() || tags@.len() >= 10,
        decreases tags@.len(),
    {
        let ghost prev = tags@;
        let _ = tags.pop();
        proof {
            let f = matched_keywords(content@);
            assert(tags@ =~= prev.drop_last());
            assert(prev.map_values(|t: String| t@).drop_last() =~= tags@.map_values(
                |t: String| t@,
            ));
            assert(f.take(prev.len() as int).drop_last() =~= f.take(prev.len() - 1));
        }
    }
    proof {
        let f = matched_keywords(content@);
        if f.len() <= 10 {
            assert(tags@.len() == f.len());
            assert(f.take(f.len() as int) =~= f);
        } else {
            assert(tags@.len() == 10);
        }
    }
    tags
}

} // verus!
