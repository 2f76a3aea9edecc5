//! Content-addressed blob storage. Each blob is keyed by the digest of its
//! own content, so identical content is stored exactly once.

use vstd::prelude::*;
use crate::digest::{content_digest, digest_of};
use crate::strutil::str_eq;
use crate::types::CheckpointError;

verus! {

/// The store: a list of (digest, content) pairs with pairwise-distinct
/// digests, each digest naming its own content.
pub struct ContentStore {
    entries: Vec<(String, String)>,
}

impl ContentStore {
    /// The stored pairs, as (digest, content) views, in insertion order.
    pub closed spec fn blobs(self) -> Seq<(Seq<char>, Seq<char>)> {
        self.entries@.map_values(|e: (String, String)| (e.0@, e.1@))
    }

    /// Digests are pairwise distinct and each digest names its content.
    pub open spec fn wf(self) -> bool {
        &&& forall|i: int|
            0 <= i < self.blobs().len() ==> (#[trigger] self.blobs()[i]).0 == digest_of(
                self.blobs()[i].1,
            )
        &&& forall|i: int, j: int|
            0 <= i < j < self.blobs().len() ==> (#[trigger] self.blobs()[i]).0 != (
            #[trigger] self.blobs()[j]).0
    }

    /// Some blob is stored under digest `h`.
    pub open spec fn has_blob(self, h: Seq<char>) -> bool {
        seq_has_key(self.blobs(), h)
    }

    /// Content `c` is stored under digest `h`.
    pub open spec fn has_pair(self, h: Seq<char>, c: Seq<char>) -> bool {
        seq_has_pair(self.blobs(), h, c)
    }

    /// What the blob list becomes when `c` is put: unchanged if its digest
    /// is already present, else extended by one blob.
    pub open spec fn blobs_after_put(self, c: Seq<char>) -> Seq<(Seq<char>, Seq<char>)> {
        blobs_put(self.blobs(), c)
    }

    /// Putting content whose pair is already stored changes nothing: the
    /// digest is the same and no second blob appears.
    pub proof fn lemma_put_idempotent(self, c: Seq<char>)
        requires
            self.has_pair(digest_of(c), c),
        ensures
            self.blobs_after_put(c) == self.blobs(),
    {
        let i = choose|i: int|
            0 <= i < self.blobs().len() && #[trigger] self.blobs()[i] == (digest_of(c), c);
        assert(self.blobs()[i].0 == digest_of(c));
    }

    /// In a well-formed store a digest determines the stored content.
    pub proof fn lemma_pair_unique(self, h: Seq<char>, c1: Seq<char>, c2: Seq<char>)
        requires
            self.wf(),
            self.has_pair(h, c1),
            self.has_pair(h, c2),
        ensures
            c1 == c2,
    {
        let i = choose|i: int|
            0 <= i < self.blobs().len() && #[trigger] self.blobs()[i] == (h, c1);
        let j = choose|j: int|
            0 <= j < self.blobs().len() && #[trigger] self.blobs()[j] == (h, c2);
        if i != j {
            assert(self.blobs()[i].0 != self.blobs()[j].0);
        }
    }

    pub fn new() -> (r: ContentStore)
        ensures
            r.wf(),
            r.blobs().len() == 0,
    {
        ContentStore { entries: Vec::new() }
    }

    /// How many physical blobs the store holds.
    pub fn blob_count(&self) -> (r: usize)
        ensures
            r == self.blobs().len(),
    {
        self.entries.len()
    }

    /// Looks up the entry index for digest `h`, if any.
    fn find(&self, h: &String) -> (r: Option<usize>)
        ensures
            match r {
                Some(i) => i < self.blobs().len() && self.blobs()[i as int].0 == h@,
                None => !self.has_blob(h@),
            },
    {
        let n = self.entries.len();
        let mut i: usize = 0;
        while i < n
            invariant
                n == self.blobs().len(),
                i <= n,
                forall|j: int| 0 <= j < i ==> (#[trigger] self.blobs()[j]).0 != h@,
            decreases n - i,
        {
            if str_eq(self.entries[i].0.as_str(), h.as_str()) {
                return Some(i);
            }
            i += 1;
        }
        None
    }

    /// Stores `content` under the digest of itself and returns that digest.
    /// Idempotent: putting content that is already stored changes nothing
    /// and returns the same digest. Fails only if a different content is
    /// already stored under the same digest — a digest collision, treated
    /// as never occurring.
    pub fn put(&mut self, content: &String) -> (r: Result<String, CheckpointError>)
        requires
            old(self).wf(),
        ensures
            final(self).wf(),
            match r {
                Ok(h) => {
                    &&& h@ == digest_of(content@)
                    &&& final(self).has_pair(h@, content@)
                    &&& final(self).blobs() == old(self).blobs_after_put(content@)
                },
                Err(e) => {
                    &&& final(self).blobs() == old(self).blobs()
                    &&& old(self).has_blob(digest_of(content@))
                    &&& !old(self).has_pair(digest_of(content@), content@)
                    &&& e is StorageIo
                },
            },
    {
        let h = content_digest(content.as_str());
        match self.find(&h) {
            Some(i) => {
                if str_eq(self.entries[i].1.as_str(), content.as_str()) {
                    assert(self.has_pair(h@, content@));
                    Ok(h)
                } else {
                    proof {
                        let d = digest_of(content@);
                        let stored = self.blobs()[i as int].1;
                        assert(self.blobs()[i as int] == (d, stored));
                        assert(self.has_pair(d, stored));
                        if self.has_pair(d, content@) {
                            self.lemma_pair_unique(d, stored, content@);
                        }
                    }
                    Err(CheckpointError::StorageIo("content digest collision".to_owned()))
                }
            },
            None => {
                let ghost old_blobs = self.blobs();
                self.entries.push((h.clone(), content.clone()));
                proof {
                    assert(self.blobs() =~= old_blobs.push((digest_of(content@), content@)));
                    assert(self.blobs()[old_blobs.len() as int] == (digest_of(content@), content@));
                }
                Ok(h)
            },
        }
    }

    /// Returns the content stored under digest `h`; `NotFound` if absent.
    pub fn get(&self, h: &String) -> (r: Result<String, CheckpointError>)
        ensures
            match r {
                Ok(c) => self.has_pair(h@, c@),
                Err(e) => !self.has_blob(h@) && e is NotFound,
            },
    {
        match self.find(h) {
            Some(i) => {
                let c = self.entries[i].1.clone();
                assert(self.has_pair(h@, c@));
                Ok(c)
            },
            None => Err(CheckpointError::NotFound),
        }
    }

    /// Whether a blob is stored under digest `h`.
    pub fn contains(&self, h: &String) -> (r: bool)
        ensures
            r == self.has_blob(h@),
    {
        self.find(h).is_some()
    }

    /// Removes every blob whose digest is not in `keep`. What stays is
    /// exactly the stored pairs whose digest some element of `keep` names.
    pub fn sweep(&mut self, keep: &Vec<String>)
        requires
            old(self).wf(),
        ensures
            final(self).wf(),
            final(self).blobs() == old(self).blobs().filter(
                |b: (Seq<char>, Seq<char>)| seq_has_string(keep@, b.0),
            ),
    {
        let ghost pred = |b: (Seq<char>, Seq<char>)| seq_has_string(keep@, b.0);
        let mut kept: Vec<(String, String)> = Vec::new();
        let n = self.entries.len();
        let mut i: usize = 0;
        proof {
            assert(self.blobs().take(0) =~= Seq::<(Seq<char>, Seq<char>)>::empty());
            reveal_with_fuel(Seq::filter, 2);
        }
        while i < n
            invariant
                pred == (|b: (Seq<char>, Seq<char>)| seq_has_string(keep@, b.0)),
                n == self.entries@.len(),
                i <= n,
                self.blobs() == old(self).blobs(),
                self.entries == old(self).entries,
                old(self).wf(),
                kept@.map_values(|e: (String, String)| (e.0@, e.1@)) == self.blobs().take(
                    i as int,
                ).filter(pred),
            decreases n - i,
        {
            let ghost prev = kept@.map_values(|e: (String, String)| (e.0@, e.1@));
            let hit = vec_has_string(keep, &self.entries[i].0);
            if hit {
                kept.push((self.entries[i].0.clone(), self.entries[i].1.clone()));
            }
            proof {
                assert(self.blobs()[i as int] == (
                    self.entries@[i as int].0@,
                    self.entries@[i as int].1@,
                ));
                assert(hit == pred(self.blobs()[i as int]));
                let taken = self.blobs().take(i + 1);
                assert(taken.drop_last() =~= self.blobs().take(i as int));
                assert(taken.last() == self.blobs()[i as int]);
                reveal_with_fuel(Seq::filter, 2);
                assert(taken.filter(pred) == self.blobs().take(i as int).filter(pred) + (
                    if pred(self.blobs()[i as int]) {
                        seq![self.blobs()[i as int]]
                    } else {
                        Seq::empty()
                    }
                ));
                if hit {
                    assert(kept@.map_values(|e: (String, String)| (e.0@, e.1@)) =~= prev.push(
                        self.blobs()[i as int],
                    ));
                    assert(prev.push(self.blobs()[i as int]) =~= taken.filter(pred));
                } else {
                    assert(kept@.map_values(|e: (String, String)| (e.0@, e.1@)) =~= taken.filter(
                        pred,
                    ));
                }
            }
            i += 1;
        }
        proof {
            assert(self.blobs().take(n as int) =~= self.blobs());
        }
        self.entries = kept;
        proof {
            lemma_filter_keeps_wf(old(self).blobs(), pred);
        }
    }
}

/// Some blob in the list has digest `h`.
pub open spec fn seq_has_key(blobs: Seq<(Seq<char>, Seq<char>)>, h: Seq<char>) -> bool {
    exists|i: int| 0 <= i < blobs.len() && (#[trigger] blobs[i]).0 == h
}

/// The pair (`h`, `c`) is one of the blobs.
pub open spec fn seq_has_pair(blobs: Seq<(Seq<char>, Seq<char>)>, h: Seq<char>, c: Seq<char>) -> bool {
    exists|i: int| 0 <= i < blobs.len() && #[trigger] blobs[i] == (h, c)
}

/// One put of content `c` into a blob list: no change if the digest is
/// present, one pushed blob otherwise.
pub open spec fn blobs_put(blobs: Seq<(Seq<char>, Seq<char>)>, c: Seq<char>) -> Seq<
    (Seq<char>, Seq<char>),
> {
    if seq_has_key(blobs, digest_of(c)) {
        blobs
    } else {
        blobs.push((digest_of(c), c))
    }
}

/// Folding `blobs_put` over a list of contents, in order.
pub open spec fn blobs_put_all(
    blobs: Seq<(Seq<char>, Seq<char>)>,
    contents: Seq<Seq<char>>,
) -> Seq<(Seq<char>, Seq<char>)>
    decreases contents.len(),
{
    if contents.len() == 0 {
        blobs
    } else {
        blobs_put(blobs_put_all(blobs, contents.drop_last()), contents.last())
    }
}

/// Puts only ever extend the blob list: the old list stays as a prefix.
pub proof fn lemma_blobs_put_all_prefix(
    blobs: Seq<(Seq<char>, Seq<char>)>,
    contents: Seq<Seq<char>>,
)
    ensures
        blobs.is_prefix_of(blobs_put_all(blobs, contents)),
    decreases contents.len(),
{
    if contents.len() > 0 {
        lemma_blobs_put_all_prefix(blobs, contents.drop_last());
    }
}

/// Every blob after a fold of puts was either there before or carries one
/// of the contents that were put.
pub proof fn lemma_blobs_put_all_membership(
    blobs: Seq<(Seq<char>, Seq<char>)>,
    contents: Seq<Seq<char>>,
)
    ensures
        forall|i: int|
            0 <= i < blobs_put_all(blobs, contents).len() ==> blobs.contains(
                #[trigger] blobs_put_all(blobs, contents)[i],
            ) || exists|k: int|
                0 <= k < contents.len() && blobs_put_all(blobs, contents)[i] == (
                    digest_of(#[trigger] contents[k]),
                    contents[k],
                ),
    decreases contents.len(),
{
    if contents.len() > 0 {
        let prev = blobs_put_all(blobs, contents.drop_last());
        lemma_blobs_put_all_membership(blobs, contents.drop_last());
        assert forall|i: int|
            0 <= i < blobs_put_all(blobs, contents).len() implies blobs.contains(
            #[trigger] blobs_put_all(blobs, contents)[i],
        ) || exists|k: int|
            0 <= k < contents.len() && blobs_put_all(blobs, contents)[i] == (
                digest_of(#[trigger] contents[k]),
                contents[k],
            ) by {
            if i < prev.len() {
                assert(blobs_put_all(blobs, contents)[i] == prev[i]);
                if !blobs.contains(prev[i]) {
                    let k = choose|k: int|
                        0 <= k < contents.drop_last().len() && prev[i] == (
                            digest_of(#[trigger] contents.drop_last()[k]),
                            contents.drop_last()[k],
                        );
                    assert(contents[k] == contents.drop_last()[k]);
                }
            } else {
                let k = contents.len() - 1;
                assert(blobs_put_all(blobs, contents)[i] == (
                    digest_of(contents[k]),
                    contents[k],
                ));
            }
        }
    }
}

/// Some element of `v` views as `s`.
pub open spec fn seq_has_string(v: Seq<String>, s: Seq<char>) -> bool {
    exists|k: int| 0 <= k < v.len() && (#[trigger] v[k])@ == s
}

/// Whether some element of `v` equals `s`, character for character.
pub fn vec_has_string(v: &Vec<String>, s: &String) -> (r: bool)
    ensures
        r == seq_has_string(v@, s@),
{
    let n = v.len();
    let mut i: usize = 0;
    while i < n
        invariant
            n == v@.len(),
            i <= n,
            forall|k: int| 0 <= k < i ==> (#[trigger] v@[k])@ != s@,
        decreases n - i,
    {
        if str_eq(v[i].as_str(), s.as_str()) {
            return true;
        }
        i += 1;
    }
    false
}

/// Every element of a filtered sequence occurs in the original.
pub proof fn lemma_filter_subset<A>(s: Seq<A>, pred: spec_fn(A) -> bool)
    ensures
        forall|i: int|
            0 <= i < s.filter(pred).len() ==> s.contains(#[trigger] s.filter(pred)[i]),
    decreases s.len(),
{
    reveal_with_fuel(Seq::filter, 2);
    if s.len() > 0 {
        let prefix = s.drop_last();
        lemma_filter_subset(prefix, pred);
        let f = prefix.filter(pred);
        assert forall|i: int|
            0 <= i < s.filter(pred).len() implies s.contains(#[trigger] s.filter(pred)[i]) by {
            if i < f.len() {
                assert(prefix.contains(f[i]));
                let k = choose|k: int| 0 <= k < prefix.len() && prefix[k] == f[i];
                assert(s[k] == s.filter(pred)[i]);
            } else {
                assert(s.filter(pred)[i] == s.last());
                assert(s[s.len() - 1] == s.last());
            }
        }
    }
}

/// Filtering a well-formed blob list keeps it well-formed.
proof fn lemma_filter_keeps_wf(
    s: Seq<(Seq<char>, Seq<char>)>,
    pred: spec_fn((Seq<char>, Seq<char>)) -> bool,
)
    requires
        forall|i: int| 0 <= i < s.len() ==> (#[trigger] s[i]).0 == digest_of(s[i].1),
        forall|i: int, j: int|
            0 <= i < j < s.len() ==> (#[trigger] s[i]).0 != (#[trigger] s[j]).0,
    ensures
        forall|i: int|
            0 <= i < s.filter(pred).len() ==> (#[trigger] s.filter(pred)[i]).0 == digest_of(
                s.filter(pred)[i].1,
            ),
        forall|i: int, j: int|
            0 <= i < j < s.filter(pred).len() ==> (#[trigger] s.filter(pred)[i]).0 != (
            #[trigger] s.filter(pred)[j]).0,
    decreases s.len(),
{
    reveal_with_fuel(Seq::filter, 2);
    if s.len() > 0 {
        let prefix = s.drop_last();
        lemma_filter_keeps_wf(prefix, pred);
        lemma_filter_subset(prefix, pred);
        let f = prefix.filter(pred);
        assert forall|i: int|
            0 <= i < s.filter(pred).len() implies (#[trigger] s.filter(pred)[i]).0 == digest_of(
            s.filter(pred)[i].1,
        ) by {
            lemma_filter_subset(s, pred);
            let k = choose|k: int| 0 <= k < s.len() && s[k] == s.filter(pred)[i];
            assert(s[k].0 == digest_of(s[k].1));
        }
        if pred(s.last()) {
            assert(s.filter(pred) == f.push(s.last()));
            assert forall|i: int| 0 <= i < f.len() implies (#[trigger] f[i]).0 != s.last().0 by {
                assert(prefix.contains(f[i]));
                let k = choose|k: int| 0 <= k < prefix.len() && prefix[k] == f[i];
                assert(s[k] == prefix[k]);
                assert(s[k].0 != s[s.len() - 1].0);
            }
        } else {
            assert(s.filter(pred) == f);
        }
    }
}

} // verus!
