//! Checkpoint storage: a flat table of checkpoint records over the
//! content-addressed blob store. Records are kept in creation order; each
//! holds the checkpoint metadata, references into the blob store for every
//! captured file, and the exact transcript text.

use vstd::prelude::*;
use crate::content_store::{
    blobs_put_all, seq_has_key, seq_has_pair, ContentStore, seq_has_string,
};
use crate::digest::digest_of;
use crate::types::{Checkpoint, CheckpointError, CheckpointMetadata, FileSnapshot, WorkingFile};

verus! {

/// A stored reference to one captured file: where it lived, which blob
/// holds its content, and the content length in characters.
#[derive(Debug)]
pub struct FileRef {
    pub file_path: String,
    pub hash: String,
    pub size: u64,
}

impl Clone for FileRef {
    fn clone(&self) -> (r: Self)
        ensures
            r == *self,
    {
        FileRef {
            file_path: self.file_path.clone(),
            hash: self.hash.clone(),
            size: self.size,
        }
    }
}

/// One persisted checkpoint: metadata, file references, transcript.
#[derive(Debug)]
pub struct StoredCheckpoint {
    pub meta: Checkpoint,
    pub file_refs: Vec<FileRef>,
    pub transcript: String,
}

/// The contents of a file list, in order.
pub open spec fn contents_of(files: Seq<WorkingFile>) -> Seq<Seq<char>> {
    files.map_values(|f: WorkingFile| f.content@)
}

/// No two files share a path.
pub open spec fn paths_unique(files: Seq<WorkingFile>) -> bool {
    forall|k: int, l: int|
        0 <= k < l < files.len() ==> (#[trigger] files[k]).path@ != (#[trigger] files[l]).path@
}

/// The stored references describe exactly these files, in order.
pub open spec fn refs_match(refs: Seq<FileRef>, files: Seq<WorkingFile>) -> bool {
    &&& refs.len() == files.len()
    &&& forall|k: int|
        0 <= k < files.len() ==> {
            &&& (#[trigger] refs[k]).file_path@ == files[k].path@
            &&& refs[k].hash@ == digest_of(files[k].content@)
            &&& refs[k].size == files[k].content@.len()
        }
}

/// Digesting these contents against this blob list hits no collision: any
/// content whose digest is already a key is itself stored, and equal
/// digests within the list mean equal contents. Cryptographic digests are
/// treated as never colliding, so this holds in practice always.
pub open spec fn no_collision(
    blobs: Seq<(Seq<char>, Seq<char>)>,
    contents: Seq<Seq<char>>,
) -> bool {
    &&& forall|k: int|
        0 <= k < contents.len() ==> (seq_has_key(blobs, digest_of(#[trigger] contents[k]))
            ==> seq_has_pair(blobs, digest_of(contents[k]), contents[k]))
    &&& forall|k: int, l: int|
        0 <= k < l < contents.len() ==> (digest_of(#[trigger] contents[k]) == digest_of(
            #[trigger] contents[l],
        ) ==> contents[k] == contents[l])
}

/// Persistent checkpoint storage for a whole process: every session's
/// records share one blob store, so unchanged files are stored once.
pub struct CheckpointStorage {
    store: ContentStore,
    records: Vec<StoredCheckpoint>,
}

impl CheckpointStorage {
    /// The records, in creation order.
    pub closed spec fn recs(self) -> Seq<StoredCheckpoint> {
        self.records@
    }

    /// The underlying content store.
    pub closed spec fn cstore(self) -> ContentStore {
        self.store
    }

    /// A record with this checkpoint id exists.
    pub open spec fn has_record(self, id: Seq<char>) -> bool {
        exists|i: int| 0 <= i < self.recs().len() && (#[trigger] self.recs()[i]).meta.id@ == id
    }

    /// The index of the record with this id.
    pub open spec fn record_index(self, id: Seq<char>) -> int {
        choose|i: int| 0 <= i < self.recs().len() && (#[trigger] self.recs()[i]).meta.id@ == id
    }

    /// The record with this id.
    pub open spec fn record_for(self, id: Seq<char>) -> StoredCheckpoint {
        self.recs()[self.record_index(id)]
    }

    /// One record against the store: paths distinct, every referenced blob
    /// present, and reference sizes agreeing with the stored content.
    pub open spec fn rec_wf(rec: StoredCheckpoint, store: ContentStore) -> bool {
        &&& forall|k: int, l: int|
            0 <= k < l < rec.file_refs@.len() ==> (#[trigger] rec.file_refs@[k]).file_path@ != (
            #[trigger] rec.file_refs@[l]).file_path@
        &&& forall|k: int|
            0 <= k < rec.file_refs@.len() ==> store.has_blob(
                (#[trigger] rec.file_refs@[k]).hash@,
            )
        &&& forall|k: int, c: Seq<char>|
            0 <= k < rec.file_refs@.len() && #[trigger] store.has_pair(
                (#[trigger] rec.file_refs@[k]).hash@,
                c,
            ) ==> rec.file_refs@[k].size == c.len()
    }

    /// The store is well-formed, record ids are distinct, and every record
    /// is well-formed against the store.
    pub open spec fn wf(self) -> bool {
        &&& self.cstore().wf()
        &&& forall|i: int, j: int|
            0 <= i < j < self.recs().len() ==> (#[trigger] self.recs()[i]).meta.id@ != (
            #[trigger] self.recs()[j]).meta.id@
        &&& forall|i: int|
            0 <= i < self.recs().len() ==> Self::rec_wf(
                #[trigger] self.recs()[i],
                self.cstore(),
            )
    }

    /// In well-formed storage an id pins its record's index.
    pub proof fn lemma_record_index(self, i: int, id: Seq<char>)
        requires
            self.wf(),
            0 <= i < self.recs().len(),
            self.recs()[i].meta.id@ == id,
        ensures
            self.has_record(id),
            self.record_index(id) == i,
    {
        assert(self.has_record(id));
        let j = self.record_index(id);
        if i != j {
            assert(self.recs()[i].meta.id@ != self.recs()[j].meta.id@);
        }
    }

    pub fn new() -> (r: CheckpointStorage)
        ensures
            r.wf(),
            r.recs().len() == 0,
            r.cstore().blobs().len() == 0,
    {
        CheckpointStorage { store: ContentStore::new(), records: Vec::new() }
    }

    /// How many physical blobs the underlying store holds.
    pub fn blob_count(&self) -> (r: usize)
        ensures
            r == self.cstore().blobs().len(),
    {
        self.store.blob_count()
    }

    /// How many checkpoint records exist, over all sessions.
    pub fn record_count(&self) -> (r: usize)
        ensures
            r == self.recs().len(),
    {
        self.records.len()
    }

    /// Whether a checkpoint with this id exists, in any session.
    pub fn has_checkpoint(&self, id: &String) -> (r: bool)
        ensures
            r == self.has_record(id@),
    {
        self.find_record(id).is_some()
    }

    /// Looks up the record index for a checkpoint id.
    fn find_record(&self, id: &String) -> (r: Option<usize>)
        ensures
            match r {
                Some(i) => i < self.recs().len() && self.recs()[i as int].meta.id@ == id@,
                None => !self.has_record(id@),
            },
    {
        let n = self.records.len();
        let mut i: usize = 0;
        while i < n
            invariant
                n == self.recs().len(),
                i <= n,
                forall|j: int| 0 <= j < i ==> (#[trigger] self.recs()[j]).meta.id@ != id@,
            decreases n - i,
        {
            if crate::strutil::str_eq(self.records[i].meta.id.as_str(), id.as_str()) {
                return Some(i);
            }
            i += 1;
        }
        None
    }

    /// Hashes each file, stores the new blobs, and appends one checkpoint
    /// record — the record is written only after every blob, so a record
    /// never references a missing blob. Fails only on a duplicate id or a
    /// digest collision, both treated as never occurring; the record table
    /// is unchanged on failure.
    pub fn save_checkpoint(
        &mut self,
        id: String,
        session_id: &String,
        project_id: &String,
        parent_checkpoint_id: Option<String>,
        transcript: String,
        files: &Vec<WorkingFile>,
        description: Option<String>,
        created_at_ms: u64,
        message_index: u64,
        total_tokens: u64,
    ) -> (r: Result<Checkpoint, CheckpointError>)
        requires
            old(self).wf(),
            paths_unique(files@),
        ensures
            final(self).wf(),
            match r {
                Ok(cp) => {
                    &&& !old(self).has_record(id@)
                    &&& cp.id == id
                    &&& cp.session_id == *session_id
                    &&& cp.project_id == *project_id
                    &&& cp.parent_checkpoint_id == parent_checkpoint_id
                    &&& cp.created_at_ms == created_at_ms
                    &&& cp.description == description
                    &&& cp.message_index == message_index
                    &&& cp.metadata == (CheckpointMetadata {
                        total_tokens,
                        file_count: files@.len() as u64,
                    })
                    &&& final(self).recs().len() == old(self).recs().len() + 1
                    &&& final(self).recs().drop_last() == old(self).recs()
                    &&& final(self).recs().last().meta == cp
                    &&& final(self).recs().last().transcript == transcript
                    &&& refs_match(final(self).recs().last().file_refs@, files@)
                    &&& final(self).cstore().blobs() == blobs_put_all(
                        old(self).cstore().blobs(),
                        contents_of(files@),
                    )
                    &&& forall|k: int|
                        0 <= k < files@.len() ==> final(self).cstore().has_pair(
                            digest_of((#[trigger] files@[k]).content@),
                            files@[k].content@,
                        )
                },
                Err(e) => {
                    &&& final(self).recs() == old(self).recs()
                    &&& e is StorageIo
                    &&& old(self).has_record(id@) || !no_collision(
                        old(self).cstore().blobs(),
                        contents_of(files@),
                    )
                    &&& old(self).cstore().blobs().is_prefix_of(final(self).cstore().blobs())
                },
            },
    {
        if self.find_record(&id).is_some() {
            proof {
                assert(self.cstore().blobs().is_prefix_of(self.cstore().blobs()));
            }
            return Err(CheckpointError::StorageIo("duplicate checkpoint id".to_owned()));
        }
        let ghost old_store = self.cstore();
        let n = files.len();
        let mut refs: Vec<FileRef> = Vec::new();
        let mut k: usize = 0;
        while k < n
            invariant
                old(self).wf(),
                paths_unique(files@),
                !old(self).has_record(id@),
                n == files@.len(),
                k <= n,
                old_store == old(self).cstore(),
                self.recs() == old(self).recs(),
                self.cstore().wf(),
                self.cstore().blobs() == blobs_put_all(
                    old_store.blobs(),
                    contents_of(files@).take(k as int),
                ),
                refs_match(refs@, files@.take(k as int)),
                forall|l: int|
                    0 <= l < k ==> self.cstore().has_pair(
                        digest_of((#[trigger] files@[l]).content@),
                        files@[l].content@,
                    ),
            decreases n - k,
        {
            let ghost pre_put = self.cstore();
            let ghost d_k = digest_of(files@[k as int].content@);
            let put_result = self.store.put(&files[k].content);
            proof {
                crate::content_store::lemma_blobs_put_all_prefix(
                    old_store.blobs(),
                    contents_of(files@).take(k as int),
                );
            }
            match put_result {
                Ok(h) => {
                    let size_u = vstd::string::StrSliceExecFns::unicode_len(
                        files[k].content.as_str(),
                    );
                    refs.push(
                        FileRef { file_path: files[k].path.clone(), hash: h, size: size_u as u64 },
                    );
                    proof {
                        let cts = contents_of(files@);
                        assert(cts.take(k + 1).drop_last() =~= cts.take(k as int));
                        assert(cts.take(k + 1).last() == files@[k as int].content@);
                        assert(self.cstore().blobs() == blobs_put_all(
                            old_store.blobs(),
                            cts.take(k + 1),
                        ));
                        assert(refs_match(refs@, files@.take(k + 1))) by {
                            assert(files@.take(k + 1)[k as int] == files@[k as int]);
                            assert(forall|l: int|
                                0 <= l < k ==> files@.take(k + 1)[l] == #[trigger] files@.take(
                                    k as int,
                                )[l]);
                        }
                        assert(forall|l: int|
                            0 <= l < k ==> pre_put.has_pair(
                                digest_of((#[trigger] files@[l]).content@),
                                files@[l].content@,
                            ) ==> self.cstore().has_pair(
                                digest_of(files@[l].content@),
                                files@[l].content@,
                            )) by {
                            assert(pre_put.blobs().is_prefix_of(self.cstore().blobs()));
                            assert forall|l: int|
                                0 <= l < k && pre_put.has_pair(
                                    digest_of((#[trigger] files@[l]).content@),
                                    files@[l].content@,
                                ) implies self.cstore().has_pair(
                                digest_of(files@[l].content@),
                                files@[l].content@,
                            ) by {
                                let i = choose|i: int|
                                    0 <= i < pre_put.blobs().len() && #[trigger] pre_put.blobs()[i]
                                        == (digest_of(files@[l].content@), files@[l].content@);
                                assert(self.cstore().blobs()[i] == pre_put.blobs()[i]);
                            }
                        }
                    }
                },
                Err(e) => {
                    proof {
                        let cts = contents_of(files@);
                        // The failed put means a blob with this digest holds other
                        // content; trace that blob back to the original store or to
                        // an earlier file to exhibit the collision.
                        assert(pre_put.has_blob(d_k));
                        assert(!pre_put.has_pair(d_k, files@[k as int].content@));
                        if no_collision(old_store.blobs(), cts) {
                            let i = choose|i: int|
                                0 <= i < pre_put.blobs().len() && (#[trigger] pre_put.blobs()[
                                    i
                                ]).0 == d_k;
                            crate::content_store::lemma_blobs_put_all_membership(
                                old_store.blobs(),
                                cts.take(k as int),
                            );
                            let b = pre_put.blobs()[i];
                            if old_store.blobs().contains(b) {
                                assert(seq_has_key(old_store.blobs(), d_k)) by {
                                    let j = choose|j: int|
                                        0 <= j < old_store.blobs().len() && old_store.blobs()[j]
                                            == b;
                                    assert(old_store.blobs()[j].0 == d_k);
                                }
                                assert(cts[k as int] == files@[k as int].content@);
                                assert(seq_has_pair(old_store.blobs(), d_k, cts[k as int]));
                                let j = choose|j: int|
                                    0 <= j < old_store.blobs().len()
                                        && #[trigger] old_store.blobs()[j] == (d_k, cts[k as int]);
                                assert(pre_put.blobs()[j] == old_store.blobs()[j]);
                                assert(pre_put.has_pair(d_k, files@[k as int].content@));
                            } else {
                                let l = choose|l: int|
                                    0 <= l < cts.take(k as int).len() && b == (
                                        digest_of(#[trigger] cts.take(k as int)[l]),
                                        cts.take(k as int)[l],
                                    );
                                assert(cts[l] == cts.take(k as int)[l]);
                                assert(digest_of(cts[l]) == digest_of(cts[k as int]));
                                assert(cts[l] == cts[k as int]);
                                assert(b == (d_k, files@[k as int].content@));
                                assert(pre_put.has_pair(d_k, files@[k as int].content@));
                            }
                        }
                        lemma_recs_wf_extend(old(self).recs(), old_store, self.cstore());
                    }
                    return Err(e);
                },
            }
            k += 1;
        }
        proof {
            assert(contents_of(files@).take(n as int) =~= contents_of(files@));
            assert(files@.take(n as int) =~= files@);
        }
        let meta = Checkpoint {
            id,
            session_id: session_id.clone(),
            project_id: project_id.clone(),
            parent_checkpoint_id,
            created_at_ms,
            description,
            message_index,
            metadata: CheckpointMetadata { total_tokens, file_count: n as u64 },
        };
        let cp = meta.clone();
        let rec = StoredCheckpoint { meta, file_refs: refs, transcript };
        let ghost pre_push = *self;
        self.records.push(rec);
        proof {
            assert(self.recs().drop_last() =~= pre_push.recs());
            assert(self.recs() =~= pre_push.recs().push(rec));
            let store = self.cstore();
            crate::content_store::lemma_blobs_put_all_prefix(
                old_store.blobs(),
                contents_of(files@),
            );
            lemma_recs_wf_extend(old(self).recs(), old_store, store);
            // The new record is well-formed: the loop stored every file's
            // pair, and the store's key uniqueness pins each size.
            assert(Self::rec_wf(rec, store)) by {
                assert forall|y: int| 0 <= y < rec.file_refs@.len() implies store.has_blob(
                    (#[trigger] rec.file_refs@[y]).hash@,
                ) && (forall|c: Seq<char>|
                    #[trigger] store.has_pair(rec.file_refs@[y].hash@, c)
                        ==> rec.file_refs@[y].size == c.len()) by {
                    assert(store.has_pair(
                        digest_of(files@[y].content@),
                        files@[y].content@,
                    ));
                    assert(store.has_blob(rec.file_refs@[y].hash@)) by {
                        let i = choose|i: int|
                            0 <= i < store.blobs().len() && #[trigger] store.blobs()[i] == (
                                digest_of(files@[y].content@),
                                files@[y].content@,
                            );
                        assert(store.blobs()[i].0 == rec.file_refs@[y].hash@);
                    }
                    assert forall|c: Seq<char>|
                        store.has_pair(rec.file_refs@[y].hash@, c) implies rec.file_refs@[y].size
                        == c.len() by {
                        store.lemma_pair_unique(
                            rec.file_refs@[y].hash@,
                            c,
                            files@[y].content@,
                        );
                    }
                }
            }
            assert forall|i: int, j: int|
                0 <= i < j < self.recs().len() implies (#[trigger] self.recs()[i]).meta.id@ != (
                #[trigger] self.recs()[j]).meta.id@ by {
                if j == self.recs().len() - 1 {
                    assert(self.recs()[j].meta.id@ == cp.id@);
                    if self.recs()[i].meta.id@ == cp.id@ {
                        assert(old(self).recs()[i].meta.id@ == cp.id@);
                    }
                }
            }
        }
        Ok(cp)
    }
}

/// The loaded snapshots mirror the record's references, with each content
/// drawn from the store.
pub open spec fn snapshots_match(
    files: Seq<FileSnapshot>,
    rec: StoredCheckpoint,
    store: ContentStore,
) -> bool {
    &&& files.len() == rec.file_refs@.len()
    &&& forall|k: int|
        0 <= k < files.len() ==> {
            &&& (#[trigger] files[k]).file_path == rec.file_refs@[k].file_path
            &&& files[k].hash == rec.file_refs@[k].hash
            &&& files[k].size == rec.file_refs@[k].size
            &&& store.has_pair(rec.file_refs@[k].hash@, files[k].content@)
        }
}

/// Selects a session's records, in creation order.
pub open spec fn session_recs(recs: Seq<StoredCheckpoint>, sid: Seq<char>) -> Seq<
    StoredCheckpoint,
> {
    recs.filter(|rec: StoredCheckpoint| rec.meta.session_id@ == sid)
}

/// The checkpoints of a record list, in order.
pub open spec fn metas_of(recs: Seq<StoredCheckpoint>) -> Seq<Checkpoint> {
    recs.map_values(|rec: StoredCheckpoint| rec.meta)
}

impl CheckpointStorage {
    /// Loads a checkpoint's metadata, its files resolved through the
    /// content store, and its exact transcript, from any session of this
    /// project. `NotFound` exactly when no record has this id;
    /// `InvalidLineage` when the record belongs to another project.
    pub fn load_checkpoint_any(
        &self,
        project_id: &String,
        checkpoint_id: &String,
    ) -> (r: Result<(Checkpoint, Vec<FileSnapshot>, String), CheckpointError>)
        requires
            self.wf(),
        ensures
            match r {
                Ok(out) => {
                    &&& self.has_record(checkpoint_id@)
                    &&& out.0 == self.record_for(checkpoint_id@).meta
                    &&& out.0.project_id@ == project_id@
                    &&& snapshots_match(
                        out.1@,
                        self.record_for(checkpoint_id@),
                        self.cstore(),
                    )
                    &&& forall|k: int| 0 <= k < out.1@.len() ==> (#[trigger] out.1@[k]).wf()
                    &&& out.2 == self.record_for(checkpoint_id@).transcript
                },
                Err(e) => {
                    &&& (e is NotFound || e is InvalidLineage)
                    &&& (e is NotFound <==> !self.has_record(checkpoint_id@))
                    &&& e is InvalidLineage ==> self.has_record(checkpoint_id@)
                        && self.record_for(checkpoint_id@).meta.project_id@ != project_id@
                },
            },
    {
        let idx = match self.find_record(checkpoint_id) {
            None => {
                return Err(CheckpointError::NotFound);
            },
            Some(i) => i,
        };
        proof {
            self.lemma_record_index(idx as int, checkpoint_id@);
        }
        let rec = &self.records[idx];
        if !crate::strutil::str_eq(rec.meta.project_id.as_str(), project_id.as_str()) {
            return Err(CheckpointError::InvalidLineage);
        }
        let m = rec.file_refs.len();
        let mut files: Vec<FileSnapshot> = Vec::new();
        let mut k: usize = 0;
        while k < m
            invariant
                self.wf(),
                idx < self.recs().len(),
                *rec == self.recs()[idx as int],
                m == rec.file_refs@.len(),
                k <= m,
                files@.len() == k,
                forall|l: int|
                    0 <= l < k ==> {
                        &&& (#[trigger] files@[l]).file_path == rec.file_refs@[l].file_path
                        &&& files@[l].hash == rec.file_refs@[l].hash
                        &&& files@[l].size == rec.file_refs@[l].size
                        &&& self.cstore().has_pair(
                            rec.file_refs@[l].hash@,
                            files@[l].content@,
                        )
                        &&& files@[l].wf()
                    },
            decreases m - k,
        {
            let fr = &rec.file_refs[k];
            let content = match self.store.get(&fr.hash) {
                Ok(c) => c,
                Err(_) => {
                    proof {
                        assert(CheckpointStorage::rec_wf(*rec, self.cstore()));
                        assert(self.cstore().has_blob(rec.file_refs@[k as int].hash@));
                        assert(false);
                    }
                    return Err(CheckpointError::NotFound);
                },
            };
            proof {
                let h = rec.file_refs@[k as int].hash@;
                let i = choose|i: int|
                    0 <= i < self.cstore().blobs().len() && #[trigger] self.cstore().blobs()[i]
                        == (h, content@);
                assert(self.cstore().blobs()[i].0 == digest_of(self.cstore().blobs()[i].1));
            }
            files.push(
                FileSnapshot {
                    file_path: fr.file_path.clone(),
                    content,
                    hash: fr.hash.clone(),
                    size: fr.size,
                },
            );
            k += 1;
        }
        Ok((rec.meta.clone(), files, rec.transcript.clone()))
    }

    /// Loads a checkpoint's metadata, its files resolved through the
    /// content store, and its exact transcript. `NotFound` exactly when no
    /// record has this id; `InvalidLineage` when the record belongs to
    /// another project or session.
    pub fn load_checkpoint(
        &self,
        project_id: &String,
        session_id: &String,
        checkpoint_id: &String,
    ) -> (r: Result<(Checkpoint, Vec<FileSnapshot>, String), CheckpointError>)
        requires
            self.wf(),
        ensures
            match r {
                Ok(out) => {
                    &&& self.has_record(checkpoint_id@)
                    &&& out.0 == self.record_for(checkpoint_id@).meta
                    &&& out.0.project_id@ == project_id@
                    &&& out.0.session_id@ == session_id@
                    &&& snapshots_match(
                        out.1@,
                        self.record_for(checkpoint_id@),
                        self.cstore(),
                    )
                    &&& forall|k: int| 0 <= k < out.1@.len() ==> (#[trigger] out.1@[k]).wf()
                    &&& out.2 == self.record_for(checkpoint_id@).transcript
                },
                Err(e) => {
                    &&& (e is NotFound || e is InvalidLineage)
                    &&& (e is NotFound <==> !self.has_record(checkpoint_id@))
                    &&& e is InvalidLineage ==> self.has_record(checkpoint_id@) && (
                    self.record_for(checkpoint_id@).meta.project_id@ != project_id@
                        || self.record_for(checkpoint_id@).meta.session_id@ != session_id@)
                },
            },
    {
        match self.load_checkpoint_any(project_id, checkpoint_id) {
            Ok(out) => {
                if !crate::strutil::str_eq(out.0.session_id.as_str(), session_id.as_str()) {
                    return Err(CheckpointError::InvalidLineage);
                }
                Ok(out)
            },
            Err(e) => Err(e),
        }
    }

    /// All checkpoints of one session, in creation order.
    pub fn list_checkpoints(&self, session_id: &String) -> (r: Vec<Checkpoint>)
        ensures
            r@ == metas_of(session_recs(self.recs(), session_id@)),
    {
        let n = self.records.len();
        let mut out: Vec<Checkpoint> = Vec::new();
        let mut i: usize = 0;
        proof {
            reveal_with_fuel(Seq::filter, 2);
            assert(self.recs().take(0) =~= Seq::<StoredCheckpoint>::empty());
            assert(out@ =~= metas_of(session_recs(self.recs().take(0), session_id@)));
        }
        while i < n
            invariant
                n == self.recs().len(),
                i <= n,
                out@ == metas_of(session_recs(self.recs().take(i as int), session_id@)),
            decreases n - i,
        {
            let ghost prev = out@;
            let hit = crate::strutil::str_eq(
                self.records[i].meta.session_id.as_str(),
                session_id.as_str(),
            );
            if hit {
                out.push(self.records[i].meta.clone());
            }
            proof {
                reveal_with_fuel(Seq::filter, 2);
                let pred = |rec: StoredCheckpoint| rec.meta.session_id@ == session_id@;
                let taken = self.recs().take(i + 1);
                assert(taken.drop_last() =~= self.recs().take(i as int));
                assert(taken.last() == self.recs()[i as int]);
                if hit {
                    assert(session_recs(taken, session_id@) == session_recs(
                        self.recs().take(i as int),
                        session_id@,
                    ).push(self.recs()[i as int]));
                    assert(out@ =~= metas_of(session_recs(taken, session_id@)));
                } else {
                    assert(session_recs(taken, session_id@) == session_recs(
                        self.recs().take(i as int),
                        session_id@,
                    ));
                }
            }
            i += 1;
        }
        proof {
            assert(self.recs().take(n as int) =~= self.recs());
        }
        out
    }
}

/// Membership in one retention scope: the record belongs to this session
/// and project.
pub open spec fn in_scope(rec: StoredCheckpoint, sid: Seq<char>, pid: Seq<char>) -> bool {
    rec.meta.session_id@ == sid && rec.meta.project_id@ == pid
}

/// A scope's records, in creation order.
pub open spec fn scope_recs(recs: Seq<StoredCheckpoint>, sid: Seq<char>, pid: Seq<char>) -> Seq<
    StoredCheckpoint,
> {
    recs.filter(|rec: StoredCheckpoint| in_scope(rec, sid, pid))
}

/// `s` with its first `n` in-scope records removed. Records stand in
/// creation order, so what goes is the oldest of the scope.
pub open spec fn drop_first_in_scope(
    s: Seq<StoredCheckpoint>,
    sid: Seq<char>,
    pid: Seq<char>,
    n: nat,
) -> Seq<StoredCheckpoint>
    decreases s.len(),
{
    if s.len() == 0 {
        s
    } else if in_scope(s[0], sid, pid) && n > 0 {
        drop_first_in_scope(s.skip(1), sid, pid, (n - 1) as nat)
    } else {
        seq![s[0]] + drop_first_in_scope(s.skip(1), sid, pid, n)
    }
}

/// Digest `h` is referenced by some record's file reference.
pub open spec fn referenced(recs: Seq<StoredCheckpoint>, h: Seq<char>) -> bool {
    exists|i: int, k: int|
        #![trigger recs[i].file_refs@[k]]
        0 <= i < recs.len() && 0 <= k < recs[i].file_refs@.len() && recs[i].file_refs@[k].hash@
            == h
}

/// Dropping none of a scope's records leaves the list as it was.
pub proof fn lemma_drop_first_zero(s: Seq<StoredCheckpoint>, sid: Seq<char>, pid: Seq<char>)
    ensures
        drop_first_in_scope(s, sid, pid, 0) == s,
    decreases s.len(),
{
    if s.len() > 0 {
        lemma_drop_first_zero(s.skip(1), sid, pid);
        assert(drop_first_in_scope(s, sid, pid, 0) =~= seq![s[0]] + s.skip(1));
        assert(seq![s[0]] + s.skip(1) =~= s);
    }
}

/// What survives the drop is a selection of the original records.
pub proof fn lemma_drop_first_membership(
    s: Seq<StoredCheckpoint>,
    sid: Seq<char>,
    pid: Seq<char>,
    n: nat,
)
    ensures
        forall|x: int|
            0 <= x < drop_first_in_scope(s, sid, pid, n).len() ==> s.contains(
                #[trigger] drop_first_in_scope(s, sid, pid, n)[x],
            ),
    decreases s.len(),
{
    if s.len() > 0 {
        let tail = s.skip(1);
        assert forall|v: StoredCheckpoint| tail.contains(v) implies s.contains(v) by {
            let j = choose|j: int| 0 <= j < tail.len() && tail[j] == v;
            assert(s[j + 1] == v);
        }
        if in_scope(s[0], sid, pid) && n > 0 {
            lemma_drop_first_membership(tail, sid, pid, (n - 1) as nat);
            let res = drop_first_in_scope(s, sid, pid, n);
            assert forall|x: int| 0 <= x < res.len() implies s.contains(#[trigger] res[x]) by {
                assert(res[x] == drop_first_in_scope(tail, sid, pid, (n - 1) as nat)[x]);
            }
        } else {
            lemma_drop_first_membership(tail, sid, pid, n);
            let res = drop_first_in_scope(s, sid, pid, n);
            assert forall|x: int| 0 <= x < res.len() implies s.contains(#[trigger] res[x]) by {
                if x == 0 {
                    assert(res[0] == s[0]);
                } else {
                    assert(res[x] == drop_first_in_scope(tail, sid, pid, n)[x - 1]);
                }
            }
        }
    }
}

/// Dropping records keeps the checkpoint ids pairwise distinct.
pub proof fn lemma_drop_first_distinct(
    s: Seq<StoredCheckpoint>,
    sid: Seq<char>,
    pid: Seq<char>,
    n: nat,
)
    requires
        forall|i: int, j: int|
            0 <= i < j < s.len() ==> (#[trigger] s[i]).meta.id@ != (#[trigger] s[j]).meta.id@,
    ensures
        forall|x: int, y: int|
            0 <= x < y < drop_first_in_scope(s, sid, pid, n).len() ==> (
            #[trigger] drop_first_in_scope(s, sid, pid, n)[x]).meta.id@ != (
            #[trigger] drop_first_in_scope(s, sid, pid, n)[y]).meta.id@,
    decreases s.len(),
{
    if s.len() > 0 {
        let tail = s.skip(1);
        assert(forall|i: int, j: int|
            0 <= i < j < tail.len() ==> (#[trigger] tail[i]).meta.id@ != (
            #[trigger] tail[j]).meta.id@) by {
            assert(forall|i: int| 0 <= i < tail.len() ==> #[trigger] tail[i] == s[i + 1]);
        }
        if in_scope(s[0], sid, pid) && n > 0 {
            lemma_drop_first_distinct(tail, sid, pid, (n - 1) as nat);
        } else {
            lemma_drop_first_distinct(tail, sid, pid, n);
            lemma_drop_first_membership(tail, sid, pid, n);
            let res = drop_first_in_scope(s, sid, pid, n);
            let rest = drop_first_in_scope(tail, sid, pid, n);
            assert forall|x: int, y: int|
                0 <= x < y < res.len() implies (#[trigger] res[x]).meta.id@ != (
                #[trigger] res[y]).meta.id@ by {
                assert(res[y] == rest[y - 1]);
                if x == 0 {
                    assert(tail.contains(rest[y - 1]));
                    let j = choose|j: int| 0 <= j < tail.len() && tail[j] == rest[y - 1];
                    assert(s[j + 1] == rest[y - 1]);
                    assert(s[0].meta.id@ != s[j + 1].meta.id@);
                } else {
                    assert(res[x] == rest[x - 1]);
                }
            }
        }
    }
}

/// Cleaning one scope leaves exactly the scope's most recent records: the
/// first `n` of the scope go, the rest stay in order.
pub proof fn lemma_drop_first_scope_effect(
    s: Seq<StoredCheckpoint>,
    sid: Seq<char>,
    pid: Seq<char>,
    n: nat,
)
    ensures
        scope_recs(drop_first_in_scope(s, sid, pid, n), sid, pid) == if n <= scope_recs(
            s,
            sid,
            pid,
        ).len() {
            scope_recs(s, sid, pid).skip(n as int)
        } else {
            Seq::<StoredCheckpoint>::empty()
        },
    decreases s.len(),
{
    broadcast use vstd::seq_lib::group_filter_ensures;

    let pred = |rec: StoredCheckpoint| in_scope(rec, sid, pid);
    reveal_with_fuel(Seq::filter, 2);
    if s.len() == 0 {
        assert(scope_recs(s, sid, pid) =~= Seq::<StoredCheckpoint>::empty());
    } else {
        let tail = s.skip(1);
        let head = seq![s[0]];
        assert(s =~= head + tail);
        Seq::filter_distributes_over_add(head, tail, pred);
        assert(head.drop_last() =~= Seq::<StoredCheckpoint>::empty());
        assert(head.filter(pred) == if pred(s[0]) { head } else { Seq::<StoredCheckpoint>::empty() });
        if in_scope(s[0], sid, pid) && n > 0 {
            lemma_drop_first_scope_effect(tail, sid, pid, (n - 1) as nat);
            assert(scope_recs(s, sid, pid) =~= head + scope_recs(tail, sid, pid));
            if n <= scope_recs(s, sid, pid).len() {
                assert(scope_recs(s, sid, pid).skip(n as int) =~= scope_recs(
                    tail,
                    sid,
                    pid,
                ).skip(n - 1));
            }
        } else {
            lemma_drop_first_scope_effect(tail, sid, pid, n);
            let res = drop_first_in_scope(s, sid, pid, n);
            let rest = drop_first_in_scope(tail, sid, pid, n);
            assert(res =~= head + rest);
            Seq::filter_distributes_over_add(head, rest, pred);
            if pred(s[0]) {
                // Only reachable with n == 0: nothing is dropped anywhere.
                assert(n == 0);
                assert(scope_recs(s, sid, pid) =~= head + scope_recs(tail, sid, pid));
                assert(scope_recs(res, sid, pid) =~= head + scope_recs(rest, sid, pid));
                assert(scope_recs(tail, sid, pid).skip(0) =~= scope_recs(tail, sid, pid));
                assert(scope_recs(s, sid, pid).skip(0) =~= scope_recs(s, sid, pid));
            } else {
                assert(scope_recs(s, sid, pid) =~= scope_recs(tail, sid, pid));
                assert(scope_recs(res, sid, pid) =~= scope_recs(rest, sid, pid));
            }
        }
    }
}

/// Cleaning one session's scope never touches another session's records.
pub proof fn lemma_cleanup_preserves_other_sessions(
    s: Seq<StoredCheckpoint>,
    sid: Seq<char>,
    pid: Seq<char>,
    n: nat,
    other: Seq<char>,
)
    requires
        other != sid,
    ensures
        session_recs(drop_first_in_scope(s, sid, pid, n), other) == session_recs(s, other),
    decreases s.len(),
{
    let pred = |rec: StoredCheckpoint| rec.meta.session_id@ == other;
    reveal_with_fuel(Seq::filter, 2);
    if s.len() > 0 {
        let tail = s.skip(1);
        let head = seq![s[0]];
        assert(s =~= head + tail);
        Seq::filter_distributes_over_add(head, tail, pred);
        assert(head.drop_last() =~= Seq::<StoredCheckpoint>::empty());
        if in_scope(s[0], sid, pid) && n > 0 {
            lemma_cleanup_preserves_other_sessions(tail, sid, pid, (n - 1) as nat, other);
            assert(!pred(s[0]));
            assert(session_recs(s, other) =~= session_recs(tail, other));
        } else {
            lemma_cleanup_preserves_other_sessions(tail, sid, pid, n, other);
            let rest = drop_first_in_scope(tail, sid, pid, n);
            assert(drop_first_in_scope(s, sid, pid, n) =~= head + rest);
            Seq::filter_distributes_over_add(head, rest, pred);
            assert(session_recs(s, other) =~= head.filter(pred) + session_recs(tail, other));
        }
    }
}

impl CheckpointStorage {
    /// Retains the `keep_count` most recently created checkpoints of this
    /// session and project, deletes the older ones, and garbage-collects
    /// every blob that no remaining checkpoint references. Returns how many
    /// checkpoints were removed. When `keep_count` covers them all the call
    /// is a no-op: records and blobs are left exactly as they were. A blob
    /// referenced by any remaining checkpoint — this session's or
    /// another's — keeps its content.
    pub fn cleanup_old_checkpoints(
        &mut self,
        project_id: &String,
        session_id: &String,
        keep_count: usize,
    ) -> (r: usize)
        requires
            old(self).wf(),
        ensures
            final(self).wf(),
            ({
                let total = scope_recs(old(self).recs(), session_id@, project_id@).len();
                let removed: int = if keep_count >= total {
                    0
                } else {
                    total - keep_count
                };
                &&& r == removed
                &&& final(self).recs() == drop_first_in_scope(
                    old(self).recs(),
                    session_id@,
                    project_id@,
                    removed as nat,
                )
            }),
            forall|h: Seq<char>, c: Seq<char>|
                #[trigger] old(self).cstore().has_pair(h, c) && referenced(
                    final(self).recs(),
                    h,
                ) ==> final(self).cstore().has_pair(h, c),
            forall|i: int|
                0 <= i < final(self).cstore().blobs().len() ==> old(
                    self,
                ).cstore().blobs().contains(#[trigger] final(self).cstore().blobs()[i]),
            r == 0 ==> final(self).cstore().blobs() == old(self).cstore().blobs(),
            r > 0 ==> forall|i: int|
                0 <= i < final(self).cstore().blobs().len() ==> referenced(
                    final(self).recs(),
                    (#[trigger] final(self).cstore().blobs()[i]).0,
                ),
    {
        let ghost sid = session_id@;
        let ghost pid = project_id@;
        let ghost old_recs = self.recs();
        // First pass: how many records fall in this scope.
        let n = self.records.len();
        let mut total: usize = 0;
        let mut i: usize = 0;
        proof {
            reveal_with_fuel(Seq::filter, 2);
            assert(old_recs.take(0) =~= Seq::<StoredCheckpoint>::empty());
        }
        while i < n
            invariant
                sid == session_id@,
                pid == project_id@,
                old_recs == self.recs(),
                n == self.recs().len(),
                i <= n,
                total == scope_recs(old_recs.take(i as int), sid, pid).len(),
                total <= i,
            decreases n - i,
        {
            let hit = crate::strutil::str_eq(
                self.records[i].meta.session_id.as_str(),
                session_id.as_str(),
            ) && crate::strutil::str_eq(
                self.records[i].meta.project_id.as_str(),
                project_id.as_str(),
            );
            proof {
                reveal_with_fuel(Seq::filter, 2);
                let taken = old_recs.take(i + 1);
                assert(taken.drop_last() =~= old_recs.take(i as int));
                assert(taken.last() == old_recs[i as int]);
                assert(hit == in_scope(old_recs[i as int], sid, pid));
                if hit {
                    assert(scope_recs(taken, sid, pid) == scope_recs(
                        old_recs.take(i as int),
                        sid,
                        pid,
                    ).push(old_recs[i as int]));
                } else {
                    assert(scope_recs(taken, sid, pid) == scope_recs(
                        old_recs.take(i as int),
                        sid,
                        pid,
                    ));
                }
            }
            if hit {
                total += 1;
            }
            i += 1;
        }
        proof {
            assert(old_recs.take(n as int) =~= old_recs);
        }
        let removed_target: usize = if keep_count >= total {
            0
        } else {
            total - keep_count
        };
        if removed_target == 0 {
            proof {
                lemma_drop_first_zero(old_recs, sid, pid);
            }
            return 0;
        }
        // Second pass: remove the oldest in-scope records in place.
        let mut removed: usize = 0;
        let mut idx: usize = 0;
        while idx < self.records.len()
            invariant
                sid == session_id@,
                pid == project_id@,
                old_recs == old(self).recs(),
                old(self).wf(),
                self.cstore() == old(self).cstore(),
                removed <= removed_target,
                idx <= self.recs().len(),
                idx + removed <= old_recs.len(),
                self.recs().len() + removed == old_recs.len(),
                total == scope_recs(old_recs, sid, pid).len(),
                removed_target == if keep_count >= total {
                    0int
                } else {
                    total - keep_count
                },
                self.recs().skip(idx as int) == old_recs.skip(idx + removed),
                removed as int == vstd::math::min(
                    removed_target as int,
                    scope_recs(old_recs.take(idx + removed), sid, pid).len() as int,
                ),
                self.recs().take(idx as int) + drop_first_in_scope(
                    old_recs.skip(idx + removed),
                    sid,
                    pid,
                    (removed_target - removed) as nat,
                ) == drop_first_in_scope(old_recs, sid, pid, removed_target as nat),
                forall|x: int|
                    0 <= x < idx ==> old_recs.contains(#[trigger] self.recs()[x]),
            decreases self.recs().len() - idx,
        {
            let ghost j = idx + removed;
            proof {
                assert(self.recs()[idx as int] == self.recs().skip(idx as int)[0]);
                assert(old_recs.skip(j as int)[0] == old_recs[j as int]);
                assert(old_recs.skip(j as int).skip(1) =~= old_recs.skip(j + 1));
                reveal_with_fuel(Seq::filter, 2);
                let taken = old_recs.take(j + 1);
                assert(taken.drop_last() =~= old_recs.take(j as int));
                assert(taken.last() == old_recs[j as int]);
            }
            let hit = crate::strutil::str_eq(
                self.records[idx].meta.session_id.as_str(),
                session_id.as_str(),
            ) && crate::strutil::str_eq(
                self.records[idx].meta.project_id.as_str(),
                project_id.as_str(),
            );
            proof {
                reveal_with_fuel(Seq::filter, 2);
                let taken = old_recs.take(j + 1);
                assert(hit == in_scope(old_recs[j as int], sid, pid));
                if hit {
                    assert(scope_recs(taken, sid, pid) == scope_recs(
                        old_recs.take(j as int),
                        sid,
                        pid,
                    ).push(old_recs[j as int]));
                } else {
                    assert(scope_recs(taken, sid, pid) == scope_recs(
                        old_recs.take(j as int),
                        sid,
                        pid,
                    ));
                }
            }
            if hit && removed < removed_target {
                let ghost pre = self.recs();
                let _ = self.records.remove(idx);
                proof {
                    assert(self.recs() =~= pre.take(idx as int) + pre.skip(idx + 1));
                    assert(self.recs().take(idx as int) =~= pre.take(idx as int));
                    assert(self.recs().skip(idx as int) =~= pre.skip(idx + 1));
                    assert(pre.skip(idx as int).skip(1) =~= pre.skip(idx + 1));
                    assert(pre.skip(idx + 1) =~= old_recs.skip(j + 1));
                }
                removed += 1;
            } else {
                proof {
                    assert(self.recs().take(idx + 1) =~= self.recs().take(idx as int) + seq![
                        self.recs()[idx as int],
                    ]);
                    assert(old_recs.contains(self.recs()[idx as int])) by {
                        assert(self.recs()[idx as int] == old_recs[j as int]);
                    }
                }
                idx += 1;
            }
        }
        proof {
            assert(self.recs().skip(idx as int) =~= Seq::<StoredCheckpoint>::empty());
            assert(old_recs.skip(idx + removed) =~= Seq::<StoredCheckpoint>::empty()) by {
                assert(self.recs().skip(idx as int).len() == old_recs.skip(idx + removed).len());
            }
            assert(drop_first_in_scope(
                old_recs.skip(idx + removed),
                sid,
                pid,
                (removed_target - removed) as nat,
            ) =~= Seq::<StoredCheckpoint>::empty());
            assert(self.recs().take(idx as int) =~= self.recs());
            assert(self.recs() == drop_first_in_scope(
                old_recs,
                sid,
                pid,
                removed_target as nat,
            ));
            assert(old_recs.take(idx + removed) =~= old_recs);
            assert(removed == removed_target);
        }
        // Third pass: every digest a surviving record references is kept.
        let keep_hashes = self.collect_ref_hashes();
        let ghost pre_sweep = self.cstore();
        self.store.sweep(&keep_hashes);
        proof {
            let kh = keep_hashes@;
            let pred = |b: (Seq<char>, Seq<char>)| seq_has_string(kh, b.0);
            crate::content_store::lemma_filter_subset(pre_sweep.blobs(), pred);
            broadcast use vstd::seq_lib::group_filter_ensures;

            let newb = self.cstore().blobs();
            assert forall|h: Seq<char>, c: Seq<char>|
                #[trigger] pre_sweep.has_pair(h, c) && referenced(self.recs(), h) implies self
                .cstore().has_pair(h, c) by {
                let (bi, bk) = choose|bi: int, bk: int|
                    #![trigger self.recs()[bi].file_refs@[bk]]
                    0 <= bi < self.recs().len() && 0 <= bk < self.recs()[bi].file_refs@.len()
                        && self.recs()[bi].file_refs@[bk].hash@ == h;
                assert(seq_has_string(kh, h));
                let x = choose|x: int|
                    0 <= x < pre_sweep.blobs().len() && #[trigger] pre_sweep.blobs()[x] == (h, c);
                Seq::lemma_filter_contains(pre_sweep.blobs(), pred, x);
                let y = choose|y: int| 0 <= y < newb.len() && newb[y] == (h, c);
                assert(self.cstore().has_pair(h, c));
            }
            assert forall|i2: int| 0 <= i2 < newb.len() implies referenced(
                self.recs(),
                (#[trigger] newb[i2]).0,
            ) by {
                Seq::lemma_filter_pred(pre_sweep.blobs(), pred, i2);
                let x = choose|x: int| 0 <= x < kh.len() && (#[trigger] kh[x])@ == newb[i2].0;
                assert(referenced(self.recs(), kh[x]@));
            }
            // Well-formedness of the survivors against the swept store.
            lemma_drop_first_distinct(old_recs, sid, pid, removed_target as nat);
            lemma_drop_first_membership(old_recs, sid, pid, removed_target as nat);
            assert forall|i2: int|
                0 <= i2 < self.recs().len() implies Self::rec_wf(
                #[trigger] self.recs()[i2],
                self.cstore(),
            ) by {
                let rec = self.recs()[i2];
                let m = choose|m: int| 0 <= m < old_recs.len() && old_recs[m] == rec;
                assert(Self::rec_wf(rec, pre_sweep));
                assert forall|k: int| 0 <= k < rec.file_refs@.len() implies self.cstore().has_blob(
                    (#[trigger] rec.file_refs@[k]).hash@,
                ) by {
                    let h = rec.file_refs@[k].hash@;
                    assert(pre_sweep.has_blob(h));
                    let x = choose|x: int|
                        0 <= x < pre_sweep.blobs().len() && (#[trigger] pre_sweep.blobs()[x]).0
                            == h;
                    let c = pre_sweep.blobs()[x].1;
                    assert(pre_sweep.has_pair(h, c));
                    assert(referenced(self.recs(), h));
                    assert(self.cstore().has_pair(h, c));
                    let y = choose|y: int|
                        0 <= y < self.cstore().blobs().len() && #[trigger] self.cstore().blobs()[y]
                            == (h, c);
                    assert(self.cstore().blobs()[y].0 == h);
                }
                assert forall|k: int, c: Seq<char>|
                    0 <= k < rec.file_refs@.len() && #[trigger] self.cstore().has_pair(
                        (#[trigger] rec.file_refs@[k]).hash@,
                        c,
                    ) implies rec.file_refs@[k].size == c.len() by {
                    let h = rec.file_refs@[k].hash@;
                    let y = choose|y: int|
                        0 <= y < self.cstore().blobs().len() && #[trigger] self.cstore().blobs()[y]
                            == (h, c);
                    assert(pre_sweep.blobs().contains((h, c)));
                    let x = choose|x: int|
                        0 <= x < pre_sweep.blobs().len() && pre_sweep.blobs()[x] == (h, c);
                    assert(pre_sweep.has_pair(h, c));
                }
            }
        }
        removed
    }

    /// Collects every digest referenced by any record, ready for a sweep.
    fn collect_ref_hashes(&self) -> (r: Vec<String>)
        ensures
            forall|x: int| 0 <= x < r@.len() ==> referenced(self.recs(), (#[trigger] r@[x])@),
            forall|i: int, k: int|
                #![trigger self.recs()[i].file_refs@[k]]
                0 <= i < self.recs().len() && 0 <= k < self.recs()[i].file_refs@.len()
                    ==> seq_has_string(r@, self.recs()[i].file_refs@[k].hash@),
    {
        let mut out: Vec<String> = Vec::new();
        let n = self.records.len();
        let mut i: usize = 0;
        while i < n
            invariant
                n == self.recs().len(),
                i <= n,
                forall|x: int|
                    0 <= x < out@.len() ==> referenced(self.recs(), (#[trigger] out@[x])@),
                forall|i2: int, k2: int|
                    #![trigger self.recs()[i2].file_refs@[k2]]
                    0 <= i2 < i && 0 <= k2 < self.recs()[i2].file_refs@.len() ==> seq_has_string(
                        out@,
                        self.recs()[i2].file_refs@[k2].hash@,
                    ),
            decreases n - i,
        {
            let m = self.records[i].file_refs.len();
            let mut k: usize = 0;
            while k < m
                invariant
                    n == self.recs().len(),
                    i < n,
                    m == self.recs()[i as int].file_refs@.len(),
                    k <= m,
                    forall|x: int|
                        0 <= x < out@.len() ==> referenced(self.recs(), (#[trigger] out@[x])@),
                    forall|i2: int, k2: int|
                        #![trigger self.recs()[i2].file_refs@[k2]]
                        0 <= i2 < i && 0 <= k2 < self.recs()[i2].file_refs@.len()
                            ==> seq_has_string(out@, self.recs()[i2].file_refs@[k2].hash@),
                    forall|k2: int|
                        0 <= k2 < k ==> seq_has_string(
                            out@,
                            (#[trigger] self.recs()[i as int].file_refs@[k2]).hash@,
                        ),
                decreases m - k,
            {
                let ghost prev = out@;
                out.push(self.records[i].file_refs[k].hash.clone());
                proof {
                    assert(out@[prev.len() as int]@ == self.recs()[i as int].file_refs@[
                        k as int
                    ].hash@);
                    assert(referenced(self.recs(), out@[prev.len() as int]@));
                    assert(forall|x: int| 0 <= x < prev.len() ==> out@[x] == prev[x]);
                    assert forall|k2: int| 0 <= k2 < k + 1 implies seq_has_string(
                        out@,
                        (#[trigger] self.recs()[i as int].file_refs@[k2]).hash@,
                    ) by {
                        if k2 < k {
                            let x = choose|x: int|
                                0 <= x < prev.len() && (#[trigger] prev[x])@ == self.recs()[
                                    i as int
                                ].file_refs@[k2].hash@;
                            assert(out@[x]@ == self.recs()[i as int].file_refs@[k2].hash@);
                        } else {
                            assert(out@[prev.len() as int]@ == self.recs()[i as int].file_refs@[
                                k2
                            ].hash@);
                        }
                    }
                    assert forall|i2: int, k2: int|
                        #![trigger self.recs()[i2].file_refs@[k2]]
                        0 <= i2 < i && 0 <= k2 < self.recs()[i2].file_refs@.len()
                            implies seq_has_string(
                        out@,
                        self.recs()[i2].file_refs@[k2].hash@,
                    ) by {
                        let x = choose|x: int|
                            0 <= x < prev.len() && (#[trigger] prev[x])@ == self.recs()[
                                i2
                            ].file_refs@[k2].hash@;
                        assert(out@[x]@ == self.recs()[i2].file_refs@[k2].hash@);
                    }
                }
                k += 1;
            }
            i += 1;
        }
        out
    }
}

/// Round trip: loading the checkpoint that a save just wrote returns files
/// equal by path and content to the saved ones. (The transcript comes back
/// identical by the two contracts directly: save stores it in the record
/// and load returns the record's transcript.)
pub proof fn lemma_save_load_round_trip(
    st: CheckpointStorage,
    id: Seq<char>,
    files: Seq<WorkingFile>,
    loaded: Seq<FileSnapshot>,
)
    requires
        st.wf(),
        st.recs().len() > 0,
        st.recs().last().meta.id@ == id,
        refs_match(st.recs().last().file_refs@, files),
        forall|k: int|
            0 <= k < files.len() ==> st.cstore().has_pair(
                digest_of((#[trigger] files[k]).content@),
                files[k].content@,
            ),
        snapshots_match(loaded, st.record_for(id), st.cstore()),
    ensures
        loaded.len() == files.len(),
        forall|k: int|
            0 <= k < files.len() ==> (#[trigger] loaded[k]).file_path@ == files[k].path@
                && loaded[k].content@ == files[k].content@,
{
    st.lemma_record_index(st.recs().len() - 1, id);
    let rec = st.record_for(id);
    assert(rec == st.recs().last());
    assert forall|k: int|
        0 <= k < files.len() implies (#[trigger] loaded[k]).file_path@ == files[k].path@
        && loaded[k].content@ == files[k].content@ by {
        assert(rec.file_refs@[k].hash@ == digest_of(files[k].content@));
        st.cstore().lemma_pair_unique(
            rec.file_refs@[k].hash@,
            loaded[k].content@,
            files[k].content@,
        );
    }
}

/// Dedup: saving file contents that are all already stored adds no blob.
/// Two checkpoints sharing an unmodified file thus reference exactly one
/// stored blob for it — the store's digests are pairwise distinct, so one
/// digest never names two physical copies.
pub proof fn lemma_save_dedup(
    pre_blobs: Seq<(Seq<char>, Seq<char>)>,
    contents: Seq<Seq<char>>,
)
    requires
        forall|k: int|
            0 <= k < contents.len() ==> seq_has_pair(
                pre_blobs,
                digest_of(#[trigger] contents[k]),
                contents[k],
            ),
    ensures
        blobs_put_all(pre_blobs, contents) == pre_blobs,
    decreases contents.len(),
{
    if contents.len() > 0 {
        lemma_save_dedup(pre_blobs, contents.drop_last());
        let c = contents.last();
        assert(seq_has_pair(pre_blobs, digest_of(c), c));
        let i = choose|i: int|
            0 <= i < pre_blobs.len() && #[trigger] pre_blobs[i] == (digest_of(c), c);
        assert(pre_blobs[i].0 == digest_of(c));
        assert(seq_has_key(pre_blobs, digest_of(c)));
    }
}

/// Fork and create independence: appending one record for one session
/// leaves every other session's checkpoint list unchanged. Restores touch
/// storage not at all — `load_checkpoint` borrows it immutably.
pub proof fn lemma_save_preserves_other_sessions(
    pre: Seq<StoredCheckpoint>,
    rec: StoredCheckpoint,
    other: Seq<char>,
)
    requires
        rec.meta.session_id@ != other,
    ensures
        session_recs(pre.push(rec), other) == session_recs(pre, other),
{
    reveal_with_fuel(Seq::filter, 2);
    assert(pre.push(rec).drop_last() =~= pre);
    assert(pre.push(rec).last() == rec);
}

/// Restore determinism: two loads of the same checkpoint from the same
/// storage resolve the same path and byte-identical content for every file.
pub proof fn lemma_load_deterministic(
    st: CheckpointStorage,
    id: Seq<char>,
    f1: Seq<FileSnapshot>,
    f2: Seq<FileSnapshot>,
)
    requires
        st.wf(),
        snapshots_match(f1, st.record_for(id), st.cstore()),
        snapshots_match(f2, st.record_for(id), st.cstore()),
    ensures
        f1.len() == f2.len(),
        forall|k: int|
            0 <= k < f1.len() ==> (#[trigger] f1[k]).file_path == f2[k].file_path
                && f1[k].content@ == f2[k].content@,
{
    let rec = st.record_for(id);
    assert forall|k: int|
        0 <= k < f1.len() implies (#[trigger] f1[k]).file_path == f2[k].file_path && f1[
        k
    ].content@ == f2[k].content@ by {
        st.cstore().lemma_pair_unique(
            rec.file_refs@[k].hash@,
            f1[k].content@,
            f2[k].content@,
        );
    }
}

/// Records well-formed against a store stay well-formed when the store's
/// blob list is extended, provided the longer store is well-formed.
pub proof fn lemma_recs_wf_extend(
    recs: Seq<StoredCheckpoint>,
    pre: ContentStore,
    post: ContentStore,
)
    requires
        forall|i: int|
            0 <= i < recs.len() ==> CheckpointStorage::rec_wf(#[trigger] recs[i], pre),
        pre.blobs().is_prefix_of(post.blobs()),
        post.wf(),
    ensures
        forall|i: int|
            0 <= i < recs.len() ==> CheckpointStorage::rec_wf(#[trigger] recs[i], post),
{
    assert forall|i: int|
        0 <= i < recs.len() implies CheckpointStorage::rec_wf(#[trigger] recs[i], post) by {
        let rec = recs[i];
        assert forall|k: int| 0 <= k < rec.file_refs@.len() implies post.has_blob(
            (#[trigger] rec.file_refs@[k]).hash@,
        ) by {
            let h = rec.file_refs@[k].hash@;
            let j = choose|j: int| 0 <= j < pre.blobs().len() && (#[trigger] pre.blobs()[j]).0 == h;
            assert(post.blobs()[j] == pre.blobs()[j]);
        }
        assert forall|k: int, c: Seq<char>|
            0 <= k < rec.file_refs@.len() && #[trigger] post.has_pair(
                (#[trigger] rec.file_refs@[k]).hash@,
                c,
            ) implies rec.file_refs@[k].size == c.len() by {
            let h = rec.file_refs@[k].hash@;
            let j = choose|j: int|
                0 <= j < post.blobs().len() && #[trigger] post.blobs()[j] == (h, c);
            if j < pre.blobs().len() {
                assert(pre.blobs()[j] == (h, c));
                assert(pre.has_pair(h, c));
            } else {
                let m = choose|m: int|
                    0 <= m < pre.blobs().len() && (#[trigger] pre.blobs()[m]).0 == h;
                assert(post.blobs()[m].0 == h);
                assert(post.blobs()[m].0 != post.blobs()[j].0);
            }
        }
    }
}

} // verus!
