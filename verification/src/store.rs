//! Chunk storage held in memory: sessions by identifier, and in each session
//! at most one chunk per index.
//!
//! A store is changed through an exclusive borrow, so writes to it are serial.
//! Session identifiers are taken as they come: two uploads that use one
//! identifier write to one session.

use vstd::prelude::*;
use crate::assembly::{assembled, assembled_below, lemma_assembled_gap, no_chunks, Chunks};
use crate::chunks::{locate, ref_indices, well_located, ChunkRef};
use crate::order::ascending;
use crate::text::str_eq;

verus! {

/// Why a session could not be read.
#[derive(Clone, Copy, Debug, PartialEq, Eq, Structural)]
pub enum StoreError {
    /// No storage exists for the session.
    SessionNotFound,
    /// The session holds no chunk to assemble.
    NoChunksFound,
}

struct StoredChunk {
    index: usize,
    payload: Vec<u8>,
}

/// The chunks of one upload session, kept by ascending index.
pub struct Session {
    chunks: Vec<StoredChunk>,
}

impl View for Session {
    type V = Chunks;

    closed spec fn view(&self) -> Chunks {
        Map::new(
            |i: usize| exists|k: int| 0 <= k < self.chunks@.len() && self.chunks@[k].index == i,
            |i: usize|
                self.chunks@[choose|k: int|
                    0 <= k < self.chunks@.len() && self.chunks@[k].index == i].payload@,
        )
    }
}

/// Adds the bytes of `src` to the end of `out`.
fn append_bytes(out: &mut Vec<u8>, src: &Vec<u8>)
    ensures
        final(out)@ == old(out)@ + src@,
{
    out.extend_from_slice(src.as_slice());
    assert(out@ =~= old(out)@ + src@);
}

impl Session {
    #[verifier::type_invariant]
    spec fn in_order(self) -> bool {
        forall|i: int, j: int|
            0 <= i < j < self.chunks@.len() ==> self.chunks@[i].index < self.chunks@[j].index
    }

    /// The chunk at position `k` is what the view holds at that chunk's index.
    proof fn lemma_view_at(self, k: int)
        requires
            self.in_order(),
            0 <= k < self.chunks@.len(),
        ensures
            self@.dom().contains(self.chunks@[k].index),
            self@[self.chunks@[k].index] == self.chunks@[k].payload@,
    {
        let i = self.chunks@[k].index;
        let c = choose|c: int| 0 <= c < self.chunks@.len() && self.chunks@[c].index == i;
        if c < k {
            assert(self.chunks@[c].index < self.chunks@[k].index);
        } else if k < c {
            assert(self.chunks@[k].index < self.chunks@[c].index);
        }
    }

    /// A session without chunks.
    pub fn new() -> (s: Session)
        ensures
            s@ == Map::<usize, Seq<u8>>::empty(),
    {
        let s = Session { chunks: Vec::new() };
        assert(s@ =~= Map::<usize, Seq<u8>>::empty());
        s
    }

    /// Whether the session holds no chunk.
    pub fn is_empty(&self) -> (r: bool)
        ensures
            r == no_chunks(self@),
    {
        proof {
            use_type_invariant(self);
            if self.chunks@.len() > 0 {
                self.lemma_view_at(0);
            }
        }
        self.chunks.len() == 0
    }

    /// The number of chunks with an index below `index`.
    fn position(&self, index: usize) -> (p: usize)
        ensures
            p <= self.chunks@.len(),
            forall|i: int| 0 <= i < p ==> self.chunks@[i].index < index,
            forall|i: int| p <= i < self.chunks@.len() ==> index <= self.chunks@[i].index,
    {
        proof {
            use_type_invariant(self);
        }
        let mut lo: usize = 0;
        let mut hi: usize = self.chunks.len();
        while lo < hi
            invariant
                lo <= hi <= self.chunks@.len(),
                self.in_order(),
                forall|i: int| 0 <= i < lo ==> self.chunks@[i].index < index,
                forall|i: int| hi <= i < self.chunks@.len() ==> index <= self.chunks@[i].index,
            decreases hi - lo,
        {
            let mid = lo + (hi - lo) / 2;
            if self.chunks[mid].index < index {
                lo = mid + 1;
            } else {
                hi = mid;
            }
        }
        lo
    }

    /// Stores `payload` as the chunk `index`, in place of any chunk that the
    /// index held before.
    pub fn put(&mut self, index: usize, payload: Vec<u8>)
        ensures
            final(self)@ == old(self)@.insert(index, payload@),
    {
        proof {
            use_type_invariant(&*self);
        }
        let p = self.position(index);
        let ghost before = *self;
        let ghost bytes = payload@;
        let replace = p < self.chunks.len() && self.chunks[p].index == index;
        let mut chunks: Vec<StoredChunk> = Vec::new();
        core::mem::swap(&mut self.chunks, &mut chunks);
        if replace {
            chunks.set(p, StoredChunk { index, payload });
        } else {
            chunks.insert(p, StoredChunk { index, payload });
        }
        proof {
            let old_chunks = before.chunks@;
            assert forall|i: int, j: int| 0 <= i < j < chunks@.len() implies chunks@[i].index
                < chunks@[j].index by {
                let shift: int = if replace {
                    0
                } else {
                    1
                };
                let a = if i < p {
                    i
                } else {
                    i - shift
                };
                let b = if j < p {
                    j
                } else {
                    j - shift
                };
                if i != p && j != p {
                    assert(old_chunks[a].index < old_chunks[b].index);
                }
            }
        }
        self.chunks = chunks;
        proof {
            let old_chunks = before.chunks@;
            let new_chunks = self.chunks@;
            let shift: int = if replace {
                0
            } else {
                1
            };
            assert(new_chunks.len() == old_chunks.len() + shift);
            assert(new_chunks[p as int].index == index);
            assert(new_chunks[p as int].payload@ == bytes);
            assert forall|k: int| 0 <= k < p implies new_chunks[k] == old_chunks[k] by {}
            assert forall|k: int| p < k < new_chunks.len() implies new_chunks[k] == old_chunks[k
                - shift] by {}
            assert(self.in_order());
            assert forall|i: usize| #[trigger]
                self@.dom().contains(i) == before@.insert(index, bytes).dom().contains(i) by {
                if before@.dom().contains(i) && i != index {
                    let k = choose|k: int| 0 <= k < old_chunks.len() && old_chunks[k].index == i;
                    if k < p {
                        assert(new_chunks[k].index == i);
                    } else {
                        assert(new_chunks[k + shift].index == i);
                    }
                }
                if self@.dom().contains(i) && i != index {
                    let k = choose|k: int| 0 <= k < new_chunks.len() && new_chunks[k].index == i;
                    if k < p {
                        assert(old_chunks[k].index == i);
                    } else {
                        assert(old_chunks[k - shift].index == i);
                    }
                }
            }
            assert forall|i: usize| #[trigger] self@.dom().contains(i) implies self@[i]
                == before@.insert(index, bytes)[i] by {
                let k = choose|k: int| 0 <= k < new_chunks.len() && new_chunks[k].index == i;
                self.lemma_view_at(k);
                if k < p {
                    before.lemma_view_at(k);
                } else if k > p {
                    before.lemma_view_at(k - shift);
                }
            }
            assert(self@ =~= before@.insert(index, bytes));
        }
    }

    /// The indices that hold a chunk, in ascending order.
    pub fn indices(&self) -> (r: Vec<usize>)
        ensures
            ascending(r@),
            forall|i: usize| r@.contains(i) <==> self@.dom().contains(i),
    {
        proof {
            use_type_invariant(self);
        }
        let mut out: Vec<usize> = Vec::new();
        let mut k: usize = 0;
        while k < self.chunks.len()
            invariant
                k <= self.chunks@.len(),
                out@.len() == k,
                forall|j: int| 0 <= j < k ==> out@[j] == self.chunks@[j].index,
            decreases self.chunks@.len() - k,
        {
            out.push(self.chunks[k].index);
            k += 1;
        }
        proof {
            assert forall|i: usize| out@.contains(i) <==> self@.dom().contains(i) by {
                if out@.contains(i) {
                    let j = choose|j: int| 0 <= j < out@.len() && out@[j] == i;
                    assert(self.chunks@[j].index == i);
                }
                if self@.dom().contains(i) {
                    let j = choose|j: int|
                        0 <= j < self.chunks@.len() && self.chunks@[j].index == i;
                    assert(out@[j] == i);
                }
            }
        }
        out
    }

    /// Puts the chunks together: every payload, by ascending index.
    pub fn assemble(&self) -> (r: Vec<u8>)
        ensures
            r@ == assembled(self@),
    {
        proof {
            use_type_invariant(self);
        }
        let mut out: Vec<u8> = Vec::new();
        let mut k: usize = 0;
        let ghost mut done: int = 0;
        while k < self.chunks.len()
            invariant
                k <= self.chunks@.len(),
                self.in_order(),
                0 <= done <= usize::MAX + 1,
                k > 0 ==> done == self.chunks@[k - 1].index + 1,
                k == 0 ==> done == 0,
                out@ == assembled_below(self@, done),
            decreases self.chunks@.len() - k,
        {
            let ghost at = self.chunks@[k as int].index;
            proof {
                if k > 0 {
                    assert(self.chunks@[k - 1].index < self.chunks@[k as int].index);
                }
                assert forall|i: usize| done <= i < at implies !self@.dom().contains(i) by {
                    if self@.dom().contains(i) {
                        let c = choose|c: int|
                            0 <= c < self.chunks@.len() && self.chunks@[c].index == i;
                        if c < k {
                            if c < k - 1 {
                                assert(self.chunks@[c].index < self.chunks@[k - 1].index);
                            }
                        } else if c > k {
                            assert(self.chunks@[k as int].index < self.chunks@[c].index);
                        }
                    }
                }
                lemma_assembled_gap(self@, done, at as int);
                self.lemma_view_at(k as int);
            }
            append_bytes(&mut out, &self.chunks[k].payload);
            proof {
                done = at + 1;
            }
            k += 1;
        }
        proof {
            assert forall|i: usize| done <= i implies !self@.dom().contains(i) by {
                if self@.dom().contains(i) {
                    let c = choose|c: int|
                        0 <= c < self.chunks@.len() && self.chunks@[c].index == i;
                    if c < k - 1 {
                        assert(self.chunks@[c].index < self.chunks@[k - 1].index);
                    }
                }
            }
            lemma_assembled_gap(self@, done, usize::MAX + 1);
        }
        out
    }
}

struct StoredSession {
    id: String,
    session: Session,
}

/// The sessions of a chunk store: the chunks of each, by session identifier.
pub type Sessions = Map<Seq<char>, Chunks>;

/// The chunks that a store holds for a session: none where the session has no
/// storage.
pub open spec fn chunks_of(sessions: Sessions, session_id: Seq<char>) -> Chunks {
    if sessions.dom().contains(session_id) {
        sessions[session_id]
    } else {
        Map::empty()
    }
}

/// Chunk storage for any number of upload sessions.
pub struct ChunkStore {
    sessions: Vec<StoredSession>,
}

impl View for ChunkStore {
    type V = Sessions;

    closed spec fn view(&self) -> Sessions {
        Map::new(
            |id: Seq<char>|
                exists|k: int| 0 <= k < self.sessions@.len() && self.sessions@[k].id@ == id,
            |id: Seq<char>|
                self.sessions@[choose|k: int|
                    0 <= k < self.sessions@.len() && self.sessions@[k].id@ == id].session@,
        )
    }
}

impl ChunkStore {
    #[verifier::type_invariant]
    spec fn distinct(self) -> bool {
        forall|i: int, j: int|
            0 <= i < j < self.sessions@.len() ==> self.sessions@[i].id@ != self.sessions@[j].id@
    }

    /// The session at position `k` is what the view holds under its identifier.
    proof fn lemma_view_at(self, k: int)
        requires
            self.distinct(),
            0 <= k < self.sessions@.len(),
        ensures
            self@.dom().contains(self.sessions@[k].id@),
            self@[self.sessions@[k].id@] == self.sessions@[k].session@,
    {
        let id = self.sessions@[k].id@;
        let c = choose|c: int| 0 <= c < self.sessions@.len() && self.sessions@[c].id@ == id;
        if c < k {
            assert(self.sessions@[c].id@ != self.sessions@[k].id@);
        } else if k < c {
            assert(self.sessions@[k].id@ != self.sessions@[c].id@);
        }
    }

    /// A store without sessions.
    pub fn new() -> (store: ChunkStore)
        ensures
            store@ == Map::<Seq<char>, Chunks>::empty(),
    {
        let store = ChunkStore { sessions: Vec::new() };
        assert(store@ =~= Map::<Seq<char>, Chunks>::empty());
        store
    }

    /// Where the session stands, if it has storage.
    fn find(&self, session_id: &str) -> (r: Option<usize>)
        ensures
            match r {
                Some(k) => k < self.sessions@.len() && self.sessions@[k as int].id@ == session_id@,
                None => !self@.dom().contains(session_id@),
            },
    {
        let mut k: usize = 0;
        while k < self.sessions.len()
            invariant
                k <= self.sessions@.len(),
                forall|j: int| 0 <= j < k ==> self.sessions@[j].id@ != session_id@,
            decreases self.sessions@.len() - k,
        {
            if str_eq(self.sessions[k].id.as_str(), session_id) {
                return Some(k);
            }
            k += 1;
        }
        None
    }

    /// Stores `payload` as the chunk `index` of a session, in place of any
    /// chunk that the index held before. A session that has no storage yet
    /// gets it with this write.
    pub fn put(&mut self, session_id: &str, index: usize, payload: Vec<u8>)
        ensures
            final(self)@ == old(self)@.insert(
                session_id@,
                chunks_of(old(self)@, session_id@).insert(index, payload@),
            ),
    {
        proof {
            use_type_invariant(&*self);
        }
        let ghost before = *self;
        let ghost bytes = payload@;
        let found = self.find(session_id);
        let mut sessions: Vec<StoredSession> = Vec::new();
        core::mem::swap(&mut self.sessions, &mut sessions);
        let mut entry = match found {
            Some(k) => {
                proof {
                    before.lemma_view_at(k as int);
                }
                sessions.remove(k)
            },
            None => StoredSession { id: session_id.to_owned(), session: Session::new() },
        };
        entry.session.put(index, payload);
        let ghost rest = sessions@;
        sessions.push(entry);
        proof {
            let olds = before.sessions@;
            assert forall|j: int| 0 <= j < rest.len() implies #[trigger] rest[j].id@
                != session_id@ && exists|c: int|
                0 <= c < olds.len() && olds[c] == rest[j] && (c == j || c == j + 1) by {
                match found {
                    Some(k) => {
                        if j < k {
                            assert(olds[j] == rest[j]);
                            assert(olds[j].id@ != olds[k as int].id@);
                        } else {
                            assert(olds[j + 1] == rest[j]);
                            assert(olds[k as int].id@ != olds[j + 1].id@);
                        }
                    },
                    None => {
                        assert(olds[j] == rest[j]);
                        if olds[j].id@ == session_id@ {
                            before.lemma_view_at(j);
                        }
                    },
                }
            }
            assert forall|i: int, j: int| 0 <= i < j < sessions@.len() implies sessions@[i].id@
                != sessions@[j].id@ by {
                if j < rest.len() {
                    let ci = choose|c: int|
                        0 <= c < olds.len() && olds[c] == rest[i] && (c == i || c == i + 1);
                    let cj = choose|c: int|
                        0 <= c < olds.len() && olds[c] == rest[j] && (c == j || c == j + 1);
                    if ci == i + 1 {
                        assert(found is Some && i >= found->0);
                        assert(cj == j + 1);
                    }
                    assert(olds[ci].id@ != olds[cj].id@);
                } else {
                    assert(rest[i].id@ != session_id@);
                }
            }
        }
        self.sessions = sessions;
        proof {
            let olds = before.sessions@;
            let news = self.sessions@;
            let last = news.len() - 1;
            let target = before@.insert(
                session_id@,
                chunks_of(before@, session_id@).insert(index, bytes),
            );
            self.lemma_view_at(last);
            assert forall|id: Seq<char>| #[trigger]
                self@.dom().contains(id) == target.dom().contains(id) by {
                if before@.dom().contains(id) && id != session_id@ {
                    let k = choose|k: int| 0 <= k < olds.len() && olds[k].id@ == id;
                    let shift: int = if found is Some && k > found->0 {
                        1
                    } else {
                        0
                    };
                    assert(news[k - shift] == olds[k]);
                }
                if self@.dom().contains(id) && id != session_id@ {
                    let k = choose|k: int| 0 <= k < news.len() && news[k].id@ == id;
                    assert(k < last);
                    let c = choose|c: int|
                        0 <= c < olds.len() && olds[c] == rest[k] && (c == k || c == k + 1);
                    assert(olds[c].id@ == id);
                }
            }
            assert forall|id: Seq<char>| #[trigger] self@.dom().contains(id) implies self@[id]
                == target[id] by {
                let k = choose|k: int| 0 <= k < news.len() && news[k].id@ == id;
                self.lemma_view_at(k);
                if k < last {
                    let c = choose|c: int|
                        0 <= c < olds.len() && olds[c] == rest[k] && (c == k || c == k + 1);
                    before.lemma_view_at(c);
                }
            }
            assert(self@ =~= target);
        }
    }

    /// The chunks that a session holds, by ascending index, each with the name
    /// under which it is found. Fails where no storage exists for the session.
    pub fn list_chunks(&self, session_id: &str) -> (r: Result<Vec<ChunkRef>, StoreError>)
        ensures
            match r {
                Ok(refs) => {
                    &&& self@.dom().contains(session_id@)
                    &&& ascending(ref_indices(refs@))
                    &&& forall|i: usize|
                        ref_indices(refs@).contains(i) <==> self@[session_id@].dom().contains(i)
                    &&& well_located(refs@)
                },
                Err(e) => e == StoreError::SessionNotFound && !self@.dom().contains(session_id@),
            },
    {
        proof {
            use_type_invariant(self);
        }
        match self.find(session_id) {
            Some(k) => {
                proof {
                    self.lemma_view_at(k as int);
                }
                let order = self.sessions[k].session.indices();
                Ok(locate(&order))
            },
            None => Err(StoreError::SessionNotFound),
        }
    }

    /// Puts the chunks of a session together: every payload, by ascending
    /// index. Fails where the session has no storage or holds no chunk.
    pub fn assemble(&self, session_id: &str) -> (r: Result<Vec<u8>, StoreError>)
        ensures
            match r {
                Ok(bytes) => {
                    &&& self@.dom().contains(session_id@)
                    &&& bytes@ == assembled(self@[session_id@])
                },
                Err(e) => e == StoreError::NoChunksFound,
            },
            r is Err <==> no_chunks(chunks_of(self@, session_id@)),
    {
        proof {
            use_type_invariant(self);
        }
        match self.find(session_id) {
            Some(k) => {
                proof {
                    self.lemma_view_at(k as int);
                }
                if self.sessions[k].session.is_empty() {
                    Err(StoreError::NoChunksFound)
                } else {
                    Ok(self.sessions[k].session.assemble())
                }
            },
            None => Err(StoreError::NoChunksFound),
        }
    }

    /// Removes a session with all its chunks. A session without storage is
    /// left as it is: absent.
    pub fn remove_session(&mut self, session_id: &str)
        ensures
            final(self)@ == old(self)@.remove(session_id@),
    {
        proof {
            use_type_invariant(&*self);
        }
        let ghost before = *self;
        match self.find(session_id) {
            Some(k) => {
                let mut sessions: Vec<StoredSession> = Vec::new();
                core::mem::swap(&mut self.sessions, &mut sessions);
                let _ = sessions.remove(k);
                proof {
                    let olds = before.sessions@;
                    assert forall|i: int, j: int|
                        0 <= i < j < sessions@.len() implies sessions@[i].id@
                        != sessions@[j].id@ by {
                        let ci = if i < k {
                            i
                        } else {
                            i + 1
                        };
                        let cj = if j < k {
                            j
                        } else {
                            j + 1
                        };
                        assert(olds[ci].id@ != olds[cj].id@);
                    }
                }
                self.sessions = sessions;
                proof {
                    let olds = before.sessions@;
                    let news = self.sessions@;
                    let target = before@.remove(session_id@);
                    assert forall|j: int| 0 <= j < news.len() implies #[trigger] news[j].id@
                        != session_id@ by {
                        if j < k {
                            assert(olds[j].id@ != olds[k as int].id@);
                        } else {
                            assert(olds[k as int].id@ != olds[j + 1].id@);
                        }
                    }
                    assert forall|id: Seq<char>| #[trigger]
                        self@.dom().contains(id) == target.dom().contains(id) by {
                        if before@.dom().contains(id) && id != session_id@ {
                            let c = choose|c: int| 0 <= c < olds.len() && olds[c].id@ == id;
                            if c < k {
                                assert(news[c].id@ == id);
                            } else {
                                assert(news[c - 1].id@ == id);
                            }
                        }
                        if self@.dom().contains(id) {
                            let c = choose|c: int| 0 <= c < news.len() && news[c].id@ == id;
                            if c < k {
                                assert(olds[c].id@ == id);
                            } else {
                                assert(olds[c + 1].id@ == id);
                            }
                        }
                    }
                    assert forall|id: Seq<char>| #[trigger]
                        self@.dom().contains(id) implies self@[id] == target[id] by {
                        let c = choose|c: int| 0 <= c < news.len() && news[c].id@ == id;
                        self.lemma_view_at(c);
                        if c < k {
                            before.lemma_view_at(c);
                        } else {
                            before.lemma_view_at(c + 1);
                        }
                    }
                    assert(self@ =~= target);
                }
            },
            None => {
                assert(self@ =~= self@.remove(session_id@));
            },
        }
    }
}

} // verus!
