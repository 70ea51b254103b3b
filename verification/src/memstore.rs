//! The in-memory storage backend, and the streaming transfer engine
//! run against it. Objects staged by a writer stay invisible until the
//! writer is finalized; a configurable read fault lets a driver exercise
//! the engine's failure paths.

use vstd::prelude::*;
use crate::session::{Action, Event, Phase, TransferError, TransferSession};

verus! {

/// Looks a path up among stored objects: the content of the first
/// object at that path, if any.
pub open spec fn obj_lookup(objs: Seq<(Seq<char>, Seq<u8>)>, path: Seq<char>) -> Option<Seq<u8>>
    decreases objs.len(),
{
    if objs.len() == 0 {
        None
    } else if objs[0].0 == path {
        Some(objs[0].1)
    } else {
        obj_lookup(objs.skip(1), path)
    }
}

/// An in-memory storage backend: a mapping of paths to byte objects.
/// Reads can be made to fail after a set number of bytes, to exercise
/// the engine's streaming-failure path.
pub struct MemStorage {
    objects: Vec<(String, Vec<u8>)>,
    fail_reads_after: Option<usize>,
}

/// A byte-stream reader over one object of a `MemStorage`.
pub struct MemReader {
    data: Vec<u8>,
    pos: usize,
    fail_at: Option<usize>,
}

/// A byte sink writing one object: bytes are staged privately and become
/// visible in the storage only when the writer is finalized.
pub struct MemWriter {
    path: String,
    staged: Vec<u8>,
}

/// Whether a read fault set to `fault` fires at all on an object of
/// `len` bytes: it does exactly when it cuts the object short.
pub open spec fn fault_hits(fault: Option<usize>, len: nat) -> bool {
    match fault {
        Some(f) => f < len,
        None => false,
    }
}

/// A copy of a byte vector.
fn clone_bytes(v: &Vec<u8>) -> (r: Vec<u8>)
    ensures
        r@ == v@,
{
    let mut r: Vec<u8> = Vec::new();
    let mut i: usize = 0;
    while i < v.len()
        invariant
            i <= v@.len(),
            r@ =~= v@.take(i as int),
        decreases v@.len() - i,
    {
        r.push(v[i]);
        assert(r@ =~= v@.take(i + 1));
        i = i + 1;
    }
    assert(v@.take(v@.len() as int) =~= v@);
    r
}

impl MemStorage {
    /// The stored objects, newest first; a path's first entry is its
    /// visible content.
    pub closed spec fn entries(self) -> Seq<(Seq<char>, Seq<u8>)> {
        self.objects.deep_view()
    }

    /// The visible content at a path, if an object is stored there.
    pub open spec fn lookup(self, path: Seq<char>) -> Option<Seq<u8>> {
        obj_lookup(self.entries(), path)
    }

    /// The configured read fault, if any.
    pub closed spec fn read_fault(self) -> Option<usize> {
        self.fail_reads_after
    }

    /// An empty storage with no read fault.
    pub fn new() -> (s: MemStorage)
        ensures
            s.entries() == Seq::<(Seq<char>, Seq<u8>)>::empty(),
            s.read_fault() is None,
            forall|p: Seq<char>| s.lookup(p) is None,
    {
        let s = MemStorage { objects: Vec::new(), fail_reads_after: None };
        proof {
            assert(s.entries() =~= Seq::<(Seq<char>, Seq<u8>)>::empty());
        }
        s
    }

    /// Makes every reader opened from now on fail once it would hand
    /// out a byte at or past `limit`; `None` clears the fault.
    pub fn set_read_fault(&mut self, limit: Option<usize>)
        ensures
            final(self).entries() == old(self).entries(),
            final(self).read_fault() == limit,
    {
        self.fail_reads_after = limit;
    }

    /// Stores `data` at `path`, replacing whatever was visible there.
    pub fn put(&mut self, path: &str, data: Vec<u8>)
        ensures
            final(self).read_fault() == old(self).read_fault(),
            forall|p: Seq<char>| #[trigger]
                final(self).lookup(p) == (if p == path@ {
                    Some(data@)
                } else {
                    old(self).lookup(p)
                }),
    {
        let ghost prev = self.objects.deep_view();
        let ghost d = data@;
        self.objects.insert(0, (path.to_owned(), data));
        proof {
            let cur = self.objects.deep_view();
            assert(cur.len() == prev.len() + 1);
            assert(cur[0] == (path@, d));
            assert forall|k: int| 0 <= k < prev.len() implies cur[k + 1] == prev[k] by {
                assert(self.objects@[k + 1] == old(self).objects@[k]);
            }
            assert(cur.skip(1) =~= prev);
            assert forall|p: Seq<char>| #[trigger]
                self.lookup(p) == (if p == path@ {
                    Some(d)
                } else {
                    old(self).lookup(p)
                }) by {
                assert(obj_lookup(cur, p) == if cur[0].0 == p {
                    Some(cur[0].1)
                } else {
                    obj_lookup(cur.skip(1), p)
                });
            }
        }
    }

    /// The visible content at `path`, if any.
    pub fn get(&self, path: &str) -> (r: Option<&Vec<u8>>)
        ensures
            match r {
                Some(v) => self.lookup(path@) == Some(v@),
                None => self.lookup(path@) is None,
            },
    {
        let n = self.objects.len();
        let mut i: usize = 0;
        assert(self.entries().skip(0) =~= self.entries());
        while i < n
            invariant
                n == self.objects@.len(),
                i <= n,
                self.entries().len() == n,
                self.lookup(path@) == obj_lookup(self.entries().skip(i as int), path@),
            decreases n - i,
        {
            assert(self.entries().skip(i as int)[0] == self.entries()[i as int]);
            assert(self.entries()[i as int] == (self.objects@[i as int].0@,
            self.objects@[i as int].1@));
            if crate::order::str_eq(self.objects[i].0.as_str(), path) {
                return Some(&self.objects[i].1);
            }
            assert(self.entries().skip(i as int).skip(1) =~= self.entries().skip(i + 1));
            i = i + 1;
        }
        assert(self.entries().skip(n as int).len() == 0);
        None
    }

    /// Opens a reader on the object at `path`: fails, touching nothing,
    /// exactly when no object is stored there.
    pub fn open_reader(&self, path: &str) -> (r: Result<MemReader, TransferError>)
        ensures
            match r {
                Ok(rd) => self.lookup(path@) == Some(rd.content()) && rd.position() == 0
                    && rd.fault() == self.read_fault(),
                Err(e) => e == TransferError::SourceOpen && self.lookup(path@) is None,
            },
    {
        match self.get(path) {
            Some(v) => Ok(
                MemReader { data: clone_bytes(v), pos: 0, fail_at: self.fail_reads_after },
            ),
            None => Err(TransferError::SourceOpen),
        }
    }

    /// Opens a writer that will store at `path` once finalized. Opening
    /// a destination never fails on the in-memory backend.
    pub fn open_writer(&self, path: &str) -> (w: MemWriter)
        ensures
            w.path_view() == path@,
            w.staged_view() == Seq::<u8>::empty(),
    {
        MemWriter { path: path.to_owned(), staged: Vec::new() }
    }

    /// Commits a writer's staged bytes: the one step that makes the
    /// written object visible, replacing any previous content at its
    /// path.
    pub fn finalize(&mut self, w: MemWriter)
        ensures
            final(self).read_fault() == old(self).read_fault(),
            forall|p: Seq<char>| #[trigger]
                final(self).lookup(p) == (if p == w.path_view() {
                    Some(w.staged_view())
                } else {
                    old(self).lookup(p)
                }),
    {
        let MemWriter { path, staged } = w;
        self.put(path.as_str(), staged);
    }
}

impl MemReader {
    /// The full content of the object being read.
    pub closed spec fn content(self) -> Seq<u8> {
        self.data@
    }

    /// How many bytes have been handed out so far.
    pub closed spec fn position(self) -> int {
        self.pos as int
    }

    /// The reader's inherited read fault.
    pub closed spec fn fault(self) -> Option<usize> {
        self.fail_at
    }

    /// Reads the next chunk of at most `max` bytes. Returns the bytes at
    /// the current position, `None` at end of stream, or the injected
    /// stream fault when the chunk would cross the fault point.
    pub fn read_chunk(&mut self, max: usize) -> (r: Result<Option<Vec<u8>>, TransferError>)
        requires
            max >= 1,
        ensures
            final(self).content() == old(self).content(),
            final(self).fault() == old(self).fault(),
            ({
                let len = old(self).content().len() as int;
                let pos = old(self).position();
                let n = if max as int <= len - pos {
                    max as int
                } else {
                    len - pos
                };
                match r {
                    Ok(Some(chunk)) => pos < len && chunk@ == old(self).content().subrange(
                        pos,
                        pos + n,
                    ) && final(self).position() == pos + n && (old(self).fault() matches Some(f)
                        ==> pos + n <= f),
                    Ok(None) => pos >= len && final(self).position() == pos,
                    Err(e) => e == TransferError::Stream && final(self).position() == pos && pos
                        < len && (old(self).fault() matches Some(f) && pos + n > f),
                }
            }),
    {
        let len = self.data.len();
        let pos = self.pos;
        if pos >= len {
            return Ok(None);
        }
        let remaining = len - pos;
        let n = if max <= remaining {
            max
        } else {
            remaining
        };
        match self.fail_at {
            Some(f) => {
                if pos + n > f {
                    return Err(TransferError::Stream);
                }
            },
            None => {},
        }
        let mut chunk: Vec<u8> = Vec::new();
        let mut k: usize = 0;
        while k < n
            invariant
                k <= n,
                self.data@ == old(self).data@,
                self.pos == old(self).pos,
                self.fail_at == old(self).fail_at,
                len == self.data@.len(),
                pos + n <= len,
                chunk@ =~= self.data@.subrange(pos as int, pos + k),
            decreases n - k,
        {
            assert(pos + k < self.data@.len());
            chunk.push(self.data[pos + k]);
            assert(chunk@ =~= self.data@.subrange(pos as int, pos + k + 1));
            k = k + 1;
        }
        self.pos = pos + n;
        Ok(Some(chunk))
    }
}

impl MemWriter {
    /// The path the writer will store at.
    pub closed spec fn path_view(self) -> Seq<char> {
        self.path@
    }

    /// The bytes staged so far; invisible to readers of the storage.
    pub closed spec fn staged_view(self) -> Seq<u8> {
        self.staged@
    }

    /// Appends a chunk to the staged bytes. The storage itself is
    /// untouched: nothing becomes visible before `finalize`.
    pub fn write_chunk(&mut self, chunk: Vec<u8>)
        ensures
            final(self).path_view() == old(self).path_view(),
            final(self).staged_view() == old(self).staged_view() + chunk@,
    {
        let mut c = chunk;
        self.staged.append(&mut c);
    }
}

/// Streams the object at `src_path` of `src` to `dst_path` of `dst`,
/// a buffered chunk at a time, and finalizes the destination after the
/// last byte: all-or-nothing from the caller's view. Succeeds exactly
/// when the source object exists and no read fault cuts it short; on
/// success the destination holds a byte-for-byte copy, replacing any
/// previous content; on failure the destination is untouched, since it
/// is never finalized.
pub fn transfer(src: &MemStorage, src_path: &str, dst: &mut MemStorage, dst_path: &str) -> (r:
    Result<(), TransferError>)
    ensures
        ({
            let found = src.lookup(src_path@);
            match r {
                Ok(_) => (found matches Some(c) && !fault_hits(src.read_fault(), c.len())) && (
                found matches Some(c) ==> final(dst).read_fault() == old(dst).read_fault()
                    && forall|p: Seq<char>| #[trigger]
                    final(dst).lookup(p) == (if p == dst_path@ {
                        Some(c)
                    } else {
                        old(dst).lookup(p)
                    })),
                Err(TransferError::SourceOpen) => found is None && final(dst).entries() == old(
                    dst,
                ).entries() && final(dst).read_fault() == old(dst).read_fault(),
                Err(TransferError::Stream) => (found matches Some(c) && fault_hits(
                    src.read_fault(),
                    c.len(),
                )) && final(dst).entries() == old(dst).entries() && final(dst).read_fault()
                    == old(dst).read_fault(),
                Err(TransferError::DestOpen) => false,
            }
        }),
{
    let mut session = TransferSession::new();
    let mut reader = match src.open_reader(src_path) {
        Ok(rd) => {
            let a = session.step(Event::SourceOpened);
            rd
        },
        Err(e) => {
            let a = session.step(Event::SourceOpenFailed);
            return Err(e);
        },
    };
    let ghost c = reader.content();
    let mut writer = dst.open_writer(dst_path);
    let a = session.step(Event::DestOpened);
    let mut done = false;
    let mut failed = false;
    while !done && !failed
        invariant
            src.lookup(src_path@) == Some(c),
            reader.content() == c,
            reader.fault() == src.read_fault(),
            0 <= reader.position() <= c.len(),
            (match src.read_fault() {
                Some(f) => f < c.len() ==> reader.position() <= f,
                None => true,
            }),
            writer.path_view() == dst_path@,
            writer.staged_view() == c.take(reader.position()),
            !done && !failed ==> (session.phase() == Phase::DestOpen || session.phase()
                == Phase::Streaming) && session.pending() is None,
            done ==> session.phase() == Phase::Finalizing && reader.position() == c.len(),
            failed ==> session.phase() == Phase::Failed && fault_hits(src.read_fault(), c.len()),
            !(done && failed),
            dst.entries() == old(dst).entries(),
            dst.read_fault() == old(dst).read_fault(),
        decreases c.len() - reader.position() + (if done || failed {
            0int
        } else {
            1int
        }),
    {
        match reader.read_chunk(crate::BUFFER_CAPACITY) {
            Ok(Some(chunk)) => {
                let a = session.step(Event::ChunkRead(chunk));
                match a {
                    Action::WriteChunk(data) => {
                        writer.write_chunk(data);
                        let a2 = session.step(Event::ChunkWritten);
                        proof {
                            assert(writer.staged_view() =~= c.take(reader.position()));
                        }
                    },
                    _ => {
                        // a chunk read is always answered with its write action
                        assert(false);
                    },
                }
            },
            Ok(None) => {
                let a = session.step(Event::EndOfStream);
                done = true;
            },
            Err(_) => {
                let a = session.step(Event::ReadFailed);
                failed = true;
            },
        }
    }
    if failed {
        return Err(TransferError::Stream);
    }
    proof {
        assert(writer.staged_view() == c.take(c.len() as int));
        assert(c.take(c.len() as int) =~= c);
    }
    dst.finalize(writer);
    let a = session.step(Event::Finalized);
    Ok(())
}

/// Round trip: when a transfer has copied the object `c` stored at
/// `src_path` of `src` into `dst_path` — leaving the destination as
/// `transfer`'s contract describes — reading the destination path back
/// yields byte-for-byte the source object, whatever its size.
pub proof fn lemma_round_trip(
    src: MemStorage,
    src_path: Seq<char>,
    dst0: MemStorage,
    dst1: MemStorage,
    dst_path: Seq<char>,
    c: Seq<u8>,
)
    requires
        src.lookup(src_path) == Some(c),
        forall|p: Seq<char>| #[trigger]
            dst1.lookup(p) == (if p == dst_path {
                Some(c)
            } else {
                dst0.lookup(p)
            }),
    ensures
        dst1.lookup(dst_path) == src.lookup(src_path),
{
}

/// Overwrite, not merge: after a second copy of different content to the
/// same destination path, only the second content is visible there, and
/// every other path still holds what it held before either copy.
pub proof fn lemma_overwrite(
    dst0: MemStorage,
    dst1: MemStorage,
    dst2: MemStorage,
    dst_path: Seq<char>,
    c1: Seq<u8>,
    c2: Seq<u8>,
)
    requires
        forall|p: Seq<char>| #[trigger]
            dst1.lookup(p) == (if p == dst_path {
                Some(c1)
            } else {
                dst0.lookup(p)
            }),
        forall|p: Seq<char>| #[trigger]
            dst2.lookup(p) == (if p == dst_path {
                Some(c2)
            } else {
                dst1.lookup(p)
            }),
    ensures
        dst2.lookup(dst_path) == Some(c2),
        forall|p: Seq<char>| p != dst_path ==> dst2.lookup(p) == dst0.lookup(p),
{
}

} // verus!
