//! The disk I/O worker: which offset each operation touches, what a write
//! puts there, and how operations and bytes are counted. The file itself is
//! handled by the caller, which seeks, writes and reads as each step says.

use vstd::prelude::*;
use crate::prng::{fill_random, next_state, nth_state, simple_prng, stream_bytes};
use crate::text::{decimal, push_decimal};

verus! {

/// Bytes in a KiB.
pub const KIB: u64 = 1024;
/// Bytes in a MiB.
pub const MIB: u64 = 1048576;

/// Why a worker cannot be set up.
#[derive(Clone, Copy, Debug, PartialEq, Eq, Structural)]
pub enum IoSetupError {
    /// The file size or the chunk size in bytes does not fit in 64 bits.
    SizeOverflow,
    /// The chunk is not smaller than the file, so no offset leaves room for it.
    ChunkNotSmallerThanFile,
}

/// One disk worker: its sizes, its modes and its private pseudo-random stream.
#[derive(Clone, Copy, Debug)]
pub struct DiskWorker {
    pub worker_id: u64,
    /// Length of the scratch file, in bytes.
    pub total_bytes: u64,
    /// Bytes moved by each operation.
    pub chunk_size: u64,
    pub random: bool,
    pub read: bool,
    pub write: bool,
    /// State of the pseudo-random stream, seeded with the worker id.
    pub state: u64,
    /// Operations done so far.
    pub ops: u64,
}

/// The offset of operation `ops` in sequential mode: `ops * chunk` wrapped
/// into the offsets that leave room for a chunk.
pub open spec fn sequential_offset(ops: nat, chunk: nat, span: nat) -> nat
    recommends
        span > 0,
{
    (ops * chunk) % span
}

/// In sequential mode the offset moves on by one chunk per operation
/// while it stays inside the span, and where the chunk divides the span it
/// is back at 0 after `span / chunk` operations.
pub proof fn lemma_sequential_wraps(chunk: nat, span: nat)
    requires
        chunk > 0,
        span > 0,
        span % chunk == 0,
    ensures
        sequential_offset(span / chunk, chunk, span) == 0,
        forall|k: nat| k < span / chunk ==> #[trigger] sequential_offset(k, chunk, span) == k * chunk,
{
    let q = span / chunk;
    assert(q * chunk == span) by (nonlinear_arith)
        requires
            chunk > 0,
            span % chunk == 0,
            q == span / chunk,
    ;
    assert(span % span == 0);
    assert forall|k: nat| k < q implies #[trigger] sequential_offset(k, chunk, span) == k * chunk by {
        assert(k * chunk < span) by (nonlinear_arith)
            requires
                k < q,
                q * chunk == span,
                chunk > 0,
        ;
        vstd::arithmetic::div_mod::lemma_small_mod(k * chunk, span);
    }
}

impl DiskWorker {
    /// A chunk fits strictly inside the file.
    pub open spec fn wf(&self) -> bool {
        self.chunk_size < self.total_bytes
    }

    /// The number of offsets at which an operation may start.
    pub open spec fn span(&self) -> nat {
        (self.total_bytes - self.chunk_size) as nat
    }

    /// The offset that the next operation touches.
    pub open spec fn offset_spec(&self) -> u64 {
        if self.random {
            (next_state(self.state) as nat % self.span()) as u64
        } else {
            sequential_offset(self.ops as nat, self.chunk_size as nat, self.span()) as u64
        }
    }

    /// The stream state once the next offset has been picked.
    pub open spec fn state_after_offset(&self) -> u64 {
        if self.random {
            next_state(self.state)
        } else {
            self.state
        }
    }

    /// Sets up worker `worker_id` on a file of `file_size_mb` MiB with
    /// chunks of `chunk_kb` KiB. The configuration is refused where the
    /// chunk does not fit strictly inside the file.
    pub fn new(
        worker_id: u64,
        file_size_mb: u64,
        chunk_kb: u64,
        random: bool,
        read: bool,
        write: bool,
    ) -> (r: Result<DiskWorker, IoSetupError>)
        ensures
            (r == Err::<DiskWorker, IoSetupError>(IoSetupError::SizeOverflow)) == (
            file_size_mb * MIB > u64::MAX || chunk_kb * KIB > u64::MAX),
            (r == Err::<DiskWorker, IoSetupError>(IoSetupError::ChunkNotSmallerThanFile)) == (
            file_size_mb * MIB <= u64::MAX && chunk_kb * KIB <= u64::MAX && chunk_kb * KIB
                >= file_size_mb * MIB),
            (r is Ok) == (file_size_mb * MIB <= u64::MAX && chunk_kb * KIB <= u64::MAX && chunk_kb
                * KIB < file_size_mb * MIB),
            r matches Ok(w) ==> (w.wf() && w.worker_id == worker_id && w.total_bytes
                == file_size_mb * MIB && w.chunk_size == chunk_kb * KIB && w.random == random
                && w.read == read && w.write == write && w.state == worker_id && w.ops == 0),
    {
        let total = match file_size_mb.checked_mul(MIB) {
            Some(t) => t,
            None => return Err(IoSetupError::SizeOverflow),
        };
        let chunk = match chunk_kb.checked_mul(KIB) {
            Some(c) => c,
            None => return Err(IoSetupError::SizeOverflow),
        };
        if chunk >= total {
            return Err(IoSetupError::ChunkNotSmallerThanFile);
        }
        Ok(DiskWorker {
            worker_id,
            total_bytes: total,
            chunk_size: chunk,
            random,
            read,
            write,
            state: worker_id,
            ops: 0,
        })
    }

    /// Picks the offset of the next operation: a draw of the stream modulo
    /// the span in random mode, `ops * chunk` modulo the span in sequential
    /// mode. The offset always leaves room for a whole chunk.
    pub fn next_offset(&mut self) -> (r: u64)
        requires
            old(self).wf(),
        ensures
            r == old(self).offset_spec(),
            r + old(self).chunk_size < old(self).total_bytes,
            *final(self) == (DiskWorker { state: old(self).state_after_offset(), ..*old(self) }),
    {
        let span = self.total_bytes - self.chunk_size;
        if self.random {
            let x = simple_prng(&mut self.state);
            x % span
        } else {
            let ops = self.ops as u128;
            let chunk = self.chunk_size as u128;
            assert(ops * chunk <= u64::MAX as int * u64::MAX as int) by (nonlinear_arith)
                requires
                    ops <= u64::MAX,
                    chunk <= u64::MAX,
            ;
            let prod = ops * chunk;
            (prod % (span as u128)) as u64
        }
    }

    /// Fills `buf` with the next bytes of the worker's stream.
    pub fn fill_chunk(&mut self, buf: &mut Vec<u8>)
        ensures
            final(buf)@ == stream_bytes(old(self).state, old(buf)@.len()),
            *final(self) == (DiskWorker {
                state: nth_state(old(self).state, old(buf)@.len()),
                ..*old(self)
            }),
    {
        fill_random(&mut self.state, buf);
    }

    /// Plans one operation: picks its offset, fills `buf` with fresh stream
    /// bytes when writes are on, and counts the operation. The caller then
    /// writes `buf` at the offset (writes on) and reads a chunk back from it
    /// (reads on). Returns `None`, changing nothing, once the operation
    /// counter has reached its maximum.
    pub fn begin_op(&mut self, buf: &mut Vec<u8>) -> (r: Option<u64>)
        requires
            old(self).wf(),
        ensures
            old(self).ops == u64::MAX ==> r.is_none() && *final(self) == *old(self)
                && final(buf)@ == old(buf)@,
            old(self).ops < u64::MAX ==> {
                &&& r == Some(old(self).offset_spec())
                &&& final(self).ops == old(self).ops + 1
                &&& old(self).write ==> final(buf)@ == stream_bytes(
                    old(self).state_after_offset(),
                    old(buf)@.len(),
                ) && final(self).state == nth_state(
                    old(self).state_after_offset(),
                    old(buf)@.len(),
                )
                &&& !old(self).write ==> final(buf)@ == old(buf)@ && final(self).state
                    == old(self).state_after_offset()
                &&& final(self).worker_id == old(self).worker_id
                &&& final(self).total_bytes == old(self).total_bytes
                &&& final(self).chunk_size == old(self).chunk_size
                &&& final(self).random == old(self).random
                &&& final(self).read == old(self).read
                &&& final(self).write == old(self).write
            },
            final(self).wf(),
    {
        if self.ops == u64::MAX {
            return None;
        }
        let offset = self.next_offset();
        if self.write {
            self.fill_chunk(buf);
        }
        self.ops = self.ops + 1;
        Some(offset)
    }

    /// Bytes moved so far: one chunk per operation.
    pub fn bytes_processed(&self) -> (r: u128)
        ensures
            r == self.ops * self.chunk_size,
    {
        let ops = self.ops as u128;
        let chunk = self.chunk_size as u128;
        assert(ops * chunk <= u64::MAX as int * u64::MAX as int) by (nonlinear_arith)
            requires
                ops <= u64::MAX,
                chunk <= u64::MAX,
        ;
        ops * chunk
    }

    /// The active modes: `W` when writing, then `R` when reading.
    pub fn mode_label(&self) -> (r: String)
        ensures
            r@ == (if self.write { "W"@ } else { Seq::empty() }) + (if self.read {
                "R"@
            } else {
                Seq::empty()
            }),
    {
        let mut s = String::new();
        if self.write {
            s.append("W");
        }
        if self.read {
            s.append("R");
        }
        assert(s@ =~= (if self.write { "W"@ } else { Seq::empty() }) + (if self.read {
            "R"@
        } else {
            Seq::empty()
        }));
        s
    }
}

/// The name of worker `worker_id`'s scratch file: `worker_<id>.tmp`.
pub fn scratch_file_name(worker_id: u64) -> (r: String)
    ensures
        r@ == "worker_"@ + decimal(worker_id as nat) + ".tmp"@,
{
    let mut s = String::from_str("worker_");
    push_decimal(&mut s, worker_id);
    s.append(".tmp");
    s
}

/// One worker of the pool: the index of its target path and its id.
#[derive(Clone, Copy, Debug, PartialEq, Eq, Structural)]
pub struct WorkerSlot {
    pub path_index: u64,
    pub worker_id: u64,
}

/// The workers of path `p`: ids `0` to `workers - 1`.
pub open spec fn path_row(p: nat, workers: nat) -> Seq<WorkerSlot> {
    Seq::new(workers, |id: int| WorkerSlot { path_index: p as u64, worker_id: id as u64 })
}

/// The workers of the first `n` paths, path by path.
pub open spec fn slots_of(n: nat, workers: nat) -> Seq<WorkerSlot>
    decreases n,
{
    if n == 0 {
        Seq::empty()
    } else {
        slots_of((n - 1) as nat, workers) + path_row((n - 1) as nat, workers)
    }
}

/// Every (path, worker) pair of the pool: `workers` workers on each of
/// `n_paths` paths, each pair once.
pub fn worker_slots(n_paths: u64, workers: u64) -> (r: Vec<WorkerSlot>)
    ensures
        r@ == slots_of(n_paths as nat, workers as nat),
{
    let mut out: Vec<WorkerSlot> = Vec::new();
    let mut p: u64 = 0;
    while p < n_paths
        invariant
            p <= n_paths,
            out@ == slots_of(p as nat, workers as nat),
        decreases n_paths - p,
    {
        let ghost before = out@;
        let mut id: u64 = 0;
        while id < workers
            invariant
                p < n_paths,
                id <= workers,
                out@ == before + path_row(p as nat, workers as nat).subrange(0, id as int),
            decreases workers - id,
        {
            out.push(WorkerSlot { path_index: p, worker_id: id });
            assert(path_row(p as nat, workers as nat).subrange(0, id + 1) =~= path_row(
                p as nat,
                workers as nat,
            ).subrange(0, id as int).push(WorkerSlot { path_index: p, worker_id: id }));
            id = id + 1;
        }
        assert(path_row(p as nat, workers as nat).subrange(0, workers as int) =~= path_row(
            p as nat,
            workers as nat,
        ));
        p = p + 1;
    }
    out
}

} // verus!
