use vstd::prelude::*;

use crate::pool::{count_status, is_settled, PoolError, PoolStep, TaskStatus, WorkerPool};
use crate::utils::concat_all;

verus! {

/// The bytes of the parts laid end to end, first part first.
pub open spec fn concat_bodies(bodies: Seq<Seq<u8>>) -> Seq<u8> {
    concat_all(bodies)
}

/// A contiguous byte range of a payload, numbered from 1 in read order.
pub struct UploadPart {
    pub part_number: usize,
    pub body: Vec<u8>,
}

/// The bodies of a sequence of parts.
pub open spec fn part_bodies(parts: Seq<UploadPart>) -> Seq<Seq<u8>> {
    parts.map_values(|p: UploadPart| p.body@)
}

/// Parts numbered `first`, `first + 1`, ... in sequence order.
pub open spec fn numbered_from(parts: Seq<UploadPart>, first: nat) -> bool {
    forall|i: int| 0 <= i < parts.len() ==> #[trigger] parts[i].part_number == first + i
}

/// Every body holds exactly `size` bytes.
pub open spec fn all_full(bodies: Seq<Seq<u8>>, size: nat) -> bool {
    forall|i: int| 0 <= i < bodies.len() ==> #[trigger] bodies[i].len() == size
}

/// Splits a payload, read sequentially, into parts of a fixed size; the last
/// part may be shorter.
pub struct Chunker {
    part_size: usize,
    next_part: usize,
    body: Vec<u8>,
    finished: bool,
    emitted: Ghost<Seq<Seq<u8>>>,
}

impl Chunker {
    /// The size at which a part is emitted.
    pub closed spec fn part_size(&self) -> nat {
        self.part_size as nat
    }

    /// The bodies of the parts emitted so far, in order.
    pub closed spec fn emitted(&self) -> Seq<Seq<u8>> {
        self.emitted@
    }

    /// The bytes read but not yet emitted.
    pub closed spec fn pending(&self) -> Seq<u8> {
        self.body@
    }

    /// The end of the payload has been reached.
    pub closed spec fn is_finished(&self) -> bool {
        self.finished
    }

    pub closed spec fn wf(&self) -> bool {
        &&& self.part_size > 0
        &&& self.next_part == self.emitted@.len() + 1
        &&& self.body@.len() < self.part_size
        &&& !self.finished ==> all_full(self.emitted@, self.part_size as nat)
        &&& self.finished ==> self.body@.len() == 0
        &&& self.finished && self.emitted@.len() > 0 ==> {
            &&& all_full(self.emitted@.drop_last(), self.part_size as nat)
            &&& 0 < self.emitted@.last().len() <= self.part_size
        }
    }

    /// Everything read so far: the emitted parts followed by the pending bytes.
    pub open spec fn consumed(&self) -> Seq<u8> {
        concat_bodies(self.emitted()) + self.pending()
    }

    /// Every emitted part holds exactly the part size, and fewer bytes than
    /// that are pending; the bytes read so far are the parts followed by what
    /// is pending.
    pub proof fn lemma_part_sizes(&self)
        requires
            self.wf(),
        ensures
            !self.is_finished() ==> all_full(self.emitted(), self.part_size()),
            self.is_finished() ==> self.pending().len() == 0,
            self.is_finished() && self.emitted().len() > 0 ==> {
                &&& all_full(self.emitted().drop_last(), self.part_size())
                &&& 0 < self.emitted().last().len() <= self.part_size()
            },
            self.pending().len() < self.part_size(),
            self.consumed() == concat_bodies(self.emitted()) + self.pending(),
    {
    }

    pub fn new(part_size: usize) -> (r: Chunker)
        requires
            part_size > 0,
        ensures
            r.wf(),
            !r.is_finished(),
            r.part_size() == part_size,
            r.emitted() == Seq::<Seq<u8>>::empty(),
            r.pending() == Seq::<u8>::empty(),
    {
        Chunker { part_size, next_part: 1, body: Vec::new(), finished: false, emitted: Ghost(Seq::empty()) }
    }

    /// Takes the bytes of one read and returns the parts that became full,
    /// numbered after those emitted before.
    pub fn feed(&mut self, data: &Vec<u8>) -> (out: Vec<UploadPart>)
        requires
            old(self).wf(),
            !old(self).is_finished(),
            old(self).emitted().len() + data@.len() < usize::MAX,
        ensures
            final(self).wf(),
            !final(self).is_finished(),
            final(self).part_size() == old(self).part_size(),
            final(self).emitted() == old(self).emitted() + part_bodies(out@),
            final(self).consumed() == old(self).consumed() + data@,
            numbered_from(out@, old(self).emitted().len() + 1),
            out@.len() <= data@.len(),
    {
        let mut out: Vec<UploadPart> = Vec::new();
        let mut i: usize = 0;
        let ghost start = self.consumed();
        let ghost first = self.emitted@;
        while i < data.len()
            invariant
                self.wf(),
                i <= data@.len(),
                first.len() + data@.len() < usize::MAX,
                self.emitted@.len() <= first.len() + i,
                self.emitted@ == first + part_bodies(out@),
                self.consumed() == start + data@.subrange(0, i as int),
                numbered_from(out@, first.len() + 1),
                out@.len() <= i,
                self.part_size == old(self).part_size,
                !self.finished,
            decreases data@.len() - i,
        {
            let b = data[i];
            let ghost before = self.consumed();
            self.body.push(b);
            assert(self.consumed() =~= before.push(b));
            proof {
                assert(data@.subrange(0, i + 1) =~= data@.subrange(0, i as int).push(b));
            }
            if self.body.len() == self.part_size {
                let mut full: Vec<u8> = Vec::new();
                std::mem::swap(&mut full, &mut self.body);
                let ghost prev = self.emitted@;
                proof {
                    self.emitted@ = prev.push(full@);
                    assert(concat_bodies(self.emitted@) == concat_bodies(prev) + full@) by {
                        assert(self.emitted@.drop_last() =~= prev);
                    }
                    assert(self.consumed() =~= before.push(b));
                }
                let part = UploadPart { part_number: self.next_part, body: full };
                out.push(part);
                self.next_part = self.next_part + 1;
                proof {
                    assert(part_bodies(out@) =~= part_bodies(out@.drop_last()).push(part.body@));
                    assert(self.emitted@ =~= first + part_bodies(out@));
                }
            }
            i = i + 1;
            proof {
                assert(self.consumed() =~= start + data@.subrange(0, i as int));
            }
        }
        proof {
            assert(data@.subrange(0, data@.len() as int) =~= data@);
        }
        out
    }

    /// Ends the payload: returns the pending bytes as the last part, if any.
    pub fn finish(&mut self) -> (last: Option<UploadPart>)
        requires
            old(self).wf(),
            !old(self).is_finished(),
            old(self).emitted().len() + 1 < usize::MAX,
        ensures
            final(self).wf(),
            final(self).is_finished(),
            final(self).part_size() == old(self).part_size(),
            final(self).pending() == Seq::<u8>::empty(),
            final(self).consumed() == old(self).consumed(),
            match last {
                Some(p) => {
                    &&& old(self).pending().len() > 0
                    &&& p.body@ == old(self).pending()
                    &&& p.part_number == old(self).emitted().len() + 1
                    &&& final(self).emitted() == old(self).emitted().push(p.body@)
                },
                None => {
                    &&& old(self).pending().len() == 0
                    &&& final(self).emitted() == old(self).emitted()
                },
            },
    {
        self.finished = true;
        if self.body.len() == 0 {
            assert(self.consumed() =~= concat_bodies(self.emitted@));
            None
        } else {
            let mut full: Vec<u8> = Vec::new();
            std::mem::swap(&mut full, &mut self.body);
            let ghost prev = self.emitted@;
            proof {
                self.emitted@ = prev.push(full@);
                assert(self.emitted@.drop_last() =~= prev);
                assert(self.consumed() =~= concat_bodies(prev) + full@);
            }
            let part = UploadPart { part_number: self.next_part, body: full };
            self.next_part = self.next_part + 1;
            Some(part)
        }
    }
}

/// The result of one part upload: its number and the backend's content token.
pub struct CompletedPart {
    pub part_number: usize,
    pub e_tag: String,
}

/// Why a completed part could not be recorded.
#[derive(Debug, PartialEq, Eq, Structural)]
pub enum PartError {
    /// Part numbers start at 1.
    InvalidPartNumber,
    /// A part with this number was already recorded.
    DuplicatePart,
}

/// Whether the recorded parts are exactly those numbered 1 to `n`.
pub open spec fn covers_exactly(parts: Map<nat, Seq<char>>, n: nat) -> bool {
    forall|k: nat| #[trigger] parts.contains_key(k) <==> 1 <= k <= n
}

/// The completed parts of one upload session, held by part number, whatever
/// the order in which their uploads finished.
pub struct PartTable {
    slots: Vec<Option<String>>,
}

impl PartTable {
    /// The recorded parts: part number to content token.
    pub closed spec fn parts(&self) -> Map<nat, Seq<char>> {
        Map::new(
            |k: nat| 1 <= k <= self.slots@.len() && self.slots@[k - 1] is Some,
            |k: nat| self.slots@[k - 1]->Some_0@,
        )
    }

    /// The last slot is always filled: the table is no longer than its
    /// highest recorded part number.
    pub closed spec fn wf(&self) -> bool {
        self.slots@.len() > 0 ==> self.slots@.last() is Some
    }

    pub fn new() -> (r: PartTable)
        ensures
            r.wf(),
            r.parts() == Map::<nat, Seq<char>>::empty(),
    {
        let r = PartTable { slots: Vec::new() };
        assert(r.parts() =~= Map::<nat, Seq<char>>::empty());
        r
    }

    /// Records the completion of a part. A part number of 0, or one already
    /// recorded, is refused and leaves the table as it was.
    pub fn record(&mut self, part: CompletedPart) -> (r: Result<(), PartError>)
        requires
            old(self).wf(),
        ensures
            final(self).wf(),
            part.part_number == 0 ==> r == Err::<(), PartError>(PartError::InvalidPartNumber),
            part.part_number > 0 && old(self).parts().contains_key(part.part_number as nat)
                ==> r == Err::<(), PartError>(PartError::DuplicatePart),
            part.part_number > 0 && !old(self).parts().contains_key(part.part_number as nat)
                ==> r is Ok,
            r is Ok ==> final(self).parts() == old(self).parts().insert(
                part.part_number as nat,
                part.e_tag@,
            ),
            r is Err ==> final(self).parts() == old(self).parts(),
    {
        let n = part.part_number;
        if n == 0 {
            return Err(PartError::InvalidPartNumber);
        }
        if n <= self.slots.len() {
            if self.slots[n - 1].is_some() {
                return Err(PartError::DuplicatePart);
            }
        }
        let ghost before = self.parts();
        while self.slots.len() < n
            invariant
                n > 0,
                self.slots@.len() <= n || self.slots@.len() == old(self).slots@.len(),
                n > old(self).slots@.len() ==> self.slots@.len() <= n,
                !before.contains_key(n as nat),
                self.parts() == before,
                n <= old(self).slots@.len() ==> self.slots@ == old(self).slots@,
            decreases n - self.slots@.len(),
        {
            let ghost prev = self.parts();
            self.slots.push(None);
            assert(self.parts() =~= prev);
        }
        self.slots.set(n - 1, Some(part.e_tag));
        assert(self.parts() =~= before.insert(n as nat, part.e_tag@));
        Ok(())
    }

    /// The commit list: `Some` exactly when the recorded parts are those
    /// numbered 1 to `n_parts`, listed then in ascending part-number order.
    pub fn commit_list(&self, n_parts: usize) -> (r: Option<Vec<CompletedPart>>)
        requires
            self.wf(),
        ensures
            r is Some <==> covers_exactly(self.parts(), n_parts as nat),
            r matches Some(list) ==> {
                &&& list@.len() == n_parts
                &&& forall|i: int| 0 <= i < n_parts ==> {
                    &&& (#[trigger] list@[i]).part_number == i + 1
                    &&& list@[i].e_tag@ == self.parts()[(i + 1) as nat]
                }
            },
    {
        if self.slots.len() != n_parts {
            proof {
                if covers_exactly(self.parts(), n_parts as nat) {
                    if self.slots@.len() > n_parts {
                        let k = self.slots@.len() as nat;
                        assert(self.parts().contains_key(k));
                    } else {
                        let k = n_parts as nat;
                        assert(self.parts().contains_key(k));
                    }
                }
            }
            return None;
        }
        let mut list: Vec<CompletedPart> = Vec::new();
        let mut i: usize = 0;
        while i < n_parts
            invariant
                self.slots@.len() == n_parts,
                i <= n_parts,
                list@.len() == i,
                forall|j: int| 0 <= j < i ==> #[trigger] self.slots@[j] is Some,
                forall|j: int| 0 <= j < i ==> {
                    &&& (#[trigger] list@[j]).part_number == j + 1
                    &&& list@[j].e_tag@ == self.parts()[(j + 1) as nat]
                },
            decreases n_parts - i,
        {
            match &self.slots[i] {
                Some(tag) => {
                    assert(self.parts().contains_key((i + 1) as nat));
                    list.push(CompletedPart { part_number: i + 1, e_tag: tag.clone() });
                },
                None => {
                    proof {
                        let k = (i + 1) as nat;
                        assert(!self.parts().contains_key(k));
                    }
                    return None;
                },
            }
            i = i + 1;
        }
        proof {
            assert forall|k: nat| #[trigger] self.parts().contains_key(k) <==> 1 <= k <= n_parts by {
                if 1 <= k <= n_parts {
                    assert(self.slots@[k - 1] is Some);
                }
            }
        }
        Some(list)
    }
}

/// How an upload session ends.
pub enum SessionEnd {
    /// Commit the object from these parts, in this order.
    Commit(Vec<CompletedPart>),
    /// Abandon the session on the backend, so that no orphaned upload stays.
    Abort,
}

/// Decides the end of an upload session that emitted `n_parts` parts: commit
/// when no part upload failed and the table holds exactly parts 1 to
/// `n_parts`, else abort.
pub fn finalize(table: &PartTable, n_parts: usize, any_failed: bool) -> (r: SessionEnd)
    requires
        table.wf(),
    ensures
        r is Commit <==> !any_failed && n_parts > 0 && covers_exactly(table.parts(), n_parts as nat),
        r matches SessionEnd::Commit(list) ==> {
            &&& list@.len() == n_parts
            &&& forall|i: int| 0 <= i < n_parts ==> {
                &&& (#[trigger] list@[i]).part_number == i + 1
                &&& list@[i].e_tag@ == table.parts()[(i + 1) as nat]
            }
        },
{
    if any_failed || n_parts == 0 {
        return SessionEnd::Abort;
    }
    match table.commit_list(n_parts) {
        Some(list) => SessionEnd::Commit(list),
        None => SessionEnd::Abort,
    }
}

/// What the driver of an upload session should do next.
pub enum UploadStep {
    /// Read the next piece of the source and hand it to `on_read`.
    Read,
    /// Upload this part: task index, part number, body.
    Start(usize, usize, Vec<u8>),
    /// Wait for a part upload to end and report it.
    Wait,
    /// Commit the object from these parts, in this order.
    Commit(Vec<CompletedPart>),
    /// Abandon the session on the backend.
    Abort,
}

/// One multipart upload: the payload is read sequentially and chunked, its
/// parts are uploaded with at most `limit` at once, and the session ends in a
/// commit that lists the parts in ascending order, or in an abort.
pub struct UploadSession {
    chunker: Chunker,
    pool: WorkerPool,
    table: PartTable,
    queue: Vec<Vec<u8>>,
    started: usize,
    ended: bool,
    failed: bool,
}

impl UploadSession {
    /// The body of each part emitted so far; part `i + 1` has index `i`.
    pub closed spec fn sent(&self) -> Seq<Seq<u8>> {
        self.chunker.emitted()
    }

    /// Every byte read from the source so far.
    pub closed spec fn payload(&self) -> Seq<u8> {
        self.chunker.consumed()
    }

    /// No more reads will be asked for.
    pub closed spec fn source_ended(&self) -> bool {
        self.ended
    }

    /// A read or a part upload failed.
    pub closed spec fn has_failed(&self) -> bool {
        self.failed
    }

    pub closed spec fn pool(&self) -> WorkerPool {
        self.pool
    }

    pub closed spec fn table(&self) -> PartTable {
        self.table
    }

    pub closed spec fn wf(&self) -> bool {
        &&& self.chunker.wf()
        &&& self.pool.wf()
        &&& self.table.wf()
        &&& self.chunker.emitted().len() + 2 < usize::MAX
        &&& self.pool.statuses().len() == self.chunker.emitted().len()
        &&& self.started <= self.pool.statuses().len()
        &&& forall|j: int| 0 <= j < self.started ==> #[trigger] self.pool.statuses()[j] != TaskStatus::Queued
        &&& forall|j: int|
            self.started <= j < self.pool.statuses().len() ==> #[trigger] self.pool.statuses()[j]
                == TaskStatus::Queued
        &&& self.queue@.len() == self.pool.statuses().len() - self.started
        &&& forall|k: int|
            0 <= k < self.queue@.len() ==> #[trigger] self.queue@[k]@ == self.chunker.emitted()[self.started + k]
        &&& self.pool.is_closed() == self.ended
        &&& self.chunker.is_finished() ==> self.ended
        &&& self.ended && !self.failed ==> self.chunker.is_finished()
    }

    pub fn new(part_size: usize, limit: usize) -> (r: UploadSession)
        requires
            part_size > 0,
            limit > 0,
        ensures
            r.wf(),
            r.sent() == Seq::<Seq<u8>>::empty(),
            r.payload() == Seq::<u8>::empty(),
            !r.source_ended(),
            !r.has_failed(),
            r.pool().limit() == limit,
    {
        let r = UploadSession {
            chunker: Chunker::new(part_size),
            pool: WorkerPool::new(limit),
            table: PartTable::new(),
            queue: Vec::new(),
            started: 0,
            ended: false,
            failed: false,
        };
        assert(r.payload() =~= Seq::<u8>::empty());
        r
    }

    /// Chooses the next step: start the oldest waiting part while a slot is
    /// free; else read on while the source lasts and fewer than `limit` parts
    /// wait; else wait for a part upload; once all have ended, commit when
    /// nothing failed and every part is recorded, else abort.
    pub fn next_step(&mut self) -> (r: UploadStep)
        requires
            old(self).wf(),
        ensures
            final(self).wf(),
            final(self).sent() == old(self).sent(),
            final(self).payload() == old(self).payload(),
            final(self).source_ended() == old(self).source_ended(),
            final(self).has_failed() == old(self).has_failed(),
            final(self).table() == old(self).table(),
            final(self).pool().limit() == old(self).pool().limit(),
            r is Start <==> old(self).pool().running_count() < old(self).pool().limit()
                && old(self).pool().has_queued(),
            r matches UploadStep::Start(i, n, body) ==> {
                &&& i < old(self).sent().len()
                &&& n == i + 1
                &&& body@ == old(self).sent()[i as int]
                &&& old(self).pool().statuses()[i as int] == TaskStatus::Queued
                &&& final(self).pool().statuses() == old(self).pool().statuses().update(
                    i as int,
                    TaskStatus::Running,
                )
            },
            !(r is Start) ==> final(self).pool().statuses() == old(self).pool().statuses(),
            r is Read <==> !(old(self).pool().running_count() < old(self).pool().limit()
                && old(self).pool().has_queued()) && !old(self).source_ended() && count_status(
                old(self).pool().statuses(),
                TaskStatus::Queued,
            ) < old(self).pool().limit(),
            r is Commit <==> old(self).all_settled() && !old(self).has_failed() && old(self).sent().len()
                > 0 && covers_exactly(old(self).table().parts(), old(self).sent().len()),
            r is Abort <==> old(self).all_settled() && !(!old(self).has_failed() && old(self).sent().len()
                > 0 && covers_exactly(old(self).table().parts(), old(self).sent().len())),
            r matches UploadStep::Commit(list) ==> {
                &&& list@.len() == old(self).sent().len()
                &&& forall|i: int| 0 <= i < list@.len() ==> {
                    &&& (#[trigger] list@[i]).part_number == i + 1
                    &&& list@[i].e_tag@ == old(self).table().parts()[(i + 1) as nat]
                }
                &&& assembled(list@, old(self).sent()) == old(self).payload()
            },
    {
        match self.pool.next_step() {
            PoolStep::Start(i) => {
                assert(i == self.started) by {
                    if i < self.started {
                        assert(old(self).pool.statuses()[i as int] != TaskStatus::Queued);
                    }
                    if i > self.started {
                        assert(old(self).pool.statuses()[self.started as int] == TaskStatus::Queued);
                    }
                }
                let body = self.queue.remove(0);
                self.started = self.started + 1;
                assert forall|k: int| 0 <= k < self.queue@.len() implies #[trigger] self.queue@[k]@
                    == self.chunker.emitted()[self.started + k] by {
                    assert(self.queue@[k] == old(self).queue@[k + 1]);
                }
                UploadStep::Start(i, i + 1, body)
            },
            PoolStep::Produce => UploadStep::Read,
            PoolStep::Wait => UploadStep::Wait,
            PoolStep::Finished => {
                match finalize(&self.table, self.pool.task_count(), self.failed) {
                    SessionEnd::Commit(list) => {
                        proof {
                            let e = self.chunker.emitted();
                            assert(concat_bodies(e) + Seq::<u8>::empty() =~= concat_bodies(e));
                            lemma_commit_list_reassembles(e, self.chunker.consumed(), list@);
                        }
                        UploadStep::Commit(list)
                    },
                    SessionEnd::Abort => UploadStep::Abort,
                }
            },
        }
    }

    /// The pool is closed and every part upload has ended.
    pub open spec fn all_settled(&self) -> bool {
        &&& self.source_ended()
        &&& forall|i: int|
            0 <= i < self.pool().statuses().len() ==> is_settled(#[trigger] self.pool().statuses()[i])
    }

    /// Takes the bytes of one read; an empty read is the end of the source,
    /// after which the pending bytes form the last part.
    pub fn on_read(&mut self, data: Vec<u8>) -> (parts: usize)
        requires
            old(self).wf(),
            !old(self).source_ended(),
            old(self).sent().len() + data@.len() + 3 < usize::MAX,
        ensures
            final(self).wf(),
            final(self).has_failed() == old(self).has_failed(),
            final(self).table() == old(self).table(),
            final(self).pool().limit() == old(self).pool().limit(),
            final(self).payload() == old(self).payload() + data@,
            final(self).source_ended() == (data@.len() == 0),
            parts == final(self).sent().len() - old(self).sent().len(),
            final(self).sent().subrange(0, old(self).sent().len() as int) == old(self).sent(),
            final(self).pool().statuses() == old(self).pool().statuses() + Seq::new(
                parts as nat,
                |j: int| TaskStatus::Queued,
            ),
    {
        let ghost old_sent = self.chunker.emitted();
        let ghost old_status = self.pool.statuses();
        let mut fresh: Vec<UploadPart> = if data.len() == 0 {
            match self.chunker.finish() {
                Some(p) => {
                    let mut v: Vec<UploadPart> = Vec::new();
                    v.push(p);
                    assert(part_bodies(v@) =~= seq![p.body@]);
                    v
                },
                None => {
                    let v: Vec<UploadPart> = Vec::new();
                    assert(part_bodies(v@) =~= Seq::<Seq<u8>>::empty());
                    v
                },
            }
        } else {
            self.chunker.feed(&data)
        };
        assert(self.payload() =~= old(self).payload() + data@);
        let ghost all = part_bodies(fresh@);
        let total = fresh.len();
        let mut done: usize = 0;
        while done < total
            invariant
                self.chunker.wf(),
                self.pool.wf(),
                self.table == old(self).table,
                self.failed == old(self).failed,
                self.ended == old(self).ended,
                !self.pool.is_closed(),
                self.pool.limit() == old(self).pool.limit(),
                self.chunker.emitted() == old_sent + all,
                self.chunker.consumed() == old(self).payload() + data@,
                data@.len() == 0 ==> self.chunker.is_finished(),
                data@.len() > 0 ==> !self.chunker.is_finished(),
                old_sent.len() + data@.len() + 3 < usize::MAX,
                all.len() == total,
                total <= data@.len() + 1,
                data@.len() > 0 ==> total <= data@.len(),
                done <= total,
                fresh@.len() == total - done,
                forall|k: int| 0 <= k < fresh@.len() ==> #[trigger] fresh@[k].body@ == all[done + k],
                self.pool.statuses() == old_status + Seq::new(done as nat, |j: int| TaskStatus::Queued),
                self.started == old(self).started,
                self.started <= old_status.len(),
                old_status.len() == old_sent.len(),
                forall|j: int| 0 <= j < self.started ==> #[trigger] old_status[j] != TaskStatus::Queued,
                forall|j: int| self.started <= j < old_status.len() ==> #[trigger] old_status[j] == TaskStatus::Queued,
                self.queue@.len() == old_status.len() + done - self.started,
                forall|k: int|
                    0 <= k < self.queue@.len() ==> #[trigger] self.queue@[k]@ == (old_sent + all)[self.started + k],
            decreases total - done,
        {
            let ghost prev = fresh@;
            let p = fresh.remove(0);
            self.pool.submit();
            self.queue.push(p.body);
            done = done + 1;
            assert(self.pool.statuses() =~= old_status + Seq::new(done as nat, |j: int| TaskStatus::Queued));
            assert forall|k: int| 0 <= k < fresh@.len() implies #[trigger] fresh@[k].body@ == all[done + k] by {
                assert(fresh@[k] == prev[k + 1]);
            }
        }
        if data.len() == 0 {
            self.pool.close();
            self.ended = true;
        }
        assert(self.pool.statuses() =~= old_status + Seq::new(total as nat, |j: int| TaskStatus::Queued));
        assert(self.chunker.emitted().subrange(0, old_sent.len() as int) =~= old_sent);
        total
    }

    /// Records that reading the source failed: no more reads, and the session
    /// will abort once the parts already started have ended.
    pub fn on_read_failed(&mut self)
        requires
            old(self).wf(),
            !old(self).source_ended(),
        ensures
            final(self).wf(),
            final(self).source_ended(),
            final(self).has_failed(),
            final(self).sent() == old(self).sent(),
            final(self).payload() == old(self).payload(),
            final(self).table() == old(self).table(),
            final(self).pool().statuses() == old(self).pool().statuses(),
            final(self).pool().limit() == old(self).pool().limit(),
    {
        self.failed = true;
        self.ended = true;
        self.pool.close();
    }

    /// Reports that the upload of task `idx` ended, with the backend's content
    /// token when it succeeded. The part is recorded under number `idx + 1`;
    /// a missing token, or a part already recorded, marks the session failed.
    /// A report on a task that is not running is refused and changes nothing.
    pub fn on_part_done(&mut self, idx: usize, e_tag: Option<String>) -> (r: Result<(), PoolError>)
        requires
            old(self).wf(),
        ensures
            final(self).wf(),
            final(self).sent() == old(self).sent(),
            final(self).payload() == old(self).payload(),
            final(self).source_ended() == old(self).source_ended(),
            final(self).pool().limit() == old(self).pool().limit(),
            r is Ok <==> idx < old(self).pool().statuses().len()
                && old(self).pool().statuses()[idx as int] == TaskStatus::Running,
            r is Err ==> final(self).pool().statuses() == old(self).pool().statuses()
                && final(self).table() == old(self).table()
                && final(self).has_failed() == old(self).has_failed(),
            r is Ok ==> {
                let recorded = e_tag is Some && !old(self).table().parts().contains_key(
                    (idx + 1) as nat,
                );
                &&& final(self).pool().statuses() == old(self).pool().statuses().update(
                    idx as int,
                    if recorded {
                        TaskStatus::Succeeded
                    } else {
                        TaskStatus::Failed
                    },
                )
                &&& final(self).has_failed() == (old(self).has_failed() || !recorded)
                &&& final(self).table().parts() == match e_tag {
                    Some(t) => if recorded {
                        old(self).table().parts().insert((idx + 1) as nat, t@)
                    } else {
                        old(self).table().parts()
                    },
                    None => old(self).table().parts(),
                }
            },
    {
        if !self.pool.is_running(idx) {
            return Err(PoolError::NotRunning);
        }
        let recorded = match e_tag {
            Some(t) => self.table.record(CompletedPart { part_number: idx + 1, e_tag: t }).is_ok(),
            None => false,
        };
        if !recorded {
            self.failed = true;
        }
        let r = self.pool.finish(idx, recorded);
        r
    }
}

/// Recording two different parts gives the same table in either order, so the
/// commit list does not depend on the order in which part uploads finish.
pub proof fn lemma_record_order_irrelevant(
    parts: Map<nat, Seq<char>>,
    a: nat,
    tag_a: Seq<char>,
    b: nat,
    tag_b: Seq<char>,
)
    requires
        a != b,
    ensures
        parts.insert(a, tag_a).insert(b, tag_b) == parts.insert(b, tag_b).insert(a, tag_a),
{
    assert(parts.insert(a, tag_a).insert(b, tag_b) =~= parts.insert(b, tag_b).insert(a, tag_a));
}

/// The object that a commit list assembles: the body of each listed part
/// number, in the order of the list.
pub open spec fn assembled(list: Seq<CompletedPart>, bodies: Seq<Seq<u8>>) -> Seq<u8> {
    concat_bodies(list.map_values(|c: CompletedPart| bodies[c.part_number - 1]))
}

/// A commit list in ascending part-number order from 1 reassembles the payload
/// that was chunked into those parts.
pub proof fn lemma_commit_list_reassembles(
    bodies: Seq<Seq<u8>>,
    payload: Seq<u8>,
    list: Seq<CompletedPart>,
)
    requires
        concat_bodies(bodies) == payload,
        list.len() == bodies.len(),
        forall|i: int| 0 <= i < list.len() ==> #[trigger] list[i].part_number == i + 1,
    ensures
        assembled(list, bodies) == payload,
{
    assert(list.map_values(|c: CompletedPart| bodies[c.part_number - 1]) =~= bodies);
}

} // verus!
