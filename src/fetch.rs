//! The fetch engine: which UIDs a fetched batch contributes, in what order
//! they are emitted, and how the cursor and the checkpoint advance.
use vstd::prelude::*;

use crate::config::Args;
use crate::decimal::{decimal_digits, decimal_text};

verus! {

/// A fetch response broke the transport's contract.
#[derive(Debug, Clone, Copy, PartialEq, Eq, Structural)]
pub enum FetchError {
    /// An entry of the response carried no UID.
    MissingUid,
}

/// UID of entry `i` of a batch (meaningful when the entry has one).
pub open spec fn uid_of(batch: Seq<Option<u32>>, i: int) -> u32 {
    match batch[i] {
        Some(u) => u,
        None => 0,
    }
}

/// Entry `i` has a UID above `last`.
pub open spec fn is_fresh(batch: Seq<Option<u32>>, i: int, last: u32) -> bool {
    match batch[i] {
        Some(u) => u > last,
        None => false,
    }
}

pub open spec fn all_have_uids(batch: Seq<Option<u32>>) -> bool {
    forall|i: int| 0 <= i < batch.len() ==> (#[trigger] batch[i]) is Some
}

/// `order` lists, by strictly ascending UID, one entry of `batch` (the first
/// one) for each UID above `last` that the batch holds, and nothing else.
pub open spec fn plans(batch: Seq<Option<u32>>, last: u32, order: Seq<usize>) -> bool {
    &&& forall|k: int|
        0 <= k < order.len() ==> order[k] < batch.len() && #[trigger] is_fresh(
            batch,
            order[k] as int,
            last,
        )
    &&& forall|k1: int, k2: int|
        0 <= k1 < k2 < order.len() ==> uid_of(batch, #[trigger] order[k1] as int) < uid_of(
            batch,
            #[trigger] order[k2] as int,
        )
    &&& forall|i: int|
        0 <= i < batch.len() && #[trigger] is_fresh(batch, i, last) ==> exists|k: int|
            0 <= k < order.len() && uid_of(batch, #[trigger] order[k] as int) == uid_of(batch, i)
    &&& forall|k: int, j: int|
        #![trigger uid_of(batch, j), order[k]]
        0 <= k < order.len() && 0 <= j < order[k] ==> uid_of(batch, j) != uid_of(
            batch,
            order[k] as int,
        )
}

/// The UIDs that a plan emits, in order.
pub open spec fn planned_uids(batch: Seq<Option<u32>>, order: Seq<usize>) -> Seq<u32> {
    order.map_values(|i: usize| uid_of(batch, i as int))
}

/// Chooses the entries of a fetched batch to emit: every UID strictly above
/// `last_seen` once, in ascending order. An entry equal to `last_seen` (the
/// repeat that an open-ended range always returns) or below it is left out.
/// A batch with an entry that lacks its UID is refused whole.
pub fn plan_batch(batch: &Vec<Option<u32>>, last_seen: u32) -> (r: Result<Vec<usize>, FetchError>)
    ensures
        r is Err <==> !all_have_uids(batch@),
        r is Err ==> r == Err::<Vec<usize>, FetchError>(FetchError::MissingUid),
        r matches Ok(order) ==> plans(batch@, last_seen, order@),
{
    let n = batch.len();
    let mut i: usize = 0;
    while i < n
        invariant
            n == batch@.len(),
            0 <= i <= n,
            forall|j: int| 0 <= j < i ==> (#[trigger] batch@[j]) is Some,
        decreases n - i,
    {
        if batch[i].is_none() {
            return Err(FetchError::MissingUid);
        }
        i = i + 1;
    }
    let ghost b = batch@;
    let mut order: Vec<usize> = Vec::new();
    let mut keys: Vec<u32> = Vec::new();
    let mut i: usize = 0;
    while i < n
        invariant
            n == b.len(),
            b == batch@,
            0 <= i <= n,
            all_have_uids(b),
            order@.len() == keys@.len(),
            forall|k: int| 0 <= k < order@.len() ==> order@[k] < i,
            forall|k: int| 0 <= k < order@.len() ==> #[trigger] keys@[k] == uid_of(b, order@[k] as int),
            forall|k: int| 0 <= k < order@.len() ==> #[trigger] is_fresh(b, order@[k] as int, last_seen),
            forall|k1: int, k2: int| 0 <= k1 < k2 < keys@.len() ==> keys@[k1] < keys@[k2],
            forall|j: int|
                0 <= j < i && #[trigger] is_fresh(b, j, last_seen) ==> exists|k: int|
                    0 <= k < keys@.len() && keys@[k] == uid_of(b, j),
            forall|k: int, j: int|
                #![trigger uid_of(b, j), keys@[k]]
                0 <= k < order@.len() && 0 <= j < order@[k] ==> uid_of(b, j) != keys@[k],
        decreases n - i,
    {
        let u = match batch[i] {
            Some(u) => u,
            None => 0,
        };
        assert(b[i as int] is Some);
        assert(u == uid_of(b, i as int));
        if u > last_seen {
            let mut p: usize = 0;
            while p < keys.len() && keys[p] < u
                invariant
                    0 <= p <= keys@.len(),
                    forall|k: int| 0 <= k < p ==> keys@[k] < u,
                decreases keys@.len() - p,
            {
                p = p + 1;
            }
            if p < keys.len() && keys[p] == u {
                proof {
                    assert forall|j: int|
                        0 <= j < i + 1 && #[trigger] is_fresh(b, j, last_seen) implies exists|k: int|
                        0 <= k < keys@.len() && keys@[k] == uid_of(b, j) by {
                        if j == i {
                            assert(keys@[p as int] == uid_of(b, j));
                        }
                    }
                }
            } else {
                proof {
                    // No earlier entry holds `u`: it would have a key equal to `u`.
                    assert forall|j: int| 0 <= j < i implies uid_of(b, j) != u by {
                        if uid_of(b, j) == u {
                            assert(is_fresh(b, j, last_seen));
                            let k = choose|k: int| 0 <= k < keys@.len() && keys@[k] == uid_of(b, j);
                            if k < p {
                                assert(keys@[k] < u);
                            } else if k > p {
                                assert(keys@[p as int] < keys@[k]);
                                assert(keys@[p as int] > u);
                            }
                        }
                    }
                }
                let ghost old_keys = keys@;
                let ghost old_order = order@;
                keys.insert(p, u);
                order.insert(p, i);
                proof {
                    old_keys.insert_ensures(p as int, u);
                    old_order.insert_ensures(p as int, i);
                    assert forall|k: int| 0 <= k < keys@.len() implies keys@[k] == (if k < p {
                        old_keys[k]
                    } else if k == p {
                        u
                    } else {
                        old_keys[k - 1]
                    }) && order@[k] == (if k < p {
                        old_order[k]
                    } else if k == p {
                        i
                    } else {
                        old_order[k - 1]
                    }) by {
                        if k > p {
                            assert(keys@[(k - 1) + 1] == old_keys[k - 1]);
                            assert(order@[(k - 1) + 1] == old_order[k - 1]);
                        }
                    }
                    assert forall|k1: int, k2: int| 0 <= k1 < k2 < keys@.len() implies keys@[k1]
                        < keys@[k2] by {
                        if k1 < p && k2 > p {
                            assert(old_keys[k1] < u);
                            if p < old_keys.len() {
                                assert(old_keys[p as int] >= u);
                                assert(old_keys[p as int] != u);
                            }
                        } else if k1 == p && k2 > p {
                            assert(old_keys[p as int] >= u);
                            assert(old_keys[p as int] != u);
                            if k2 - 1 > p {
                                assert(old_keys[p as int] < old_keys[k2 - 1]);
                            }
                        }
                    }
                    assert forall|j: int|
                        0 <= j < i + 1 && #[trigger] is_fresh(b, j, last_seen) implies exists|k: int|
                        0 <= k < keys@.len() && keys@[k] == uid_of(b, j) by {
                        if j == i {
                            assert(keys@[p as int] == uid_of(b, j));
                        } else {
                            let k = choose|k: int|
                                0 <= k < old_keys.len() && old_keys[k] == uid_of(b, j);
                            if k < p {
                                assert(keys@[k] == uid_of(b, j));
                            } else {
                                assert(keys@[k + 1] == uid_of(b, j));
                            }
                        }
                    }
                    assert forall|k: int, j: int|
                        #![trigger uid_of(b, j), keys@[k]]
                        0 <= k < order@.len() && 0 <= j < order@[k] implies uid_of(b, j)
                        != keys@[k] by {
                        if k > p {
                            assert(keys@[k] == old_keys[k - 1]);
                            assert(order@[k] == old_order[k - 1]);
                        }
                    }
                    assert forall|k: int| 0 <= k < order@.len() implies #[trigger] is_fresh(
                        b,
                        order@[k] as int,
                        last_seen,
                    ) by {
                        if k > p {
                            assert(order@[k] == old_order[k - 1]);
                        }
                    }
                }
            }
        }
        i = i + 1;
    }
    proof {
        assert forall|k1: int, k2: int| 0 <= k1 < k2 < order@.len() implies uid_of(
            b,
            #[trigger] order@[k1] as int,
        ) < uid_of(b, #[trigger] order@[k2] as int) by {
            assert(keys@[k1] < keys@[k2]);
        }
        assert forall|i: int| 0 <= i < b.len() && #[trigger] is_fresh(b, i, last_seen) implies exists|
            k: int,
        | 0 <= k < order@.len() && uid_of(b, #[trigger] order@[k] as int) == uid_of(b, i) by {
            let k = choose|k: int| 0 <= k < keys@.len() && keys@[k] == uid_of(b, i);
            assert(uid_of(b, order@[k] as int) == uid_of(b, i));
        }
        assert forall|k: int, j: int|
            #![trigger uid_of(b, j), order@[k]]
            0 <= k < order@.len() && 0 <= j < order@[k] implies uid_of(b, j) != uid_of(
            b,
            order@[k] as int,
        ) by {
            assert(keys@[k] == uid_of(b, order@[k] as int));
        }
    }
    Ok(order)
}

/// First UID of the open range `[last_seen + 1, *]`; `None` when no UID can
/// lie above `last_seen`, so that there is nothing to fetch.
pub fn next_range_start(last_seen: u32) -> (r: Option<u32>)
    ensures
        r == (if last_seen < u32::MAX {
            Some((last_seen + 1) as u32)
        } else {
            None::<u32>
        }),
{
    if last_seen < u32::MAX {
        Some(last_seen + 1)
    } else {
        None
    }
}

/// The UID set `start:*`: from `start` to the newest message.
pub fn uid_range_text(start: u32) -> (r: String)
    ensures
        r@ == decimal_digits(start as nat) + seq![':', '*'],
{
    let mut s = decimal_text(start);
    proof {
        reveal_strlit(":*");
    }
    s.append(":*");
    s
}

/// The UID set that fetches one message: the newest one for `0` (no
/// server assigns UID 0), else that UID.
pub fn single_uid_set(uid: u32) -> (r: String)
    ensures
        uid == 0 ==> r@ == seq!['*'],
        uid != 0 ==> r@ == decimal_digits(uid as nat),
{
    if uid == 0 {
        proof {
            reveal_strlit("*");
        }
        String::from_str("*")
    } else {
        decimal_text(uid)
    }
}

/// Where the engine stands: the highest UID already seen (emitted, or
/// known when the run started), and the persisted checkpoint.
#[derive(Debug, Clone, Copy, PartialEq, Eq, Structural)]
pub struct Cursor {
    pub last_seen: u32,
    /// Highest UID fully processed; `None` before the first run.
    pub checkpoint: Option<u32>,
    /// Whether emissions advance the checkpoint.
    pub write_checkpoint: bool,
}

/// Where a run starts: at the checkpoint, else at the mailbox's newest
/// UID, else (an empty mailbox) at zero; history is never replayed.
pub open spec fn start_point(checkpoint: Option<u32>, newest: Option<u32>) -> u32 {
    match checkpoint {
        Some(c) => c,
        None => match newest {
            Some(n) => n,
            None => 0,
        },
    }
}

/// One message to hand downstream: entry `index` of the batch, with UID
/// `uid`; after it the checkpoint is to be written as `checkpoint`, if that
/// is `Some`.
#[derive(Debug, Clone, Copy, PartialEq, Eq, Structural)]
pub struct Emission {
    pub index: usize,
    pub uid: u32,
    pub checkpoint: Option<u32>,
}

impl Cursor {
    /// The checkpoint never runs ahead of what was seen.
    pub open spec fn wf(self) -> bool {
        match self.checkpoint {
            Some(c) => c <= self.last_seen,
            None => true,
        }
    }

    /// The cursor after `uid` was emitted.
    pub open spec fn advanced(self, uid: u32) -> Cursor {
        Cursor {
            last_seen: uid,
            checkpoint: if self.write_checkpoint {
                Some(uid)
            } else {
                self.checkpoint
            },
            write_checkpoint: self.write_checkpoint,
        }
    }

    /// The cursor after each of `uids` was emitted, in order.
    pub open spec fn advanced_by(self, uids: Seq<u32>) -> Cursor
        decreases uids.len(),
    {
        if uids.len() == 0 {
            self
        } else {
            self.advanced_by(uids.drop_last()).advanced(uids.last())
        }
    }

    /// A cursor for a run: it starts at the checkpoint, else at the newest
    /// UID of the mailbox, else (an empty mailbox) at zero.
    pub fn new(checkpoint: Option<u32>, newest: Option<u32>, write_checkpoint: bool) -> (r: Cursor)
        ensures
            r.last_seen == start_point(checkpoint, newest),
            r.checkpoint == checkpoint,
            r.write_checkpoint == write_checkpoint,
            r.wf(),
    {
        let last_seen = match checkpoint {
            Some(c) => c,
            None => match newest {
                Some(n) => n,
                None => 0,
            },
        };
        Cursor { last_seen, checkpoint, write_checkpoint }
    }

    /// Records that `uid` was handed downstream; returns the value to write
    /// to the checkpoint store, if any.
    pub fn record_emitted(&mut self, uid: u32) -> (w: Option<u32>)
        requires
            uid > old(self).last_seen,
        ensures
            *final(self) == old(self).advanced(uid),
            w == (if old(self).write_checkpoint {
                Some(uid)
            } else {
                None::<u32>
            }),
    {
        self.last_seen = uid;
        if self.write_checkpoint {
            self.checkpoint = Some(uid);
            Some(uid)
        } else {
            None
        }
    }

    /// Plans the emission of a fetched batch and advances the cursor past
    /// it: each UID above `last_seen` once, ascending, each followed by the
    /// checkpoint write it calls for. A batch with an entry that lacks its
    /// UID is refused and the cursor is left as it was.
    pub fn absorb(&mut self, batch: &Vec<Option<u32>>) -> (r: Result<Vec<Emission>, FetchError>)
        ensures
            r is Err <==> !all_have_uids(batch@),
            r is Err ==> r == Err::<Vec<Emission>, FetchError>(FetchError::MissingUid),
            r is Err ==> *final(self) == *old(self),
            r matches Ok(es) ==> {
                &&& plans(batch@, old(self).last_seen, emission_indices(es@))
                &&& forall|k: int|
                    0 <= k < es@.len() ==> (#[trigger] es@[k]).uid == uid_of(
                        batch@,
                        es@[k].index as int,
                    )
                &&& forall|k: int|
                    0 <= k < es@.len() ==> (#[trigger] es@[k]).checkpoint == (if old(self).write_checkpoint {
                        Some(es@[k].uid)
                    } else {
                        None::<u32>
                    })
                &&& emission_uids(es@) == planned_uids(batch@, emission_indices(es@))
                &&& *final(self) == old(self).advanced_by(emission_uids(es@))
            },
            old(self).wf() ==> final(self).wf(),
            final(self).last_seen >= old(self).last_seen,
    {
        let order = match plan_batch(batch, self.last_seen) {
            Ok(o) => o,
            Err(e) => return Err(e),
        };
        let ghost start = *self;
        let ghost b = batch@;
        let mut es: Vec<Emission> = Vec::new();
        let mut k: usize = 0;
        while k < order.len()
            invariant
                b == batch@,
                plans(b, start.last_seen, order@),
                0 <= k <= order@.len(),
                es@.len() == k,
                emission_indices(es@) == order@.subrange(0, k as int),
                forall|j: int|
                    0 <= j < k ==> (#[trigger] es@[j]).uid == uid_of(b, es@[j].index as int),
                forall|j: int|
                    0 <= j < k ==> (#[trigger] es@[j]).checkpoint == (if start.write_checkpoint {
                        Some(es@[j].uid)
                    } else {
                        None::<u32>
                    }),
                *self == start.advanced_by(emission_uids(es@)),
                k == 0 ==> self.last_seen == start.last_seen,
                k > 0 ==> self.last_seen == uid_of(b, order@[k - 1] as int),
                self.write_checkpoint == start.write_checkpoint,
            decreases order@.len() - k,
        {
            let i = order[k];
            assert(is_fresh(b, order@[k as int] as int, start.last_seen));
            let uid = match batch[i] {
                Some(u) => u,
                None => 0,
            };
            if k > 0 {
                assert(uid_of(b, order@[k - 1] as int) < uid_of(b, order@[k as int] as int));
            }
            let ghost before = es@;
            let w = self.record_emitted(uid);
            es.push(Emission { index: i, uid, checkpoint: w });
            proof {
                assert(emission_indices(es@) =~= order@.subrange(0, k + 1));
                assert(emission_uids(es@).drop_last() =~= emission_uids(before));
            }
            k = k + 1;
        }
        assert(order@.subrange(0, order@.len() as int) =~= order@);
        assert(emission_uids(es@) =~= planned_uids(b, emission_indices(es@)));
        proof {
            lemma_skip_repeat(b, start.last_seen, emission_indices(es@));
            if start.wf() {
                lemma_checkpoint_monotone(start, emission_uids(es@));
            }
        }
        Ok(es)
    }
}

pub open spec fn emission_indices(es: Seq<Emission>) -> Seq<usize> {
    es.map_values(|e: Emission| e.index)
}

pub open spec fn emission_uids(es: Seq<Emission>) -> Seq<u32> {
    es.map_values(|e: Emission| e.uid)
}

/// The catch-up scan. With no checkpoint there is nothing to catch up on:
/// no emission, and the checkpoint stays absent. Otherwise the batch that
/// the range `[checkpoint + 1, *]` returned is absorbed by a cursor at the
/// checkpoint; a transport failure (`None`) counts as an empty batch.
/// Returns the emissions and the checkpoint after them.
pub fn catch_up(checkpoint: Option<u32>, fetched: Option<Vec<Option<u32>>>, args: &Args) -> (r:
    Result<(Vec<Emission>, Option<u32>), FetchError>)
    ensures
        checkpoint is None ==> (r matches Ok((es, c)) && es@.len() == 0 && c is None),
        checkpoint matches Some(last) ==> match fetched {
            None => (r matches Ok((es, c)) && es@.len() == 0 && c == checkpoint),
            Some(batch) => {
                &&& r is Err <==> !all_have_uids(batch@)
                &&& r matches Ok((es, c)) ==> {
                    let start = Cursor {
                        last_seen: last,
                        checkpoint,
                        write_checkpoint: !args.no_catch_up_write,
                    };
                    &&& plans(batch@, last, emission_indices(es@))
                    &&& forall|k: int|
                        0 <= k < es@.len() ==> (#[trigger] es@[k]).uid == uid_of(
                            batch@,
                            es@[k].index as int,
                        )
                    &&& forall|k: int|
                        0 <= k < es@.len() ==> (#[trigger] es@[k]).checkpoint == (if start.write_checkpoint {
                            Some(es@[k].uid)
                        } else {
                            None::<u32>
                        })
                    &&& emission_uids(es@) == planned_uids(batch@, emission_indices(es@))
                    &&& c == start.advanced_by(emission_uids(es@)).checkpoint
                }
            },
        },
{
    if checkpoint.is_none() {
        return Ok((Vec::new(), None));
    }
    let mut cursor = Cursor::new(checkpoint, None, !args.no_catch_up_write);
    match fetched {
        None => Ok((Vec::new(), checkpoint)),
        Some(batch) => match cursor.absorb(&batch) {
            Ok(es) => Ok((es, cursor.checkpoint)),
            Err(e) => Err(e),
        },
    }
}

/// What the live loop was told.
#[derive(Debug, Clone, Copy, PartialEq, Eq, Structural)]
pub enum WatchEvent {
    /// The operator asked to stop.
    Interrupted,
    /// No notification came within the poll interval.
    TimedOut,
    /// The watcher reported that the mailbox changed.
    NewMail,
}

/// What the live loop does next.
#[derive(Debug, Clone, Copy, PartialEq, Eq, Structural)]
pub enum WatchStep {
    /// Close the session and end the loop.
    LogOut,
    /// Check for cancellation and wait again.
    Wait,
    /// Fetch the range from this UID to the newest and absorb it.
    Fetch(u32),
}

/// How the background watcher ended, as the run judges it.
#[derive(Debug, Clone, Copy, PartialEq, Eq, Structural)]
pub enum WatcherEnd {
    /// It returned normally.
    Finished,
    /// It failed because the session was closed after cancellation.
    Expected,
    /// It failed while the run was still wanted.
    Failed,
}

/// The live loop's state: the cursor it owns, and whether cancellation
/// was requested.
#[derive(Debug, Clone, Copy, PartialEq, Eq, Structural)]
pub struct Watch {
    pub cursor: Cursor,
    pub cancelled: bool,
}

impl Watch {
    pub open spec fn step_for(self, ev: WatchEvent) -> WatchStep {
        if self.cancelled {
            WatchStep::LogOut
        } else {
            match ev {
                WatchEvent::Interrupted => WatchStep::LogOut,
                WatchEvent::TimedOut => WatchStep::Wait,
                WatchEvent::NewMail => if self.cursor.last_seen < u32::MAX {
                    WatchStep::Fetch((self.cursor.last_seen + 1) as u32)
                } else {
                    WatchStep::Wait
                },
            }
        }
    }

    /// Starts the live loop at the checkpoint, else at the mailbox's newest
    /// UID, else at zero.
    pub fn start(checkpoint: Option<u32>, newest: Option<u32>, write_checkpoint: bool) -> (r: Watch)
        ensures
            r.cursor.last_seen == start_point(checkpoint, newest),
            r.cursor.checkpoint == checkpoint,
            r.cursor.write_checkpoint == write_checkpoint,
            r.cursor.wf(),
            !r.cancelled,
    {
        Watch { cursor: Cursor::new(checkpoint, newest, write_checkpoint), cancelled: false }
    }

    /// Decides the next step. Once interrupted the loop only logs out.
    pub fn on_event(&mut self, ev: WatchEvent) -> (r: WatchStep)
        ensures
            r == old(self).step_for(ev),
            final(self).cursor == old(self).cursor,
            final(self).cancelled == (old(self).cancelled || ev == WatchEvent::Interrupted),
    {
        if ev == WatchEvent::Interrupted {
            self.cancelled = true;
        }
        if self.cancelled {
            return WatchStep::LogOut;
        }
        match ev {
            WatchEvent::Interrupted => WatchStep::LogOut,
            WatchEvent::TimedOut => WatchStep::Wait,
            WatchEvent::NewMail => match next_range_start(self.cursor.last_seen) {
                Some(s) => WatchStep::Fetch(s),
                None => WatchStep::Wait,
            },
        }
    }

    /// Judges the end of the watcher: a failure after cancellation is the
    /// expected consequence of closing its session.
    pub fn watcher_ended(&self, failed: bool) -> (r: WatcherEnd)
        ensures
            r == (if !failed {
                WatcherEnd::Finished
            } else if self.cancelled {
                WatcherEnd::Expected
            } else {
                WatcherEnd::Failed
            }),
    {
        if !failed {
            WatcherEnd::Finished
        } else if self.cancelled {
            WatcherEnd::Expected
        } else {
            WatcherEnd::Failed
        }
    }
}

/// UIDs that rise strictly, all above `last`.
pub open spec fn rises_above(uids: Seq<u32>, last: u32) -> bool {
    &&& forall|k: int| 0 <= k < uids.len() ==> #[trigger] uids[k] > last
    &&& forall|k1: int, k2: int| 0 <= k1 < k2 < uids.len() ==> #[trigger] uids[k1] < #[trigger] uids[k2]
}

/// A planned batch never emits the UID last seen, nor one below it, nor
/// any UID twice: what it emits rises strictly from above `last`.
pub proof fn lemma_skip_repeat(batch: Seq<Option<u32>>, last: u32, order: Seq<usize>)
    requires
        plans(batch, last, order),
    ensures
        rises_above(planned_uids(batch, order), last),
{
    let u = planned_uids(batch, order);
    assert forall|k: int| 0 <= k < u.len() implies #[trigger] u[k] > last by {
        assert(is_fresh(batch, order[k] as int, last));
    }
    assert forall|k1: int, k2: int| 0 <= k1 < k2 < u.len() implies #[trigger] u[k1] < #[trigger] u[k2] by {
        assert(uid_of(batch, order[k1] as int) < uid_of(batch, order[k2] as int));
    }
}

/// Emitting UIDs that rise above the cursor never moves the checkpoint
/// back. With checkpoint writes on it ends at the last UID emitted; with
/// them off it is left as it was.
pub proof fn lemma_checkpoint_monotone(c: Cursor, uids: Seq<u32>)
    requires
        c.wf(),
        rises_above(uids, c.last_seen),
    ensures
        c.advanced_by(uids).wf(),
        c.advanced_by(uids).write_checkpoint == c.write_checkpoint,
        c.advanced_by(uids).last_seen >= c.last_seen,
        uids.len() > 0 ==> c.advanced_by(uids).last_seen == uids.last(),
        c.checkpoint matches Some(a) ==> (c.advanced_by(uids).checkpoint matches Some(b) && b >= a),
        c.write_checkpoint && uids.len() > 0 ==> c.advanced_by(uids).checkpoint == Some(uids.last()),
        !c.write_checkpoint ==> c.advanced_by(uids).checkpoint == c.checkpoint,
    decreases uids.len(),
{
    if uids.len() > 0 {
        let rest = uids.drop_last();
        assert forall|k1: int, k2: int| 0 <= k1 < k2 < rest.len() implies #[trigger] rest[k1]
            < #[trigger] rest[k2] by {
            assert(uids[k1] < uids[k2]);
        }
        assert forall|k: int| 0 <= k < rest.len() implies #[trigger] rest[k] > c.last_seen by {
            assert(uids[k] > c.last_seen);
        }
        lemma_checkpoint_monotone(c, rest);
        assert(uids.last() > c.last_seen);
        if rest.len() > 0 {
            assert(rest.last() == uids[rest.len() - 1]);
            assert(uids[rest.len() - 1] < uids[uids.len() - 1]);
        }
    }
}

/// A run's checkpoint only moves forward: after a batch is absorbed it is
/// at least what it was, and with writes on it is the UID of the last
/// message emitted (unchanged when nothing was emitted).
pub proof fn lemma_absorb_monotone(c: Cursor, batch: Seq<Option<u32>>, es: Seq<Emission>)
    requires
        c.wf(),
        plans(batch, c.last_seen, emission_indices(es)),
        emission_uids(es) == planned_uids(batch, emission_indices(es)),
    ensures
        c.advanced_by(emission_uids(es)).wf(),
        c.checkpoint matches Some(a) ==> (c.advanced_by(emission_uids(es)).checkpoint matches Some(b)
            && b >= a),
        c.write_checkpoint && es.len() > 0 ==> c.advanced_by(emission_uids(es)).checkpoint == Some(
            es.last().uid,
        ),
        !c.write_checkpoint ==> c.advanced_by(emission_uids(es)).checkpoint == c.checkpoint,
        es.len() == 0 ==> c.advanced_by(emission_uids(es)) == c,
{
    lemma_skip_repeat(batch, c.last_seen, emission_indices(es));
    lemma_checkpoint_monotone(c, emission_uids(es));
}

proof fn lemma_plans_agree_upto(
    batch: Seq<Option<u32>>,
    last: u32,
    o1: Seq<usize>,
    o2: Seq<usize>,
    k: int,
)
    requires
        plans(batch, last, o1),
        plans(batch, last, o2),
        0 <= k <= o1.len(),
        k <= o2.len(),
    ensures
        forall|j: int| 0 <= j < k ==> uid_of(batch, #[trigger] o1[j] as int) == uid_of(batch, o2[j] as int),
    decreases k,
{
    if k > 0 {
        lemma_plans_agree_upto(batch, last, o1, o2, k - 1);
        let j = k - 1;
        assert(is_fresh(batch, o1[j] as int, last));
        assert(is_fresh(batch, o2[j] as int, last));
        let m2 = choose|m: int| 0 <= m < o2.len() && uid_of(batch, #[trigger] o2[m] as int) == uid_of(batch, o1[j] as int);
        let m1 = choose|m: int| 0 <= m < o1.len() && uid_of(batch, #[trigger] o1[m] as int) == uid_of(batch, o2[j] as int);
        if m2 < j {
            assert(uid_of(batch, o1[m2] as int) == uid_of(batch, o2[m2] as int));
            assert(uid_of(batch, o1[m2] as int) < uid_of(batch, o1[j] as int));
        } else if m2 > j {
            assert(uid_of(batch, o2[j] as int) < uid_of(batch, o2[m2] as int));
        }
        if m1 < j {
            assert(uid_of(batch, o1[m1] as int) == uid_of(batch, o2[m1] as int));
            assert(uid_of(batch, o2[m1] as int) < uid_of(batch, o2[j] as int));
        } else if m1 > j {
            assert(uid_of(batch, o1[j] as int) < uid_of(batch, o1[m1] as int));
        }
    }
}

/// A batch has one plan only: the entries to emit, and their order, are
/// fixed by the batch and the UID last seen.
pub proof fn lemma_plan_unique(batch: Seq<Option<u32>>, last: u32, o1: Seq<usize>, o2: Seq<usize>)
    requires
        plans(batch, last, o1),
        plans(batch, last, o2),
    ensures
        o1 == o2,
{
    if o1.len() > o2.len() {
        lemma_plans_agree_upto(batch, last, o1, o2, o2.len() as int);
        let j = o2.len() as int;
        assert(is_fresh(batch, o1[j] as int, last));
        let m = choose|m: int| 0 <= m < o2.len() && uid_of(batch, #[trigger] o2[m] as int) == uid_of(batch, o1[j] as int);
        assert(uid_of(batch, o1[m] as int) == uid_of(batch, o2[m] as int));
        assert(uid_of(batch, o1[m] as int) < uid_of(batch, o1[j] as int));
    } else if o2.len() > o1.len() {
        lemma_plans_agree_upto(batch, last, o2, o1, o1.len() as int);
        let j = o1.len() as int;
        assert(is_fresh(batch, o2[j] as int, last));
        let m = choose|m: int| 0 <= m < o1.len() && uid_of(batch, #[trigger] o1[m] as int) == uid_of(batch, o2[j] as int);
        assert(uid_of(batch, o2[m] as int) == uid_of(batch, o1[m] as int));
        assert(uid_of(batch, o2[m] as int) < uid_of(batch, o2[j] as int));
    }
    lemma_plans_agree_upto(batch, last, o1, o2, o1.len() as int);
    assert forall|k: int| 0 <= k < o1.len() implies o1[k] == o2[k] by {
        assert(uid_of(batch, o1[k] as int) == uid_of(batch, o2[k] as int));
        if o1[k] < o2[k] {
            assert(uid_of(batch, o1[k] as int) != uid_of(batch, o2[k] as int));
        } else if o2[k] < o1[k] {
            assert(uid_of(batch, o2[k] as int) != uid_of(batch, o1[k] as int));
        }
    }
    assert(o1 =~= o2);
}

proof fn lemma_last_seen_ignores_writes(c: Cursor, d: Cursor, uids: Seq<u32>)
    requires
        c.last_seen == d.last_seen,
    ensures
        c.advanced_by(uids).last_seen == d.advanced_by(uids).last_seen,
    decreases uids.len(),
{
    if uids.len() > 0 {
        lemma_last_seen_ignores_writes(c, d, uids.drop_last());
    }
}

/// Turning checkpoint writes off changes no emission: from the same UID
/// last seen, a batch is absorbed into the same entries, with the same
/// UIDs in the same order, and the cursor ends at the same UID; only the
/// checkpoint writes differ.
pub proof fn lemma_emissions_ignore_writes(
    batch: Seq<Option<u32>>,
    on: Cursor,
    off: Cursor,
    es_on: Seq<Emission>,
    es_off: Seq<Emission>,
)
    requires
        on.last_seen == off.last_seen,
        plans(batch, on.last_seen, emission_indices(es_on)),
        plans(batch, off.last_seen, emission_indices(es_off)),
        emission_uids(es_on) == planned_uids(batch, emission_indices(es_on)),
        emission_uids(es_off) == planned_uids(batch, emission_indices(es_off)),
    ensures
        emission_indices(es_on) == emission_indices(es_off),
        emission_uids(es_on) == emission_uids(es_off),
        on.advanced_by(emission_uids(es_on)).last_seen == off.advanced_by(emission_uids(es_off)).last_seen,
{
    lemma_plan_unique(batch, on.last_seen, emission_indices(es_on), emission_indices(es_off));
    lemma_last_seen_ignores_writes(on, off, emission_uids(es_on));
}

} // verus!
