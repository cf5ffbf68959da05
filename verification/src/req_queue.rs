//! The registry of requests in flight, in both directions.
//!
//! Incoming requests are those of the client; each is paired with a cancel
//! flag. Outgoing requests are those that the server sent; each is paired with
//! the channel on which the answer is awaited.
use vstd::prelude::*;
use crate::ident::RequestId;
use crate::ident::RequestIdView;
use crate::table::Table;

verus! {

/// The handle of a cancel flag. The flag itself lives in the queue that made
/// it, and outlives the request's entry there.
#[derive(Clone, Copy, Debug, PartialEq, Eq, Structural)]
pub struct CancelFlag {
    pub slot: usize,
}

/// The number of the channel on which the answer to an outgoing request is
/// awaited.
#[derive(Clone, Copy, Debug, PartialEq, Eq, Structural)]
pub struct ReplyChannel {
    pub number: u64,
}

/// Why the queue refused an operation.
#[derive(Clone, Copy, Debug, PartialEq, Eq, Structural)]
pub enum QueueError {
    /// The id is registered already.
    DuplicateId,
    /// No request with this id is registered.
    UnknownId,
}

/// Requests in flight and every cancel flag ever made.
pub struct ReqQueue {
    incoming: Table<RequestId, CancelFlag>,
    outgoing: Table<RequestId, ReplyChannel>,
    flags: Vec<bool>,
}

/// Every flag that `before` holds is held by `after`, and one that is set in
/// `before` is set in `after`.
pub open spec fn flags_kept(before: Seq<bool>, after: Seq<bool>) -> bool {
    &&& before.len() <= after.len()
    &&& forall|i: int| 0 <= i < before.len() && before[i] ==> after[i]
}

impl ReqQueue {
    /// The incoming requests in flight, each with its flag.
    pub closed spec fn incoming(&self) -> Map<RequestIdView, CancelFlag> {
        self.incoming@
    }

    /// The outgoing requests in flight, each with its channel.
    pub closed spec fn outgoing(&self) -> Map<RequestIdView, ReplyChannel> {
        self.outgoing@
    }

    /// The state of each flag made so far, by slot.
    pub closed spec fn flags(&self) -> Seq<bool> {
        self.flags@
    }

    /// Whether `flag` was made by this queue and is set.
    pub open spec fn is_set(&self, flag: CancelFlag) -> bool {
        flag.slot < self.flags().len() && self.flags()[flag.slot as int]
    }

    /// Validity: the flag of each registered request was made by this queue.
    pub closed spec fn wf(&self) -> bool {
        &&& self.incoming.wf()
        &&& self.outgoing.wf()
        &&& forall|id: RequestIdView|
            #![trigger self.incoming@.contains_key(id)]
            self.incoming@.contains_key(id) ==> self.incoming@[id].slot < self.flags@.len()
    }

    /// The flag of a registered request is one of this queue's flags.
    pub proof fn lemma_registered_flag(&self, id: RequestIdView)
        requires
            self.wf(),
            self.incoming().contains_key(id),
        ensures
            self.incoming()[id].slot < self.flags().len(),
    {
    }

    /// A queue with nothing in flight and no flag.
    pub fn new() -> (q: ReqQueue)
        ensures
            q.wf(),
            q.incoming() == Map::<RequestIdView, CancelFlag>::empty(),
            q.outgoing() == Map::<RequestIdView, ReplyChannel>::empty(),
            q.flags() == Seq::<bool>::empty(),
    {
        let q = ReqQueue { incoming: Table::new(), outgoing: Table::new(), flags: Vec::new() };
        assert(q.incoming@ =~= Map::<RequestIdView, CancelFlag>::empty());
        assert(q.outgoing@ =~= Map::<RequestIdView, ReplyChannel>::empty());
        q
    }

    /// Registers the incoming request `id` with a new flag that is not set,
    /// and returns the flag. An id that is registered already is refused and
    /// the queue stays as it was.
    pub fn register_incoming(&mut self, id: RequestId) -> (r: Result<CancelFlag, QueueError>)
        requires
            old(self).wf(),
        ensures
            final(self).wf(),
            final(self).outgoing() == old(self).outgoing(),
            old(self).incoming().contains_key(id@) ==> {
                &&& r == Err::<CancelFlag, QueueError>(QueueError::DuplicateId)
                &&& final(self).incoming() == old(self).incoming()
                &&& final(self).flags() == old(self).flags()
            },
            !old(self).incoming().contains_key(id@) ==> {
                &&& r == Ok::<CancelFlag, QueueError>(CancelFlag { slot: old(self).flags().len() as usize })
                &&& final(self).incoming() == old(self).incoming().insert(id@, r.unwrap())
                &&& final(self).flags() == old(self).flags().push(false)
                &&& !final(self).is_set(r.unwrap())
            },
            flags_kept(old(self).flags(), final(self).flags()),
    {
        if self.incoming.find(&id).is_some() {
            return Err(QueueError::DuplicateId);
        }
        let flag = CancelFlag { slot: self.flags.len() };
        self.flags.push(false);
        self.incoming.insert(id, flag);
        Ok(flag)
    }

    /// Takes the incoming request `id` out of the registry and returns its
    /// flag. For an id that is not registered nothing changes.
    pub fn complete_incoming(&mut self, id: &RequestId) -> (r: Option<CancelFlag>)
        requires
            old(self).wf(),
        ensures
            final(self).wf(),
            final(self).outgoing() == old(self).outgoing(),
            final(self).flags() == old(self).flags(),
            final(self).incoming() == old(self).incoming().remove(id@),
            r == (if old(self).incoming().contains_key(id@) {
                Some(old(self).incoming()[id@])
            } else {
                None
            }),
    {
        let r = self.incoming.remove(id);
        assert(r.is_some() ==> old(self).incoming()[id@] == r.unwrap());
        r
    }

    /// Registers the outgoing request `id` with the channel that awaits its
    /// answer. An id that is registered already is refused.
    pub fn register_outgoing(&mut self, id: RequestId, channel: ReplyChannel) -> (r: Result<
        (),
        QueueError,
    >)
        requires
            old(self).wf(),
        ensures
            final(self).wf(),
            final(self).incoming() == old(self).incoming(),
            final(self).flags() == old(self).flags(),
            old(self).outgoing().contains_key(id@) ==> {
                &&& r == Err::<(), QueueError>(QueueError::DuplicateId)
                &&& final(self).outgoing() == old(self).outgoing()
            },
            !old(self).outgoing().contains_key(id@) ==> {
                &&& r == Ok::<(), QueueError>(())
                &&& final(self).outgoing() == old(self).outgoing().insert(id@, channel)
            },
    {
        if self.outgoing.find(&id).is_some() {
            return Err(QueueError::DuplicateId);
        }
        self.outgoing.insert(id, channel);
        Ok(())
    }

    /// Takes the outgoing request `id` out of the registry and returns its
    /// channel. An answer to a request that was never sent is an error.
    pub fn complete_outgoing(&mut self, id: &RequestId) -> (r: Result<ReplyChannel, QueueError>)
        requires
            old(self).wf(),
        ensures
            final(self).wf(),
            final(self).incoming() == old(self).incoming(),
            final(self).flags() == old(self).flags(),
            final(self).outgoing() == old(self).outgoing().remove(id@),
            r == (if old(self).outgoing().contains_key(id@) {
                Ok::<ReplyChannel, QueueError>(old(self).outgoing()[id@])
            } else {
                Err::<ReplyChannel, QueueError>(QueueError::UnknownId)
            }),
    {
        match self.outgoing.remove(id) {
            Some(channel) => {
                assert(old(self).outgoing()[id@] == channel);
                Ok(channel)
            },
            None => Err(QueueError::UnknownId),
        }
    }

    /// Whether an incoming request `id` is registered.
    pub fn is_registered(&self, id: &RequestId) -> (r: bool)
        requires
            self.wf(),
        ensures
            r == self.incoming().contains_key(id@),
    {
        self.incoming.find(id).is_some()
    }

    /// Sets `flag`. A flag stays set for ever; a handle that this queue did
    /// not make changes nothing.
    pub fn set_flag(&mut self, flag: CancelFlag)
        requires
            old(self).wf(),
        ensures
            final(self).wf(),
            final(self).incoming() == old(self).incoming(),
            final(self).outgoing() == old(self).outgoing(),
            final(self).flags() == (if flag.slot < old(self).flags().len() {
                old(self).flags().update(flag.slot as int, true)
            } else {
                old(self).flags()
            }),
            flags_kept(old(self).flags(), final(self).flags()),
    {
        if flag.slot < self.flags.len() {
            self.flags.push(true);
            let _was = self.flags.swap_remove(flag.slot);
            assert(self.flags@ =~= old(self).flags@.update(flag.slot as int, true));
        }
    }

    /// Whether `flag` is set.
    pub fn is_canceled(&self, flag: CancelFlag) -> (r: bool)
        requires
            self.wf(),
        ensures
            r == self.is_set(flag),
    {
        flag.slot < self.flags.len() && self.flags[flag.slot]
    }

    /// The client withdrew request `id`: its entry leaves the registry and its
    /// flag is set. Returns the flag, or nothing for an id that is not
    /// registered, in which case nothing changes.
    pub fn cancel(&mut self, id: &RequestId) -> (r: Option<CancelFlag>)
        requires
            old(self).wf(),
        ensures
            final(self).wf(),
            final(self).outgoing() == old(self).outgoing(),
            final(self).incoming() == old(self).incoming().remove(id@),
            old(self).incoming().contains_key(id@) ==> {
                &&& r == Some(old(self).incoming()[id@])
                &&& final(self).is_set(r.unwrap())
                &&& final(self).flags() == old(self).flags().update(r.unwrap().slot as int, true)
            },
            !old(self).incoming().contains_key(id@) ==> {
                &&& r.is_none()
                &&& final(self).flags() == old(self).flags()
            },
            flags_kept(old(self).flags(), final(self).flags()),
    {
        proof {
            if self.incoming().contains_key(id@) {
                self.lemma_registered_flag(id@);
            }
        }
        match self.complete_incoming(id) {
            Some(flag) => {
                self.set_flag(flag);
                Some(flag)
            },
            None => None,
        }
    }
}

/// A set flag survives whatever the queue does next: the relation that every
/// operation of the queue keeps between the flags before and after it is
/// transitive and never clears a flag.
pub proof fn lemma_flag_stays_set(a: ReqQueue, b: ReqQueue, c: ReqQueue, flag: CancelFlag)
    requires
        flags_kept(a.flags(), b.flags()),
        flags_kept(b.flags(), c.flags()),
        a.is_set(flag),
    ensures
        flags_kept(a.flags(), c.flags()),
        b.is_set(flag),
        c.is_set(flag),
{
}

} // verus!
