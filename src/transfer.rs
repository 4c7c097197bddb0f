use vstd::prelude::*;

verus! {

/// What a network transfer hands over next.
pub enum Delivery {
    /// The next run of bytes.
    Chunk(Vec<u8>),
    /// The transfer failed, for this reason.
    Failure(String),
    /// The transfer completed: no more bytes will come.
    Finished,
}

/// Whether more bytes may come.
pub enum Phase {
    Open,
    Ended,
    Failed(String),
}

/// The reading side of a network transfer: the chunk being read, and whether
/// the transfer is still going.
pub struct ChunkCursor {
    chunk: Vec<u8>,
    offset: usize,
    phase: Phase,
}

impl ChunkCursor {
    #[verifier::type_invariant]
    spec fn in_bounds(self) -> bool {
        &&& self.offset <= self.chunk.len()
        &&& !(self.phase is Open) ==> self.offset == self.chunk.len()
    }

    /// The bytes received and not yet consumed.
    pub closed spec fn pending(&self) -> Seq<u8> {
        self.chunk@.skip(self.offset as int)
    }

    pub closed spec fn phase_view(&self) -> Phase {
        self.phase
    }

    /// Whether the next delivery is needed before any byte can be read: the
    /// transfer is still going and every byte received has been consumed.
    pub open spec fn starved(&self) -> bool {
        self.phase_view() is Open && self.pending().len() == 0
    }

    /// A cursor before the first delivery.
    pub fn new() -> (r: Self)
        ensures
            r.pending() == Seq::<u8>::empty(),
            r.phase_view() is Open,
    {
        let r = ChunkCursor { chunk: Vec::new(), offset: 0, phase: Phase::Open };
        proof {
            assert(r.chunk@.skip(0) =~= Seq::<u8>::empty());
        }
        r
    }

    pub fn wants_delivery(&self) -> (r: bool)
        ensures
            r == self.starved(),
    {
        proof {
            use_type_invariant(self);
        }
        match self.phase {
            Phase::Open => self.offset == self.chunk.len(),
            _ => false,
        }
    }

    /// Takes in the next delivery: a chunk becomes the bytes to read, a
    /// failure or the end of the transfer closes the cursor.
    pub fn deliver(&mut self, d: Delivery)
        requires
            old(self).starved(),
        ensures
            match d {
                Delivery::Chunk(bytes) => {
                    &&& final(self).pending() == bytes@
                    &&& final(self).phase_view() is Open
                },
                Delivery::Failure(reason) => {
                    &&& final(self).pending().len() == 0
                    &&& final(self).phase_view() == Phase::Failed(reason)
                },
                Delivery::Finished => {
                    &&& final(self).pending().len() == 0
                    &&& final(self).phase_view() is Ended
                },
            },
    {
        proof {
            use_type_invariant(&*self);
        }
        match d {
            Delivery::Chunk(bytes) => {
                proof {
                    assert(bytes@.skip(0) =~= bytes@);
                }
                *self = ChunkCursor { chunk: bytes, offset: 0, phase: Phase::Open };
            },
            Delivery::Failure(reason) => {
                *self = ChunkCursor { chunk: Vec::new(), offset: 0, phase: Phase::Failed(reason) };
            },
            Delivery::Finished => {
                *self = ChunkCursor { chunk: Vec::new(), offset: 0, phase: Phase::Ended };
            },
        }
    }

    /// The bytes to read, empty once the transfer has ended, or the reason
    /// the transfer failed.
    pub fn fill(&self) -> (r: Result<&[u8], String>)
        ensures
            match self.phase_view() {
                Phase::Failed(reason) => r == Err::<&[u8], String>(reason),
                _ => r is Ok && r->Ok_0@ == self.pending(),
            },
    {
        proof {
            use_type_invariant(self);
        }
        match &self.phase {
            Phase::Failed(reason) => Err(reason.clone()),
            _ => {
                let (_, rest) = self.chunk.as_slice().split_at(self.offset);
                Ok(rest)
            },
        }
    }

    /// Consumes `amount` bytes, or every pending byte where fewer are left.
    pub fn consume(&mut self, amount: usize)
        ensures
            final(self).pending() == old(self).pending().skip(
                if amount <= old(self).pending().len() {
                    amount as int
                } else {
                    old(self).pending().len() as int
                },
            ),
            final(self).phase_view() == old(self).phase_view(),
    {
        proof {
            use_type_invariant(&*self);
        }
        let left = self.chunk.len() - self.offset;
        let step = if amount <= left {
            amount
        } else {
            left
        };
        self.offset = self.offset + step;
        proof {
            assert(self.chunk@.skip(self.offset as int) =~= old(self).pending().skip(step as int));
        }
    }
}

} // verus!
