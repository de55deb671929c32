//! The block service's request rules: one bound client, reads of one to
//! eight sectors into the shared buffer, and the completion of a queued read.
use vstd::prelude::*;

verus! {

/// The block protocol version the service speaks.
pub const BLOCK_PROTOCOL_VERSION: u64 = 1;

/// Bytes per sector.
pub const BLOCK_SECTOR_SIZE: u64 = 512;

/// Sectors the shared buffer holds.
pub const SECTORS_PER_BUFFER: u64 = 8;

/// Why a block request is refused.
#[derive(Clone, Copy, PartialEq, Eq, Structural, Debug)]
pub enum BlockError {
    /// BIND of another protocol version.
    Version,
    /// The sender is not the bound client.
    NotBound,
    /// A count of 0 or beyond the buffer.
    Count,
}

/// The block service's binding.
pub struct BlockServer {
    /// The bound client's badge.
    pub bound: Option<u64>,
}

/// The reply words of an accepted BIND: version, capacity and sector size.
pub open spec fn bind_words(capacity: u64) -> Seq<u64> {
    seq![BLOCK_PROTOCOL_VERSION, capacity, BLOCK_SECTOR_SIZE]
}

impl BlockServer {
    /// No client is bound.
    pub fn new() -> (s: Self)
        ensures
            s.bound is None,
    {
        BlockServer { bound: None }
    }

    /// BIND of `version`: the reply words for a device of `capacity`
    /// sectors, or the refusal of another version.
    pub fn check_bind(&self, version: u64, capacity: u64) -> (r: Result<Vec<u64>, BlockError>)
        ensures
            version != BLOCK_PROTOCOL_VERSION <==> r is Err,
            r matches Ok(w) ==> w@ == bind_words(capacity),
            r matches Err(e) ==> e == BlockError::Version,
    {
        if version != BLOCK_PROTOCOL_VERSION {
            return Err(BlockError::Version);
        }
        let mut words: Vec<u64> = Vec::new();
        words.push(BLOCK_PROTOCOL_VERSION);
        words.push(capacity);
        words.push(BLOCK_SECTOR_SIZE);
        assert(words@ =~= bind_words(capacity));
        Ok(words)
    }

    /// The BIND reply with the buffer went out: `badge` is the client. A
    /// later BIND replaces it.
    pub fn bind(&mut self, badge: u64)
        ensures
            final(self).bound == Some(badge),
    {
        self.bound = Some(badge);
    }

    /// READ of `count` sectors from `badge`: the bytes to read into the
    /// shared buffer, for the bound client and 1 to 8 sectors.
    pub fn check_read(&self, badge: u64, count: u64) -> (r: Result<u64, BlockError>)
        ensures
            r == if self.bound != Some(badge) {
                Err::<u64, BlockError>(BlockError::NotBound)
            } else if count == 0 || count > SECTORS_PER_BUFFER {
                Err(BlockError::Count)
            } else {
                Ok((count * BLOCK_SECTOR_SIZE) as u64)
            },
    {
        match self.bound {
            Some(b) => if b != badge {
                return Err(BlockError::NotBound);
            },
            None => return Err(BlockError::NotBound),
        }
        if count == 0 || count > SECTORS_PER_BUFFER {
            return Err(BlockError::Count);
        }
        Ok(count * BLOCK_SECTOR_SIZE)
    }
}

/// What a used-ring entry means for the read queued under `token`.
#[derive(Clone, Copy, PartialEq, Eq, Structural, Debug)]
pub enum Completion {
    /// Nothing used yet: acknowledge the interrupt and wait again.
    Pending,
    /// Our read completed.
    Done,
    /// Another request completed: the device is out of step.
    WrongToken,
}

/// The completion a peeked used-ring entry signals.
pub fn completion(token: u16, used: Option<u16>) -> (c: Completion)
    ensures
        c == match used {
            None => Completion::Pending,
            Some(t) => if t == token { Completion::Done } else { Completion::WrongToken },
        },
{
    match used {
        None => Completion::Pending,
        Some(t) => if t == token { Completion::Done } else { Completion::WrongToken },
    }
}

} // verus!
