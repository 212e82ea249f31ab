//! Fake implementation of a random number generator driver.
//!
//! The stub fills the buffer the application shared with it. `add_bytes`
//! feeds entropy while a request is outstanding (deferred delivery);
//! `add_bytes_sync` pre-seeds entropy so that the request command itself
//! completes the fill (immediate delivery). When the shared buffer is
//! shorter than the request, the fill truncates to the buffer and completes
//! with the number of bytes actually written — truncation, not failure.

use vstd::prelude::*;
use crate::command_return::CommandReturn;
use crate::error_code::ErrorCode;
use crate::fake::DriverInfo;
use crate::upcall::UpcallRecord;

verus! {

/// The driver number the random number generator stub serves.
pub const DRIVER_NUM: u32 = 0x40001;

/// Command id: existence check.
pub const EXISTS: u32 = 0;

/// Command id: request that many random bytes.
pub const ASK_FOR_RANDOM_BYTES: u32 = 1;

/// The read-write buffer id the randomness is written into.
pub const RW_ALLOW: u32 = 0;

/// The fake random number generator's state.
pub struct Rng {
    buffer: Vec<u8>,
    remaining: usize,
    idx: usize,
    getting_randomness: bool,
    random_numbers: Option<Vec<u8>>,
}

/// The mathematical model of the stub's state: the shared buffer, how many
/// requested bytes are still owed, how many were written, whether a request
/// is outstanding, and any pre-seeded entropy.
#[verifier::ext_equal]
pub ghost struct RngV {
    pub buffer: Seq<u8>,
    pub remaining: int,
    pub idx: int,
    pub getting_randomness: bool,
    pub random_numbers: Option<Seq<u8>>,
}

impl View for Rng {
    type V = RngV;

    closed spec fn view(&self) -> RngV {
        RngV {
            buffer: self.buffer@,
            remaining: self.remaining as int,
            idx: self.idx as int,
            getting_randomness: self.getting_randomness,
            random_numbers: match self.random_numbers {
                Some(ref v) => Some(v@),
                None => None,
            },
        }
    }
}

/// Well-formed: the written prefix and the owed remainder together stay
/// within the 32-bit range a request is counted in.
pub open spec fn rng_wf(r: RngV) -> bool {
    0 <= r.idx && 0 <= r.remaining && r.idx + r.remaining <= u32::MAX
}

/// The smaller of two integers.
pub open spec fn min_int(a: int, b: int) -> int {
    if a <= b {
        a
    } else {
        b
    }
}

/// What feeding entropy does. Nothing happens unless a request is
/// outstanding. A write position past the buffer's end (possible only if
/// the buffer was swapped mid-request) abandons the request. Otherwise the
/// owed count is first clamped to the room left in the buffer, then as many
/// fed bytes as are owed are copied in. When nothing remains owed the
/// request completes: an upcall reports the count written and the stub goes
/// idle, dropping any pre-seeded entropy.
pub open spec fn spec_add_bytes(r: RngV, buf: Seq<u8>) -> (RngV, Option<UpcallRecord>) {
    if !r.getting_randomness {
        (r, None)
    } else {
        let r1 = if r.idx > r.buffer.len() {
            RngV { remaining: 0, idx: 0, ..r }
        } else {
            let rem = if r.idx + r.remaining > r.buffer.len() {
                r.buffer.len() - r.idx
            } else {
                r.remaining
            };
            let k = min_int(rem, buf.len() as int);
            RngV {
                buffer: r.buffer.take(r.idx) + buf.take(k) + r.buffer.skip(r.idx + k),
                remaining: rem - k,
                idx: r.idx + k,
                ..r
            }
        };
        if r1.remaining == 0 {
            (
                RngV { getting_randomness: false, random_numbers: None, ..r1 },
                Some(UpcallRecord { arg0: 0, arg1: r1.idx as u32, arg2: 0 }),
            )
        } else {
            (r1, None)
        }
    }
}

/// What sharing a read-write buffer does: buffer id 0 swaps the shared
/// buffer, returning the one held before; any other id is rejected with
/// `Invalid` and the offered buffer comes straight back.
pub open spec fn spec_allow_readwrite(r: RngV, buffer_num: u32, buffer: Seq<u8>) -> (
    RngV,
    Result<Seq<u8>, (Seq<u8>, ErrorCode)>,
) {
    if buffer_num == RW_ALLOW {
        (RngV { buffer, ..r }, Ok(r.buffer))
    } else {
        (r, Err((buffer, ErrorCode::Invalid)))
    }
}

/// What a command does. The existence check succeeds and changes nothing.
/// A request for `n` bytes (re)starts a fill of the shared buffer and, when
/// entropy was pre-seeded, feeds it immediately. Any other command id fails
/// with `NoSupport`.
pub open spec fn spec_command(r: RngV, command_id: u32, argument0: u32) -> (
    RngV,
    CommandReturn,
    Option<UpcallRecord>,
) {
    if command_id == EXISTS {
        (r, CommandReturn::Success, None)
    } else if command_id == ASK_FOR_RANDOM_BYTES {
        let started = RngV {
            remaining: argument0 as int,
            idx: 0,
            getting_randomness: true,
            ..r
        };
        match r.random_numbers {
            Some(numbers) => {
                let fed = RngV { random_numbers: None, ..started };
                let (after, up) = spec_add_bytes(fed, numbers);
                (after, CommandReturn::Success, up)
            },
            None => (started, CommandReturn::Success, None),
        }
    } else {
        (r, CommandReturn::Failure(ErrorCode::NoSupport), None)
    }
}

/// Law: allowing one buffer and then another on the same buffer slot
/// returns the first buffer on the second call — a grant always yields the
/// previously held buffer back to its caller, an ownership transfer that
/// never aliases.
pub proof fn lemma_allow_round_trip(r: RngV, buf_a: Seq<u8>, buf_b: Seq<u8>)
    ensures
        ({
            let first = spec_allow_readwrite(r, RW_ALLOW, buf_a);
            let second = spec_allow_readwrite(first.0, RW_ALLOW, buf_b);
            &&& second.1 == Ok::<Seq<u8>, (Seq<u8>, ErrorCode)>(buf_a)
            &&& second.0.buffer == buf_b
        }),
{
}

impl Rng {
    /// A fresh stub: idle, with an empty shared buffer and no seeded bytes.
    pub fn new() -> (r: Rng)
        ensures
            r@ == (RngV {
                buffer: Seq::<u8>::empty(),
                remaining: 0,
                idx: 0,
                getting_randomness: false,
                random_numbers: None,
            }),
            rng_wf(r@),
    {
        Rng {
            buffer: Vec::new(),
            remaining: 0,
            idx: 0,
            getting_randomness: false,
            random_numbers: None,
        }
    }

    /// Feeds entropy to an outstanding request, returning the completion
    /// upcall once the request is fully served.
    pub fn add_bytes(&mut self, buf: &Vec<u8>) -> (up: Option<UpcallRecord>)
        requires
            rng_wf(old(self)@),
        ensures
            rng_wf(final(self)@),
            final(self)@ == spec_add_bytes(old(self)@, buf@).0,
            up == spec_add_bytes(old(self)@, buf@).1,
    {
        if !self.getting_randomness {
            return None;
        }
        if self.idx > self.buffer.len() {
            self.idx = 0;
            self.remaining = 0;
        } else {
            if self.idx + self.remaining > self.buffer.len() {
                self.remaining = self.buffer.len() - self.idx;
            }
            let k = if self.remaining < buf.len() {
                self.remaining
            } else {
                buf.len()
            };
            let ghost b0 = self.buffer@;
            let ghost rem0 = self.remaining;
            let ghost rn0 = self@.random_numbers;
            let idx = self.idx;
            let mut j: usize = 0;
            while j < k
                invariant
                    j <= k,
                    idx + k <= usize::MAX,
                    idx + k <= self.buffer@.len(),
                    k <= buf@.len(),
                    self.idx == idx,
                    self.remaining == rem0,
                    self.getting_randomness,
                    self@.random_numbers == rn0,
                    self.buffer@.len() == b0.len(),
                    forall|m: int| 0 <= m < idx ==> self.buffer@[m] == b0[m],
                    forall|m: int| 0 <= m < j ==> self.buffer@[idx + m] == buf@[m],
                    forall|m: int| idx + k <= m < b0.len() ==> self.buffer@[m] == b0[m],
                    forall|m: int| idx + j <= m < b0.len() ==> self.buffer@[m] == b0[m],
                decreases k - j,
            {
                self.buffer[idx + j] = buf[j];
                j = j + 1;
            }
            proof {
                assert(self.buffer@ =~= b0.take(idx as int) + buf@.take(k as int) + b0.skip(
                    idx + k,
                ));
            }
            self.remaining = self.remaining - k;
            self.idx = self.idx + k;
        }
        if self.remaining == 0 {
            self.getting_randomness = false;
            self.random_numbers = None;
            return Some(UpcallRecord { arg0: 0, arg1: self.idx as u32, arg2: 0 });
        }
        None
    }

    /// Pre-seeds entropy: the next request command consumes it immediately.
    pub fn add_bytes_sync(&mut self, buf: &Vec<u8>)
        ensures
            final(self)@ == (RngV { random_numbers: Some(buf@), ..old(self)@ }),
    {
        let mut copy: Vec<u8> = Vec::new();
        let mut j: usize = 0;
        while j < buf.len()
            invariant
                j <= buf@.len(),
                copy@ == buf@.take(j as int),
            decreases buf@.len() - j,
        {
            copy.push(buf[j]);
            proof {
                assert(copy@ =~= buf@.take(j + 1));
            }
            j = j + 1;
        }
        proof {
            assert(copy@ =~= buf@);
        }
        self.random_numbers = Some(copy);
    }

    /// The stub serves the random number generator driver number with one
    /// subscription slot.
    pub fn info(&self) -> (r: DriverInfo)
        ensures
            r == (DriverInfo { driver_num: DRIVER_NUM, upcall_count: 1 }),
    {
        DriverInfo { driver_num: DRIVER_NUM, upcall_count: 1 }
    }

    /// Shares a read-write buffer with the stub, returning the buffer that
    /// was shared before, or the offered buffer itself when the id is not
    /// the randomness buffer.
    pub fn allow_readwrite(&mut self, buffer_num: u32, buffer: Vec<u8>) -> (r: Result<
        Vec<u8>,
        (Vec<u8>, ErrorCode),
    >)
        ensures
            final(self)@ == spec_allow_readwrite(old(self)@, buffer_num, buffer@).0,
            (match r {
                Ok(prev) => spec_allow_readwrite(old(self)@, buffer_num, buffer@).1 == Ok::<
                    Seq<u8>,
                    (Seq<u8>, ErrorCode),
                >(prev@),
                Err((back, e)) => spec_allow_readwrite(old(self)@, buffer_num, buffer@).1 == Err::<
                    Seq<u8>,
                    (Seq<u8>, ErrorCode),
                >((back@, e)),
            }),
    {
        if buffer_num == RW_ALLOW {
            let mut swapped = buffer;
            core::mem::swap(&mut swapped, &mut self.buffer);
            Ok(swapped)
        } else {
            Err((buffer, ErrorCode::Invalid))
        }
    }

    /// Handles a command, returning the syscall result and the upcall to
    /// enqueue, if the command completed a request. The second argument
    /// word is ignored by this driver.
    pub fn command(&mut self, command_id: u32, argument0: u32, _argument1: u32) -> (r: (
        CommandReturn,
        Option<UpcallRecord>,
    ))
        requires
            rng_wf(old(self)@),
        ensures
            rng_wf(final(self)@),
            final(self)@ == spec_command(old(self)@, command_id, argument0).0,
            r.0 == spec_command(old(self)@, command_id, argument0).1,
            r.1 == spec_command(old(self)@, command_id, argument0).2,
    {
        if command_id == EXISTS {
            (CommandReturn::Success, None)
        } else if command_id == ASK_FOR_RANDOM_BYTES {
            self.remaining = argument0 as usize;
            self.idx = 0;
            self.getting_randomness = true;
            let mut taken: Option<Vec<u8>> = None;
            core::mem::swap(&mut taken, &mut self.random_numbers);
            match taken {
                Some(numbers) => {
                    let up = self.add_bytes(&numbers);
                    (CommandReturn::Success, up)
                },
                None => (CommandReturn::Success, None),
            }
        } else {
            (CommandReturn::Failure(ErrorCode::NoSupport), None)
        }
    }
}

} // verus!
