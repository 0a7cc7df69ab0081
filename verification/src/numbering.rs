use crate::options::Rollover;
use vstd::prelude::*;

verus! {

/// The block number that the `count`-th data block of a transfer carries,
/// counting from one. With `Enforce1` the numbers run 1..=65535 and start
/// again at 1; with the other policies they run modulo 65536, so that 0
/// follows 65535.
pub open spec fn spec_block_of(policy: Rollover, count: int) -> u16 {
    match policy {
        Rollover::Enforce1 => if count <= 0 {
            0
        } else {
            ((count - 1) % 65535 + 1) as u16
        },
        _ => (count % 65536) as u16,
    }
}

/// Whether `base` is a block number that can stand for `count`
/// acknowledged blocks. With `Enforce1` an acknowledgement of 0 stands
/// for one of 65535.
pub open spec fn spec_base_of(policy: Rollover, base: u16, count: int) -> bool {
    match policy {
        Rollover::Enforce1 => base % 65535 == count % 65535,
        Rollover::Forbidden => base == count,
        _ => base == count % 65536,
    }
}

/// The block number `offset` blocks after the acknowledged block `base`,
/// on the sending side. `None` where the counter would wrap and the
/// policy forbids it.
pub open spec fn spec_next_block(base: u16, offset: u16, policy: Rollover) -> Option<u16> {
    let sum = base + offset;
    if sum <= 65535 {
        Some(sum as u16)
    } else {
        match policy {
            Rollover::Forbidden => None,
            Rollover::Enforce1 => Some((sum - 65535) as u16),
            _ => Some((sum - 65536) as u16),
        }
    }
}

/// How many blocks the acknowledgement `ack` lies ahead of the
/// acknowledged block `base`, counted modulo 65536, and modulo 65535 with
/// `Enforce1` where the number has wrapped.
pub open spec fn spec_ack_distance(ack: u16, base: u16, policy: Rollover) -> u16 {
    if ack >= base {
        (ack - base) as u16
    } else if policy == Rollover::Enforce1 {
        (ack - base + 65535) as u16
    } else {
        (ack - base + 65536) as u16
    }
}

/// What a receiver that has accepted block `current` makes of a data
/// block numbered `received`.
#[derive(Clone, Copy, Debug, PartialEq, Eq, Structural)]
pub enum Expect {
    /// The block is the next one and is accepted.
    Accept,
    /// The block is not the next one; the last accepted block is
    /// acknowledged again.
    Mismatch,
    /// The block counter wrapped against the policy.
    Rollover,
}

/// The block number that a receiver which has accepted block `current`
/// expects next, when a block numbered `received` arrives. `None` where
/// the counter wraps against the policy.
pub open spec fn spec_expected(current: u16, received: u16, policy: Rollover) -> Option<u16> {
    if current < 65535 {
        Some((current + 1) as u16)
    } else {
        match policy {
            Rollover::Forbidden => None,
            Rollover::Enforce0 => Some(0),
            Rollover::Enforce1 => if received == 0 {
                None
            } else {
                Some(1)
            },
            Rollover::DontCare => if received == 1 {
                Some(1)
            } else {
                Some(0)
            },
        }
    }
}

/// What a receiver that has accepted block `current` makes of a data
/// block numbered `received`.
pub open spec fn spec_judge(current: u16, received: u16, policy: Rollover) -> Expect {
    match spec_expected(current, received, policy) {
        None => Expect::Rollover,
        Some(expected) => if received == expected {
            Expect::Accept
        } else {
            Expect::Mismatch
        },
    }
}

/// The sender numbers its blocks as `spec_block_of` says: the block
/// `offset` places after `count` acknowledged blocks carries the number
/// of block `count + offset`.
pub proof fn lemma_next_block(policy: Rollover, base: u16, count: int, offset: u16)
    requires
        count >= 0,
        spec_base_of(policy, base, count),
        offset >= 1,
    ensures
        spec_next_block(base, offset, policy) matches Some(n) ==> n == spec_block_of(
            policy,
            count + offset,
        ),
        spec_next_block(base, offset, policy) is None <==> policy == Rollover::Forbidden && count
            + offset > 65535,
{
    let sum = base + offset;
    match policy {
        Rollover::Enforce1 => {
            let k = count + offset;
            assert((k - 1) % 65535 == (base % 65535 + offset - 1) % 65535) by {
                vstd::arithmetic::div_mod::lemma_add_mod_noop(count as int, offset - 1, 65535);
                vstd::arithmetic::div_mod::lemma_add_mod_noop(base as int, offset - 1, 65535);
                vstd::arithmetic::div_mod::lemma_mod_twice(base as int, 65535);
                vstd::arithmetic::div_mod::lemma_add_mod_noop(
                    base as int % 65535,
                    offset - 1,
                    65535,
                );
            }
        },
        Rollover::Forbidden => {},
        _ => {
            assert((count + offset) % 65536 == (base + offset) % 65536) by {
                vstd::arithmetic::div_mod::lemma_add_mod_noop(count as int, offset as int, 65536);
            }
        },
    }
}

/// Sliding the window by the distance of an acknowledgement leaves its
/// number standing for the new count of acknowledged blocks.
pub proof fn lemma_ack_slides(policy: Rollover, base: u16, count: int, ack: u16)
    requires
        count >= 0,
        spec_base_of(policy, base, count),
        policy == Rollover::Forbidden ==> ack >= base,
    ensures
        spec_base_of(policy, ack, count + spec_ack_distance(ack, base, policy)),
{
    let d = spec_ack_distance(ack, base, policy) as int;
    match policy {
        Rollover::Enforce1 => {
            assert((count + d) % 65535 == ack % 65535) by {
                vstd::arithmetic::div_mod::lemma_add_mod_noop(count as int, d, 65535);
                vstd::arithmetic::div_mod::lemma_add_mod_noop(base as int, d, 65535);
                if ack < base {
                    vstd::arithmetic::div_mod::lemma_mod_add_multiples_vanish(ack as int, 65535);
                }
            }
        },
        Rollover::Forbidden => {},
        _ => {
            assert((count + d) % 65536 == ack as int % 65536) by {
                vstd::arithmetic::div_mod::lemma_add_mod_noop(count as int, d, 65536);
                if ack < base {
                    vstd::arithmetic::div_mod::lemma_mod_add_multiples_vanish(ack as int, 65536);
                }
            }
        },
    }
}

/// A receiver that has accepted `count` blocks of a sender with the same
/// policy accepts the sender's next block: the two number alike, so the
/// last acknowledgement carries the number of the last data block.
pub proof fn lemma_receiver_follows_sender(policy: Rollover, count: int)
    requires
        count >= 0,
        policy == Rollover::Forbidden ==> count < 65535,
    ensures
        spec_judge(spec_block_of(policy, count), spec_block_of(policy, count + 1), policy)
            == Expect::Accept,
{
    let current = spec_block_of(policy, count);
    let next = spec_block_of(policy, count + 1);
    match policy {
        Rollover::Enforce1 => {
            if count > 0 {
                let r = (count - 1) % 65535;
                assert(count % 65535 == (r + 1) % 65535) by {
                    vstd::arithmetic::div_mod::lemma_add_mod_noop(count - 1, 1, 65535);
                }
            }
        },
        Rollover::Forbidden => {},
        _ => {
            assert((count + 1) % 65536 == (count % 65536 + 1) % 65536) by {
                vstd::arithmetic::div_mod::lemma_add_mod_noop(count as int, 1, 65536);
            }
        },
    }
}

/// The block number `offset` blocks after the acknowledged block `base`.
pub fn next_block(base: u16, offset: u16, policy: Rollover) -> (r: Option<u16>)
    ensures
        r == spec_next_block(base, offset, policy),
{
    let sum: u32 = base as u32 + offset as u32;
    if sum <= 65535 {
        Some(sum as u16)
    } else {
        match policy {
            Rollover::Forbidden => None,
            Rollover::Enforce1 => Some((sum - 65535) as u16),
            _ => Some((sum - 65536) as u16),
        }
    }
}

/// How many blocks the acknowledgement `ack` lies ahead of `base`.
pub fn ack_distance(ack: u16, base: u16, policy: Rollover) -> (r: u16)
    ensures
        r == spec_ack_distance(ack, base, policy),
{
    if ack >= base {
        ack - base
    } else {
        let gap: u32 = base as u32 - ack as u32;
        match policy {
            Rollover::Enforce1 => (65535 - gap) as u16,
            _ => (65536 - gap) as u16,
        }
    }
}

/// What a receiver that has accepted block `current` makes of a data
/// block numbered `received`.
pub fn judge(current: u16, received: u16, policy: Rollover) -> (r: Expect)
    ensures
        r == spec_judge(current, received, policy),
{
    let expected: u16 = if current < 65535 {
        current + 1
    } else {
        match policy {
            Rollover::Forbidden => {
                return Expect::Rollover;
            },
            Rollover::Enforce0 => 0,
            Rollover::Enforce1 => {
                if received == 0 {
                    return Expect::Rollover;
                }
                1
            },
            Rollover::DontCare => if received == 1 {
                1
            } else {
                0
            },
        }
    };
    if received == expected {
        Expect::Accept
    } else {
        Expect::Mismatch
    }
}

} // verus!
