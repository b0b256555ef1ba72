use vstd::prelude::*;

use nix::fcntl::OFlag;

verus! {

/// The flags among `bits` that name an open-file flag.
pub uninterp spec fn known_open_flags(bits: i32) -> i32;

/// Relies on nix's `OFlag::from_bits_truncate`, which keeps the bits that name
/// a flag and drops the others; `bits` reads them back.
#[verifier::external_body]
fn truncate_open_flags(bits: i32) -> (r: i32)
    ensures
        r == known_open_flags(bits),
{
    OFlag::from_bits_truncate(bits).bits()
}

/// Relies on nix's `OFlag::O_NONBLOCK`, which is libc's `O_NONBLOCK`: a
/// nonzero flag on every target, whose value differs between targets.
#[verifier::external_body]
fn nonblock_bit() -> (r: i32)
    ensures
        r != 0,
{
    OFlag::O_NONBLOCK.bits()
}

/// The file-status flags that make non-blocking a descriptor whose flags are
/// `current`: the known flags among them, with the non-blocking flag added.
pub fn nonblocking_flags(current: i32) -> (r: i32)
    ensures
        exists|nb: i32| nb != 0 && r == (known_open_flags(current) | nb),
{
    truncate_open_flags(current) | nonblock_bit()
}

} // verus!
