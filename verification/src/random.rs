//! Random bytes and positions.

use rand::{Rng, RngCore};
use vstd::prelude::*;

verus! {

/// Fills `buf` by `rand::RngCore::fill_bytes` of the thread's generator,
/// which overwrites the bytes and keeps their number. Nothing is said of the
/// bytes: they are left to chance. It panics where the system has no
/// randomness to seed the generator with.
#[verifier::external_body]
fn fill_bytes(buf: &mut Vec<u8>)
    ensures
        final(buf)@.len() == old(buf)@.len(),
{
    rand::thread_rng().fill_bytes(buf.as_mut_slice());
}

/// Draws from `0..bound` by `rand::Rng::gen_range` of the thread's generator,
/// which panics on an empty range and otherwise stays in it. Which number
/// comes is left to chance. It panics too where the system has no randomness
/// to seed the generator with.
#[verifier::external_body]
fn gen_range(bound: usize) -> (r: usize)
    requires
        bound > 0,
    ensures
        r < bound,
{
    rand::thread_rng().gen_range(0..bound)
}

/// A buffer of `len` bytes as the generator left it: each of its bytes is one
/// that the generator wrote.
fn filled(len: usize) -> (r: Vec<u8>)
    ensures
        r@.len() == len,
        exists|buf: &mut Vec<u8>| #[trigger]
            call_ensures(fill_bytes, (buf,), ()) && r@ == final(buf)@,
{
    let mut r: Vec<u8> = vec![0u8; len];
    fill_bytes(&mut r);
    r
}

/// Whether `bytes` are, from the first to the last, what the generator left in
/// one buffer.
pub closed spec fn drawn(bytes: Seq<u8>) -> bool {
    exists|r: Vec<u8>| #[trigger]
        call_ensures(filled, (bytes.len() as usize,), r) && r@ == bytes
}

/// Whether `r` is what the generator drew from `0..bound`.
pub closed spec fn drawn_below(bound: usize, r: usize) -> bool {
    call_ensures(gen_range, (bound,), r)
}

/// `len` random bytes.
pub fn random_block(len: usize) -> (r: Vec<u8>)
    ensures
        r@.len() == len,
        drawn(r@),
{
    let r = filled(len);
    assert(call_ensures(filled, (r@.len() as usize,), r));
    r
}

/// A random position at which a block of `block` bytes lies within the first
/// `size` bytes.
pub fn random_position(size: usize, block: usize) -> (r: usize)
    requires
        block < size,
    ensures
        r < size - block,
        drawn_below((size - block) as usize, r),
{
    gen_range(size - block)
}

/// Random bytes are a whole buffer that was filled at once, with nothing put
/// before, between or behind what the generator wrote.
proof fn random_bytes_fill_one_buffer(bytes: Seq<u8>)
    requires
        drawn(bytes),
    ensures
        exists|r: Vec<u8>| #[trigger]
            call_ensures(filled, (bytes.len() as usize,), r) && r@ == bytes,
{
}

/// A random position is the very number that the generator drew.
proof fn random_position_is_the_draw(bound: usize, r: usize)
    requires
        drawn_below(bound, r),
    ensures
        call_ensures(gen_range, (bound,), r),
        r < bound,
{
}

} // verus!
