//! The hash of a file's content.
//!
//! A hasher promises equal results only for equal sequences of writes. So the
//! bytes are handed to it in blocks of a fixed size, whatever pieces they
//! came in: the hash is then a function of the content alone.

use std::collections::hash_map::DefaultHasher;
use std::hash::Hasher;
use vstd::prelude::*;
use vstd::std_specs::hash::DefaultHasherAdditionalSpecFns;

verus! {

/// The bytes that are written, read and hashed at a time.
pub const CHUNK: usize = 131072;

/// The blocks that `content` is hashed in: as many whole ones as there are,
/// then what is left, if anything.
pub open spec fn blocks(content: Seq<u8>) -> Seq<Seq<u8>>
    decreases content.len(),
{
    if content.len() == 0 {
        Seq::empty()
    } else if content.len() <= CHUNK {
        seq![content]
    } else {
        seq![content.take(CHUNK as int)] + blocks(content.skip(CHUNK as int))
    }
}

/// The hash of a file with this content.
pub open spec fn content_hash(content: Seq<u8>) -> u64 {
    DefaultHasher::spec_finish(blocks(content))
}

/// Whole blocks in front come out as they are.
proof fn blocks_after_whole(content: Seq<u8>, tail: Seq<u8>)
    requires
        content.len() % CHUNK as nat == 0,
    ensures
        blocks(content + tail) == blocks(content) + blocks(tail),
    decreases content.len(),
{
    if content.len() == 0 {
        assert(content + tail =~= tail);
        assert(blocks(content) + blocks(tail) =~= blocks(tail));
    } else {
        let all = content + tail;
        let rest = content.skip(CHUNK as int);
        assert(content.len() >= CHUNK);
        blocks_after_whole(rest, tail);
        assert(content.take(CHUNK as int) =~= all.take(CHUNK as int));
        assert(all.skip(CHUNK as int) =~= rest + tail);
        if content.len() == CHUNK {
            assert(rest.len() == 0);
            assert(rest + tail =~= tail);
            assert(content.take(CHUNK as int) =~= content);
            if tail.len() == 0 {
                assert(all =~= content);
                assert(blocks(tail) =~= Seq::empty());
                assert(blocks(content) + blocks(tail) =~= blocks(content));
            }
        } else {
            assert(blocks(content) + blocks(tail) =~= seq![content.take(CHUNK as int)] + (blocks(
                rest,
            ) + blocks(tail)));
        }
    }
}

/// A hasher that sees a file's content.
pub struct ContentHasher {
    hasher: DefaultHasher,
    pending: Vec<u8>,
    content: Ghost<Seq<u8>>,
}

impl View for ContentHasher {
    type V = Seq<u8>;

    /// The bytes seen so far.
    closed spec fn view(&self) -> Seq<u8> {
        self.content@
    }
}

impl ContentHasher {
    /// Whole blocks are with the hasher, and fewer bytes than a block wait.
    pub closed spec fn wf(self) -> bool {
        exists|whole: Seq<u8>|
            {
                &&& #[trigger] blocks(whole) == self.hasher@
                &&& whole.len() % CHUNK as nat == 0
                &&& self.content@ == whole + self.pending@
                &&& self.pending@.len() < CHUNK
            }
    }

    /// A hasher that has seen nothing.
    pub fn new() -> (r: Self)
        ensures
            r.wf(),
            r@ == Seq::<u8>::empty(),
    {
        let r = ContentHasher {
            hasher: DefaultHasher::new(),
            pending: Vec::new(),
            content: Ghost(Seq::empty()),
        };
        proof {
            let whole = Seq::<u8>::empty();
            assert(blocks(whole) == r.hasher@);
            assert(r.content@ =~= whole + r.pending@);
        }
        r
    }

    /// Sees `bytes` too.
    pub fn absorb(&mut self, bytes: &[u8])
        requires
            old(self).wf(),
        ensures
            final(self).wf(),
            final(self)@ == old(self)@ + bytes@,
    {
        let mut i: usize = 0;
        while i < bytes.len()
            invariant
                i <= bytes@.len(),
                self.wf(),
                self@ == old(self)@ + bytes@.take(i as int),
            decreases bytes@.len() - i,
        {
            let ghost whole = choose|whole: Seq<u8>|
                {
                    &&& #[trigger] blocks(whole) == self.hasher@
                    &&& whole.len() % CHUNK as nat == 0
                    &&& self.content@ == whole + self.pending@
                    &&& self.pending@.len() < CHUNK
                };
            let ghost before = self.pending@;
            let room: usize = CHUNK - self.pending.len();
            let left: usize = bytes.len() - i;
            let n: usize = if room < left {
                room
            } else {
                left
            };
            let part = &bytes[i..i + n];
            assert(part@ == bytes@.subrange(i as int, i + n));
            self.pending.extend_from_slice(part);
            assert(self.pending@ =~= before + part@);
            proof {
                self.content@ = self.content@ + part@;
                assert(bytes@.take(i as int) + part@ =~= bytes@.take(i + n));
            }
            if self.pending.len() == CHUNK {
                let ghost block = self.pending@;
                self.hasher.write(self.pending.as_slice());
                self.pending.clear();
                proof {
                    blocks_after_whole(whole, block);
                    assert(blocks(block) =~= seq![block]);
                    assert(self.hasher@ =~= blocks(whole + block));
                    assert(self.content@ =~= (whole + block) + self.pending@);
                }
            } else {
                assert(self.content@ =~= whole + self.pending@);
            }
            i = i + n;
        }
        assert(bytes@.take(i as int) =~= bytes@);
    }

    /// The hash of what was seen.
    pub fn finish(self) -> (r: u64)
        requires
            self.wf(),
        ensures
            r == content_hash(self@),
    {
        let mut hasher = self.hasher;
        let ghost whole = choose|whole: Seq<u8>|
            {
                &&& #[trigger] blocks(whole) == self.hasher@
                &&& whole.len() % CHUNK as nat == 0
                &&& self.content@ == whole + self.pending@
                &&& self.pending@.len() < CHUNK
            };
        proof {
            blocks_after_whole(whole, self.pending@);
        }
        if self.pending.len() > 0 {
            hasher.write(self.pending.as_slice());
            assert(hasher@ =~= blocks(self.content@));
        } else {
            assert(hasher@ =~= blocks(self.content@));
        }
        hasher.finish()
    }
}

/// The blocks of a content are the whole content, in its order: put together
/// they give it back. None is empty, and all but the last have 128 KiB.
pub proof fn blocks_make_up_the_content(content: Seq<u8>)
    ensures
        blocks(content).flatten() == content,
        forall|i: int| 0 <= i < blocks(content).len() ==> 0 < (#[trigger] blocks(content)[i]).len() <= 131072,
        forall|i: int|
            0 <= i < blocks(content).len() - 1 ==> (#[trigger] blocks(content)[i]).len() == 131072,
    decreases content.len(),
{
    let b = blocks(content);
    if content.len() == 0 {
        assert(b.flatten() =~= content);
    } else if content.len() <= 131072 {
        b.lemma_flatten_one_element();
    } else {
        let rest = content.skip(131072);
        blocks_make_up_the_content(rest);
        assert(b.drop_first() =~= blocks(rest));
        assert(b.flatten() =~= content);
        assert forall|i: int| 0 <= i < b.len() implies 0 < (#[trigger] b[i]).len() <= 131072 by {
            if i > 0 {
                assert(b[i] == blocks(rest)[i - 1]);
            }
        }
        assert forall|i: int| 0 <= i < b.len() - 1 implies (#[trigger] b[i]).len() == 131072 by {
            if i > 0 {
                assert(b[i] == blocks(rest)[i - 1]);
            }
        }
    }
}

/// The hash of a content is what the standard hasher makes of all its bytes:
/// however `parts` came about, where they are the content in blocks of 128 KiB,
/// only the last of them shorter, the hash is that of writing these blocks.
pub proof fn hash_is_of_every_byte(content: Seq<u8>, parts: Seq<Seq<u8>>)
    requires
        parts.flatten() == content,
        forall|i: int| 0 <= i < parts.len() ==> 0 < (#[trigger] parts[i]).len() <= 131072,
        forall|i: int| 0 <= i < parts.len() - 1 ==> (#[trigger] parts[i]).len() == 131072,
    ensures
        blocks(content) == parts,
        content_hash(content) == DefaultHasher::spec_finish(parts),
    decreases parts.len(),
{
    if parts.len() == 0 {
        assert(blocks(content) =~= parts);
    } else {
        let first = parts[0];
        let rest = parts.drop_first();
        assert(content == first + rest.flatten());
        assert forall|i: int| 0 <= i < rest.len() implies 0 < (#[trigger] rest[i]).len()
            <= 131072 by {
            assert(rest[i] == parts[i + 1]);
        }
        assert forall|i: int| 0 <= i < rest.len() - 1 implies (#[trigger] rest[i]).len()
            == 131072 by {
            assert(rest[i] == parts[i + 1]);
        }
        hash_is_of_every_byte(rest.flatten(), rest);
        if parts.len() == 1 {
            assert(rest.flatten() =~= Seq::empty());
            assert(content =~= first);
            assert(blocks(content) =~= parts);
        } else {
            assert(rest.flatten() == rest[0] + rest.drop_first().flatten());
            assert(rest[0].len() > 0);
            assert(content.take(131072) =~= first);
            assert(content.skip(131072) =~= rest.flatten());
            assert(blocks(content) =~= parts);
        }
    }
}

} // verus!
