//! Writing a file of random bytes and hashing a file, block by block. Each is
//! a state that says what has to happen next and takes what came of it.

use std::collections::hash_map::DefaultHasher;
use vstd::prelude::*;
use vstd::std_specs::hash::DefaultHasherAdditionalSpecFns;
use crate::content;
use crate::content::{ContentHasher, CHUNK};

verus! {

/// What the writing of a file waits for.
#[derive(Debug, Clone, Copy, PartialEq, Eq, Structural)]
pub enum WriteStage {
    /// Whether the user wants to stop.
    CheckStop,
    /// The next block on the drive.
    Write,
    /// Nothing: the file is as long as it gets.
    Done,
}

/// What comes of a stage of writing.
pub enum WriteEvent {
    /// Whether the user wants to stop.
    Stop(bool),
    /// These bytes are on the drive.
    Written(Vec<u8>),
}

/// The contents of a `WriteEvent`.
pub enum WriteEventView {
    Stop(bool),
    Written(Seq<u8>),
}

impl View for WriteEvent {
    type V = WriteEventView;

    open spec fn view(&self) -> WriteEventView {
        match self {
            WriteEvent::Stop(b) => WriteEventView::Stop(*b),
            WriteEvent::Written(v) => WriteEventView::Written(v@),
        }
    }
}

/// A file that is being written.
#[verifier::ext_equal]
pub struct WriterView {
    /// How long the file is to get.
    pub size: u64,
    pub stage: WriteStage,
    /// The bytes on the drive.
    pub content: Seq<u8>,
}

/// The bytes of the next block.
pub open spec fn block_len(size: int, wrote: int) -> int {
    if size - wrote < CHUNK {
        size - wrote
    } else {
        CHUNK as int
    }
}

impl WriterView {
    /// A file of which nothing is written.
    pub open spec fn init(size: u64) -> WriterView {
        WriterView {
            size,
            stage: if size > 0 {
                WriteStage::CheckStop
            } else {
                WriteStage::Done
            },
            content: Seq::empty(),
        }
    }

    /// Whether `ev` answers what the file waits for.
    pub open spec fn accepts(self, ev: WriteEventView) -> bool {
        match ev {
            WriteEventView::Stop(_) => self.stage == WriteStage::CheckStop,
            WriteEventView::Written(b) => {
                &&& self.stage == WriteStage::Write
                &&& b.len() == block_len(self.size as int, self.content.len() as int)
            },
        }
    }

    /// The file after `ev`.
    pub open spec fn next(self, ev: WriteEventView) -> WriterView {
        match ev {
            WriteEventView::Stop(stop) => WriterView {
                stage: if stop {
                    WriteStage::Done
                } else {
                    WriteStage::Write
                },
                ..self
            },
            WriteEventView::Written(b) => WriterView {
                stage: if self.content.len() + b.len() < self.size {
                    WriteStage::CheckStop
                } else {
                    WriteStage::Done
                },
                content: self.content + b,
                ..self
            },
        }
    }

    /// The hash of the written bytes, and their number.
    pub open spec fn result(self) -> (u64, nat) {
        (crate::content::content_hash(self.content), self.content.len())
    }

    /// Whether each of `evs` answers what the file waited for when it came.
    pub open spec fn accepts_all(self, evs: Seq<WriteEventView>) -> bool
        decreases evs.len(),
    {
        evs.len() == 0 || {
            &&& self.accepts_all(evs.drop_last())
            &&& self.after(evs.drop_last()).accepts(evs.last())
        }
    }

    /// The file after `evs`.
    pub open spec fn after(self, evs: Seq<WriteEventView>) -> WriterView
        decreases evs.len(),
    {
        if evs.len() == 0 {
            self
        } else {
            self.after(evs.drop_last()).next(evs.last())
        }
    }
}

/// Writes a file of random bytes, a block at a time.
pub struct RandomFileWriter {
    size: u64,
    wrote: u64,
    stage: WriteStage,
    hasher: ContentHasher,
}

impl View for RandomFileWriter {
    type V = WriterView;

    closed spec fn view(&self) -> WriterView {
        WriterView { size: self.size, stage: self.stage, content: self.hasher@ }
    }
}

impl RandomFileWriter {
    /// No more is written than the file is to hold, and there is more to come
    /// unless the file is done.
    pub closed spec fn wf(self) -> bool {
        &&& self.hasher.wf()
        &&& self.wrote == self.hasher@.len()
        &&& self.wrote <= self.size
        &&& self.stage != WriteStage::Done ==> self.wrote < self.size
    }

    /// A file that is to hold `size` bytes.
    pub fn new(size: u64) -> (r: Self)
        ensures
            r.wf(),
            r@ == WriterView::init(size),
    {
        RandomFileWriter {
            size,
            wrote: 0,
            stage: if size > 0 {
                WriteStage::CheckStop
            } else {
                WriteStage::Done
            },
            hasher: ContentHasher::new(),
        }
    }

    /// What the file waits for.
    pub fn stage(&self) -> (r: WriteStage)
        ensures
            r == self@.stage,
    {
        self.stage
    }

    /// How many bytes the next block has: a whole one, or what is left.
    pub fn next_len(&self) -> (r: usize)
        requires
            self.wf(),
        ensures
            r == block_len(self@.size as int, self@.content.len() as int),
    {
        let left: u64 = self.size - self.wrote;
        if left < CHUNK as u64 {
            left as usize
        } else {
            CHUNK
        }
    }

    /// The next block: random bytes, as many as it has to have.
    pub fn next_block(&self) -> (r: Vec<u8>)
        requires
            self.wf(),
        ensures
            r@.len() == block_len(self@.size as int, self@.content.len() as int),
            crate::random::drawn(r@),
    {
        crate::random::random_block(self.next_len())
    }

    /// Takes what came of the stage.
    pub fn step(&mut self, ev: WriteEvent)
        requires
            old(self).wf(),
            old(self)@.accepts(ev@),
        ensures
            final(self).wf(),
            final(self)@ == old(self)@.next(ev@),
    {
        match ev {
            WriteEvent::Stop(stop) => {
                self.stage = if stop {
                    WriteStage::Done
                } else {
                    WriteStage::Write
                };
            },
            WriteEvent::Written(bytes) => {
                self.wrote = self.wrote + bytes.len() as u64;
                self.hasher.absorb(bytes.as_slice());
                self.stage = if self.wrote < self.size {
                    WriteStage::CheckStop
                } else {
                    WriteStage::Done
                };
            },
        }
    }

    /// The hash of the written bytes, and their number.
    pub fn finish(self) -> (r: (u64, u64))
        requires
            self.wf(),
            self@.stage == WriteStage::Done,
        ensures
            self@.result() == (r.0, r.1 as nat),
    {
        let wrote: u64 = self.wrote;
        (self.hasher.finish(), wrote)
    }
}

/// What the hashing of a file waits for.
#[derive(Debug, Clone, Copy, PartialEq, Eq, Structural)]
pub enum HashStage {
    /// Whether the user wants to stop.
    CheckStop,
    /// The next bytes of the file.
    Read,
    /// Nothing: the user stopped it.
    Stopped,
    /// Nothing: the file is at its end.
    Done,
}

/// What comes of a stage of hashing.
pub enum HashEvent {
    /// Whether the user wants to stop.
    Stop(bool),
    /// The bytes that a read returned; none at the end of the file.
    Data(Vec<u8>),
}

/// The contents of a `HashEvent`.
pub enum HashEventView {
    Stop(bool),
    Data(Seq<u8>),
}

impl View for HashEvent {
    type V = HashEventView;

    open spec fn view(&self) -> HashEventView {
        match self {
            HashEvent::Stop(b) => HashEventView::Stop(*b),
            HashEvent::Data(v) => HashEventView::Data(v@),
        }
    }
}

/// A file that is being hashed.
#[verifier::ext_equal]
pub struct HasherView {
    pub stage: HashStage,
    /// The bytes read so far.
    pub content: Seq<u8>,
}

impl HasherView {
    /// A file of which nothing is read.
    pub open spec fn init() -> HasherView {
        HasherView { stage: HashStage::CheckStop, content: Seq::empty() }
    }

    /// Whether `ev` answers what the file waits for, and the number of its
    /// bytes can still be counted.
    pub open spec fn accepts(self, ev: HashEventView) -> bool {
        match ev {
            HashEventView::Stop(_) => self.stage == HashStage::CheckStop,
            HashEventView::Data(b) => {
                &&& self.stage == HashStage::Read
                &&& self.content.len() + b.len() <= u64::MAX
            },
        }
    }

    /// The file after `ev`.
    pub open spec fn next(self, ev: HashEventView) -> HasherView {
        match ev {
            HashEventView::Stop(stop) => HasherView {
                stage: if stop {
                    HashStage::Stopped
                } else {
                    HashStage::Read
                },
                ..self
            },
            HashEventView::Data(b) => HasherView {
                stage: if b.len() == 0 {
                    HashStage::Done
                } else {
                    HashStage::CheckStop
                },
                content: self.content + b,
            },
        }
    }

    /// The hash of the read bytes and their number, unless the user stopped.
    pub open spec fn result(self) -> Option<(u64, nat)> {
        if self.stage == HashStage::Stopped {
            None
        } else {
            Some((crate::content::content_hash(self.content), self.content.len()))
        }
    }

    /// Whether each of `evs` answers what the file waited for when it came.
    pub open spec fn accepts_all(self, evs: Seq<HashEventView>) -> bool
        decreases evs.len(),
    {
        evs.len() == 0 || {
            &&& self.accepts_all(evs.drop_last())
            &&& self.after(evs.drop_last()).accepts(evs.last())
        }
    }

    /// The file after `evs`.
    pub open spec fn after(self, evs: Seq<HashEventView>) -> HasherView
        decreases evs.len(),
    {
        if evs.len() == 0 {
            self
        } else {
            self.after(evs.drop_last()).next(evs.last())
        }
    }
}

/// Hashes a file, as many bytes at a time as a read returns.
pub struct FileHasher {
    total: u64,
    stage: HashStage,
    hasher: ContentHasher,
}

impl View for FileHasher {
    type V = HasherView;

    closed spec fn view(&self) -> HasherView {
        HasherView { stage: self.stage, content: self.hasher@ }
    }
}

impl FileHasher {
    /// The read bytes are counted.
    pub closed spec fn wf(self) -> bool {
        &&& self.hasher.wf()
        &&& self.total == self.hasher@.len()
    }

    /// A file of which nothing is read.
    pub fn new() -> (r: Self)
        ensures
            r.wf(),
            r@ == HasherView::init(),
    {
        FileHasher { total: 0, stage: HashStage::CheckStop, hasher: ContentHasher::new() }
    }

    /// What the file waits for.
    pub fn stage(&self) -> (r: HashStage)
        ensures
            r == self@.stage,
    {
        self.stage
    }

    /// Whether `ev` answers what the file waits for, and the number of its
    /// bytes can still be counted.
    pub fn accepts(&self, ev: &HashEvent) -> (r: bool)
        requires
            self.wf(),
        ensures
            r == self@.accepts(ev@),
    {
        match ev {
            HashEvent::Stop(_) => self.stage == HashStage::CheckStop,
            HashEvent::Data(b) => {
                self.stage == HashStage::Read && b.len() as u64 <= u64::MAX - self.total
            },
        }
    }

    /// Takes what came of the stage.
    pub fn step(&mut self, ev: HashEvent)
        requires
            old(self).wf(),
            old(self)@.accepts(ev@),
        ensures
            final(self).wf(),
            final(self)@ == old(self)@.next(ev@),
    {
        match ev {
            HashEvent::Stop(stop) => {
                self.stage = if stop {
                    HashStage::Stopped
                } else {
                    HashStage::Read
                };
            },
            HashEvent::Data(bytes) => {
                self.total = self.total + bytes.len() as u64;
                self.hasher.absorb(bytes.as_slice());
                self.stage = if bytes.len() == 0 {
                    HashStage::Done
                } else {
                    HashStage::CheckStop
                };
            },
        }
    }

    /// The hash of the read bytes and their number, unless the user stopped.
    pub fn finish(self) -> (r: Option<(u64, u64)>)
        requires
            self.wf(),
            self@.stage == HashStage::Stopped || self@.stage == HashStage::Done,
        ensures
            self@.result() == (match r {
                Some((hash, total)) => Some((hash, total as nat)),
                None => None,
            }),
    {
        if self.stage == HashStage::Stopped {
            None
        } else {
            let total: u64 = self.total;
            Some((self.hasher.finish(), total))
        }
    }
}

/// The bytes that `evs` put on the drive.
pub open spec fn written(evs: Seq<WriteEventView>) -> Seq<u8>
    decreases evs.len(),
{
    if evs.len() == 0 {
        Seq::empty()
    } else {
        written(evs.drop_last()) + match evs.last() {
            WriteEventView::Stop(_) => Seq::empty(),
            WriteEventView::Written(b) => b,
        }
    }
}

/// The number of blocks that `evs` put on the drive.
pub open spec fn written_blocks(evs: Seq<WriteEventView>) -> nat
    decreases evs.len(),
{
    if evs.len() == 0 {
        0
    } else {
        written_blocks(evs.drop_last()) + match evs.last() {
            WriteEventView::Stop(_) => 0nat,
            WriteEventView::Written(_) => 1nat,
        }
    }
}

/// The bytes that `evs` read.
pub open spec fn data(evs: Seq<HashEventView>) -> Seq<u8>
    decreases evs.len(),
{
    if evs.len() == 0 {
        Seq::empty()
    } else {
        data(evs.drop_last()) + match evs.last() {
            HashEventView::Stop(_) => Seq::empty(),
            HashEventView::Data(b) => b,
        }
    }
}

/// A file never grows past its size, holds exactly the blocks that were
/// written, and is whole, or as far as whole blocks go, after each of them.
pub proof fn writer_holds_whole_blocks(size: u64, evs: Seq<WriteEventView>)
    requires
        WriterView::init(size).accepts_all(evs),
    ensures
        ({
            let s = WriterView::init(size).after(evs);
            &&& s.size == size
            &&& s.content == written(evs)
            &&& s.content.len() == if written_blocks(evs) * CHUNK <= size {
                written_blocks(evs) * CHUNK
            } else {
                size as int
            }
            &&& s.stage != WriteStage::Done ==> s.content.len() < size
        }),
    decreases evs.len(),
{
    let init = WriterView::init(size);
    if evs.len() == 0 {
        assert(init.content =~= written(evs));
    } else {
        let before = evs.drop_last();
        writer_holds_whole_blocks(size, before);
        assert(init.after(evs) == init.after(before).next(evs.last()));
        match evs.last() {
            WriteEventView::Stop(_) => {
                assert(written(before) + Seq::empty() =~= written(before));
            },
            WriteEventView::Written(b) => {
                let n = written_blocks(before) as int;
                assert(written_blocks(evs) == n + 1);
                assert((n + 1) * CHUNK == n * CHUNK + CHUNK) by (nonlinear_arith);
            },
        }
    }
}

/// A file that is done holds all its bytes, unless the last answer was to
/// stop.
pub proof fn writer_done_is_full_or_stopped(size: u64, evs: Seq<WriteEventView>)
    requires
        WriterView::init(size).accepts_all(evs),
        WriterView::init(size).after(evs).stage == WriteStage::Done,
    ensures
        ({
            ||| written(evs).len() == size
            ||| evs.len() > 0 && evs.last() == WriteEventView::Stop(true)
        }),
{
    writer_holds_whole_blocks(size, evs);
    if evs.len() > 0 {
        let before = evs.drop_last();
        writer_holds_whole_blocks(size, before);
        match evs.last() {
            WriteEventView::Stop(_) => {},
            WriteEventView::Written(b) => {},
        }
    }
}

/// A file that is being hashed has seen exactly the bytes that were read. It
/// is given up if and only if an answer was to stop.
pub proof fn hasher_sees_what_was_read(evs: Seq<HashEventView>)
    requires
        HasherView::init().accepts_all(evs),
    ensures
        ({
            let s = HasherView::init().after(evs);
            &&& s.content == data(evs)
            &&& s.stage == HashStage::Stopped <==> evs.contains(HashEventView::Stop(true))
            &&& s.result() is None <==> evs.contains(HashEventView::Stop(true))
        }),
    decreases evs.len(),
{
    let init = HasherView::init();
    if evs.len() == 0 {
        assert(init.content =~= data(evs));
    } else {
        let before = evs.drop_last();
        hasher_sees_what_was_read(before);
        assert(evs =~= before.push(evs.last()));
        let stop = HashEventView::Stop(true);
        if before.contains(stop) {
            assert(init.after(before).stage == HashStage::Stopped);
            assert(false);
        }
        if evs.contains(stop) {
            let i = choose|i: int| 0 <= i < evs.len() && evs[i] == stop;
            if i < evs.len() - 1 {
                assert(before[i] == stop);
            }
        }
        match evs.last() {
            HashEventView::Stop(b) => {
                assert(data(before) + Seq::empty() =~= data(before));
                if b {
                    assert(evs[evs.len() - 1] == stop);
                }
            },
            HashEventView::Data(b) => {},
        }
    }
}

/// A file that reads back as it was written gives the hash and the number of
/// bytes that writing it gave, however far the writing came and whatever
/// pieces the reads returned. So where the results differ, the drive did not
/// return what was written to it.
pub proof fn read_back_matches(
    size: u64,
    writes: Seq<WriteEventView>,
    reads: Seq<HashEventView>,
)
    requires
        WriterView::init(size).accepts_all(writes),
        HasherView::init().accepts_all(reads),
        HasherView::init().after(reads).stage == HashStage::Done,
    ensures
        data(reads) == written(writes) ==> HasherView::init().after(reads).result() == Some(
            WriterView::init(size).after(writes).result(),
        ),
        HasherView::init().after(reads).result() != Some(
            WriterView::init(size).after(writes).result(),
        ) ==> data(reads) != written(writes),
{
    writer_holds_whole_blocks(size, writes);
    hasher_sees_what_was_read(reads);
}

/// An event shows what it holds.
pub proof fn transfer_events_show_what_they_hold(stop: bool, bytes: Vec<u8>)
    ensures
        WriteEvent::Stop(stop)@ == WriteEventView::Stop(stop),
        WriteEvent::Written(bytes)@ == WriteEventView::Written(bytes@),
        HashEvent::Stop(stop)@ == HashEventView::Stop(stop),
        HashEvent::Data(bytes)@ == HashEventView::Data(bytes@),
{
}

/// A block has 128 KiB, or what is left of the file where that is less.
pub proof fn blocks_fill_the_file(size: int, wrote: int)
    requires
        0 <= wrote <= size,
    ensures
        wrote + block_len(size, wrote) <= size,
        block_len(size, wrote) <= 128 * 1024,
        block_len(size, wrote) == 128 * 1024 || wrote + block_len(size, wrote) == size,
{
}

/// What writing a file returns is the hash of every byte that was written, and
/// their number: where `parts` are these bytes in blocks of 128 KiB, only the
/// last of them shorter, the hash is what the standard hasher makes of `parts`.
pub proof fn writing_hashes_every_byte(
    size: u64,
    evs: Seq<WriteEventView>,
    parts: Seq<Seq<u8>>,
)
    requires
        WriterView::init(size).accepts_all(evs),
        parts.flatten() == written(evs),
        forall|i: int| 0 <= i < parts.len() ==> 0 < (#[trigger] parts[i]).len() <= 131072,
        forall|i: int| 0 <= i < parts.len() - 1 ==> (#[trigger] parts[i]).len() == 131072,
    ensures
        WriterView::init(size).after(evs).result().0 == DefaultHasher::spec_finish(parts),
        WriterView::init(size).after(evs).result().1 == written(evs).len(),
{
    writer_holds_whole_blocks(size, evs);
    content::hash_is_of_every_byte(written(evs), parts);
}

/// What reading a file to its end returns is the hash of every byte that was
/// read, and their number: where `parts` are these bytes in blocks of 128 KiB,
/// only the last of them shorter, the hash is what the standard hasher makes of
/// `parts`, whatever pieces the reads returned.
pub proof fn reading_hashes_every_byte(evs: Seq<HashEventView>, parts: Seq<Seq<u8>>)
    requires
        HasherView::init().accepts_all(evs),
        HasherView::init().after(evs).stage == HashStage::Done,
        parts.flatten() == data(evs),
        forall|i: int| 0 <= i < parts.len() ==> 0 < (#[trigger] parts[i]).len() <= 131072,
        forall|i: int| 0 <= i < parts.len() - 1 ==> (#[trigger] parts[i]).len() == 131072,
    ensures
        HasherView::init().after(evs).result() == Some(
            (DefaultHasher::spec_finish(parts), data(evs).len()),
        ),
{
    hasher_sees_what_was_read(evs);
    content::hash_is_of_every_byte(data(evs), parts);
}

/// The writing of a file goes on in turn: the user is asked before each block,
/// a block comes after each answer to go on, and the file is done as soon as it
/// has all its bytes or the user stops. A block is taken where its turn is and
/// it has the bytes that it has to have.
pub proof fn writer_asks_before_each_block(size: u64, evs: Seq<WriteEventView>)
    requires
        WriterView::init(size).accepts_all(evs),
    ensures
        ({
            let s = WriterView::init(size).after(evs);
            let left = size - written(evs).len();
            let last = evs.last();
            &&& s.stage == WriteStage::Done <==> left == 0 || evs.len() > 0 && last
                == WriteEventView::Stop(true)
            &&& s.stage == WriteStage::Write <==> evs.len() > 0 && last == WriteEventView::Stop(
                false,
            )
            &&& s.stage == WriteStage::CheckStop <==> left > 0 && (evs.len() == 0 || last is Written)
            &&& forall|b: bool| #[trigger]
                s.accepts(WriteEventView::Stop(b)) <==> s.stage == WriteStage::CheckStop
            &&& forall|b: Seq<u8>| #[trigger]
                s.accepts(WriteEventView::Written(b)) <==> s.stage == WriteStage::Write && b.len()
                    == if left < 131072 {
                    left
                } else {
                    131072
                }
        }),
{
    writer_holds_whole_blocks(size, evs);
    if evs.len() > 0 {
        let before = evs.drop_last();
        writer_holds_whole_blocks(size, before);
        assert(WriterView::init(size).after(before).accepts(evs.last()));
    }
}

/// The hashing of a file goes on in turn: the user is asked before each read, a
/// read comes after each answer to go on, it is given up as soon as the user
/// stops, and it is done as soon as a read returns nothing.
pub proof fn hasher_asks_before_each_read(evs: Seq<HashEventView>)
    requires
        HasherView::init().accepts_all(evs),
    ensures
        ({
            let s = HasherView::init().after(evs);
            let last = evs.last();
            &&& s.stage == HashStage::Stopped <==> evs.len() > 0 && last == HashEventView::Stop(
                true,
            )
            &&& s.stage == HashStage::Read <==> evs.len() > 0 && last == HashEventView::Stop(false)
            &&& s.stage == HashStage::Done <==> evs.len() > 0 && (last matches HashEventView::Data(
                b,
            ) && b.len() == 0)
            &&& s.stage == HashStage::CheckStop <==> evs.len() == 0 || (last
                matches HashEventView::Data(b) && b.len() > 0)
            &&& forall|b: bool| #[trigger]
                s.accepts(HashEventView::Stop(b)) <==> s.stage == HashStage::CheckStop
            &&& forall|b: Seq<u8>| #[trigger]
                s.accepts(HashEventView::Data(b)) <==> s.stage == HashStage::Read && data(
                    evs,
                ).len() + b.len() <= u64::MAX
        }),
{
    hasher_sees_what_was_read(evs);
    if evs.len() > 0 {
        assert(HasherView::init().after(evs.drop_last()).accepts(evs.last()));
    }
}

} // verus!
