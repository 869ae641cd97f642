//! The benchmark of a drive: a file is written and read in sequence, then at
//! random positions, and each of the four passes is timed.
//!
//! A `Benchmark` says what it waits for and takes what came of it. The program
//! around it works on the file, times the passes and sends the reports.

use vstd::prelude::*;
use crate::content::CHUNK;
use crate::random::random_position;
use crate::report;
use crate::report::{
    emit, lit, log1, pieces5, progress1, Pass, Piece, PieceView, Report, ReportView,
};

verus! {

/// The bytes that the sequential passes write and read.
pub const SEQ_BYTES: usize = 104857600;

/// The bytes of a block of the random passes.
pub const BLOCK: usize = 4096;

/// The blocks that the random passes write and read.
pub const COUNT: usize = 20000;

/// The bytes that the random passes write and read.
pub const RAND_BYTES: usize = COUNT * BLOCK;

/// Progress is reported after every so many chunks of a sequential pass.
pub const SEQ_TICK: usize = 64;

/// Progress is reported at every so many blocks of a random pass.
pub const RAND_TICK: usize = 500;

/// What a benchmark waits for.
#[derive(Debug, Clone, Copy, PartialEq, Eq, Structural)]
pub enum BenchStage {
    /// Whether the file is there already.
    Exists,
    /// The file, opened for the pass; the pass is timed from here on.
    Open(Pass),
    /// Whether the user wants to stop the pass.
    CheckStop(Pass),
    /// The next bytes of the pass.
    Move(Pass),
    /// The file, removed.
    Remove,
    /// Nothing: the benchmark is over.
    Done,
}

/// What has to happen next.
#[derive(Debug, Clone, Copy, PartialEq, Eq, Structural)]
pub enum BenchRequest {
    FileExists,
    Open(Pass),
    CheckStop,
    /// Write so many random bytes where the last write ended.
    WriteNext(usize),
    /// Read at most so many bytes where the last read ended.
    ReadNext(usize),
    /// Write a block of random bytes at a random position.
    WriteAt,
    /// Read a block at a random position.
    ReadAt,
    Remove,
    Nothing,
}

/// What came of it.
#[derive(Debug, Clone, Copy, PartialEq, Eq, Structural)]
pub enum BenchEvent {
    Exists(bool),
    Opened,
    Stop(bool),
    /// So many bytes were written or read.
    Moved(usize),
    Removed,
}

/// A benchmark of a drive.
#[verifier::ext_equal]
pub struct BenchView {
    pub stage: BenchStage,
    /// How far the pass has come: in bytes where it is sequential, in blocks
    /// where it is random.
    pub done: nat,
    /// The chunks that a sequential pass has moved.
    pub chunks: nat,
}

/// How far a pass goes: in bytes or in blocks.
pub open spec fn goal(pass: Pass) -> nat {
    if sequential(pass) {
        SEQ_BYTES as nat
    } else {
        COUNT as nat
    }
}

/// Whether a pass goes through the file in sequence.
pub open spec fn sequential(pass: Pass) -> bool {
    pass == Pass::SeqWrite || pass == Pass::SeqRead
}

/// What a pass is called.
pub open spec fn label(pass: Pass) -> Seq<char> {
    match pass {
        Pass::SeqWrite => "连续写入"@,
        Pass::SeqRead => "连续读取"@,
        Pass::RandWrite => "4K随机写入"@,
        Pass::RandRead => "4K随机读取"@,
    }
}

/// The log line that a benchmark begins, sent before anything is asked of the
/// drive.
pub open spec fn opening_line() -> ReportView {
    report::say("==== 简易测速开始 ===="@)
}

/// The report that `pass` has come to `cur`.
pub open spec fn progress(pass: Pass, cur: nat) -> ReportView {
    ReportView::Progress {
        phase: seq![PieceView::Text(label(pass))],
        cur: cur as u64,
        total: goal(pass) as u64,
    }
}

/// The log line with the rates of two passes that moved `bytes` bytes each.
pub open spec fn rates(
    first: Seq<char>,
    write: Pass,
    second: Seq<char>,
    read: Pass,
    bytes: u64,
    decimals: u8,
) -> ReportView {
    ReportView::Log(
        seq![
            PieceView::Text(first),
            PieceView::Rate { bytes, pass: write, decimals },
            PieceView::Text(second),
            PieceView::Rate { bytes, pass: read, decimals },
            PieceView::Text(" MB/s"@),
        ],
    )
}

/// What is reported once `pass` is over: that it is complete, the rates after
/// each pair of passes, and that the next pass begins.
pub open spec fn pass_over(pass: Pass) -> Seq<ReportView> {
    seq![progress(pass, goal(pass))] + match pass {
        Pass::SeqWrite => seq![progress(Pass::SeqRead, 0)],
        Pass::SeqRead => seq![
            rates(
                "连续写入: "@,
                Pass::SeqWrite,
                " MB/s | 连续读取: "@,
                Pass::SeqRead,
                SEQ_BYTES as u64,
                2,
            ),
            progress(Pass::RandWrite, 0),
        ],
        Pass::RandWrite => seq![progress(Pass::RandRead, 0)],
        Pass::RandRead => seq![
            rates(
                "4K随机写入: "@,
                Pass::RandWrite,
                " MB/s | 4K随机读取: "@,
                Pass::RandRead,
                RAND_BYTES as u64,
                3,
            ),
        ],
    }
}

/// What comes after `pass`.
pub open spec fn following(pass: Pass) -> BenchStage {
    match pass {
        Pass::SeqWrite => BenchStage::Open(Pass::SeqRead),
        Pass::SeqRead => BenchStage::Open(Pass::RandWrite),
        Pass::RandWrite => BenchStage::Open(Pass::RandRead),
        Pass::RandRead => BenchStage::Remove,
    }
}

/// The bytes of the next sequential write after `done` bytes.
pub open spec fn write_len(done: nat) -> int {
    if SEQ_BYTES - done < CHUNK {
        SEQ_BYTES - done
    } else {
        CHUNK as int
    }
}

impl BenchView {
    /// A benchmark that has not begun.
    pub open spec fn init() -> BenchView {
        BenchView { stage: BenchStage::Exists, done: 0, chunks: 0 }
    }

    /// The benchmark once `pass` is over.
    pub open spec fn end_pass(pass: Pass) -> BenchView {
        BenchView { stage: following(pass), done: 0, chunks: 0 }
    }

    /// A pass that is under way has not come to its end.
    pub open spec fn wf(self) -> bool {
        match self.stage {
            BenchStage::CheckStop(pass) => {
                &&& pass != Pass::SeqRead
                &&& self.done < goal(pass)
                &&& self.chunks <= self.done
            },
            BenchStage::Move(pass) => self.done < goal(pass) && self.chunks <= self.done,
            _ => self.done == 0 && self.chunks == 0,
        }
    }

    /// Whether `ev` answers what the benchmark waits for. A sequential read
    /// stays within the bytes that are left.
    pub open spec fn accepts(self, ev: BenchEvent) -> bool {
        match ev {
            BenchEvent::Exists(_) => self.stage == BenchStage::Exists,
            BenchEvent::Opened => self.stage is Open,
            BenchEvent::Stop(_) => self.stage is CheckStop,
            BenchEvent::Moved(n) => match self.stage {
                BenchStage::Move(Pass::SeqWrite) => n == write_len(self.done),
                BenchStage::Move(Pass::SeqRead) => n <= SEQ_BYTES - self.done,
                BenchStage::Move(_) => n == BLOCK,
                _ => false,
            },
            BenchEvent::Removed => self.stage == BenchStage::Remove,
        }
    }

    /// How far `pass` comes when `n` bytes are moved.
    pub open spec fn moved(self, pass: Pass, n: usize) -> nat {
        if sequential(pass) {
            self.done + n as nat
        } else {
            self.done + 1
        }
    }

    /// The benchmark after `ev`.
    pub open spec fn next(self, ev: BenchEvent) -> BenchView {
        match (self.stage, ev) {
            (BenchStage::Exists, _) => BenchView {
                stage: BenchStage::Open(Pass::SeqWrite),
                ..self
            },
            (BenchStage::Open(pass), _) => BenchView {
                stage: if pass == Pass::SeqRead {
                    BenchStage::Move(pass)
                } else {
                    BenchStage::CheckStop(pass)
                },
                ..self
            },
            (BenchStage::CheckStop(pass), BenchEvent::Stop(stop)) => if stop {
                BenchView::end_pass(pass)
            } else {
                BenchView { stage: BenchStage::Move(pass), ..self }
            },
            (BenchStage::Move(pass), BenchEvent::Moved(n)) => if n == 0 || self.moved(pass, n)
                >= goal(pass) {
                BenchView::end_pass(pass)
            } else {
                BenchView {
                    stage: if pass == Pass::SeqRead {
                        BenchStage::Move(pass)
                    } else {
                        BenchStage::CheckStop(pass)
                    },
                    done: self.moved(pass, n),
                    chunks: if sequential(pass) {
                        self.chunks + 1
                    } else {
                        0
                    },
                }
            },
            _ => BenchView { stage: BenchStage::Done, ..self },
        }
    }

    /// The progress that is reported now and then: of a sequential pass what is
    /// moved after every 64 chunks, of a random pass the number of the block
    /// at every 500 blocks.
    pub open spec fn tick(self, pass: Pass, n: usize) -> Seq<ReportView> {
        if sequential(pass) {
            if n > 0 && (self.chunks + 1) % SEQ_TICK as nat == 0 {
                seq![progress(pass, self.moved(pass, n))]
            } else {
                Seq::empty()
            }
        } else if self.done % RAND_TICK as nat == 0 {
            seq![progress(pass, self.done)]
        } else {
            Seq::empty()
        }
    }

    /// What is reported on `ev`.
    pub open spec fn reports(self, ev: BenchEvent) -> Seq<ReportView> {
        match (self.stage, ev) {
            (BenchStage::Exists, BenchEvent::Exists(exists)) => (if exists {
                seq![report::say("⚠ bench_test.tmp 已存在，将被覆盖"@)]
            } else {
                Seq::empty()
            }) + seq![progress(Pass::SeqWrite, 0)],
            (BenchStage::CheckStop(pass), BenchEvent::Stop(true)) => pass_over(pass),
            (BenchStage::Move(pass), BenchEvent::Moved(n)) => self.tick(pass, n) + if n == 0
                || self.moved(pass, n) >= goal(pass) {
                pass_over(pass)
            } else {
                Seq::empty()
            },
            (BenchStage::Remove, _) => seq![report::say("==== 测速完成 ===="@), ReportView::Finished],
            _ => Seq::empty(),
        }
    }

    /// What has to happen next.
    pub open spec fn request(self) -> BenchRequest {
        match self.stage {
            BenchStage::Exists => BenchRequest::FileExists,
            BenchStage::Open(pass) => BenchRequest::Open(pass),
            BenchStage::CheckStop(_) => BenchRequest::CheckStop,
            BenchStage::Move(Pass::SeqWrite) => BenchRequest::WriteNext(
                write_len(self.done) as usize,
            ),
            BenchStage::Move(Pass::SeqRead) => BenchRequest::ReadNext(CHUNK),
            BenchStage::Move(Pass::RandWrite) => BenchRequest::WriteAt,
            BenchStage::Move(Pass::RandRead) => BenchRequest::ReadAt,
            BenchStage::Remove => BenchRequest::Remove,
            BenchStage::Done => BenchRequest::Nothing,
        }
    }
}

/// A random position at which a block lies within the bytes of the sequential
/// passes.
pub fn block_position() -> (r: usize)
    ensures
        r + BLOCK < SEQ_BYTES,
        r < 104853504,
        crate::random::drawn_below(104853504, r),
{
    random_position(SEQ_BYTES, BLOCK)
}

/// The report that a benchmark begins, sent before anything is asked of the
/// drive.
pub fn opening() -> (r: Report)
    ensures
        r@ == opening_line(),
{
    log1(lit("==== 简易测速开始 ===="))
}

fn pass_label(pass: Pass) -> (r: &'static str)
    ensures
        r@ == label(pass),
{
    match pass {
        Pass::SeqWrite => "连续写入",
        Pass::SeqRead => "连续读取",
        Pass::RandWrite => "4K随机写入",
        Pass::RandRead => "4K随机读取",
    }
}

fn is_sequential(pass: Pass) -> (r: bool)
    ensures
        r == sequential(pass),
{
    match pass {
        Pass::SeqWrite => true,
        Pass::SeqRead => true,
        _ => false,
    }
}

fn pass_goal(pass: Pass) -> (r: usize)
    ensures
        r == goal(pass),
{
    if is_sequential(pass) {
        SEQ_BYTES
    } else {
        COUNT
    }
}

fn progress_report(pass: Pass, cur: usize) -> (r: Report)
    ensures
        r@ == progress(pass, cur as nat),
{
    progress1(lit(pass_label(pass)), cur as u64, pass_goal(pass) as u64)
}

/// A benchmark of a drive.
pub struct Benchmark {
    stage: BenchStage,
    done: usize,
    chunks: usize,
}

impl View for Benchmark {
    type V = BenchView;

    closed spec fn view(&self) -> BenchView {
        BenchView { stage: self.stage, done: self.done as nat, chunks: self.chunks as nat }
    }
}

impl Benchmark {
    /// A pass that is under way has not come to its end.
    pub open spec fn wf(self) -> bool {
        self@.wf()
    }

    /// A benchmark that has not begun.
    pub fn new() -> (r: Self)
        ensures
            r.wf(),
            r@ == BenchView::init(),
    {
        Benchmark { stage: BenchStage::Exists, done: 0, chunks: 0 }
    }

    /// What has to happen next.
    pub fn request(&self) -> (r: BenchRequest)
        requires
            self.wf(),
        ensures
            r == self@.request(),
    {
        match self.stage {
            BenchStage::Exists => BenchRequest::FileExists,
            BenchStage::Open(pass) => BenchRequest::Open(pass),
            BenchStage::CheckStop(_) => BenchRequest::CheckStop,
            BenchStage::Move(Pass::SeqWrite) => {
                let left: usize = SEQ_BYTES - self.done;
                BenchRequest::WriteNext(
                    if left < CHUNK {
                        left
                    } else {
                        CHUNK
                    },
                )
            },
            BenchStage::Move(Pass::SeqRead) => BenchRequest::ReadNext(CHUNK),
            BenchStage::Move(Pass::RandWrite) => BenchRequest::WriteAt,
            BenchStage::Move(Pass::RandRead) => BenchRequest::ReadAt,
            BenchStage::Remove => BenchRequest::Remove,
            BenchStage::Done => BenchRequest::Nothing,
        }
    }

    /// Whether `ev` answers what the benchmark waits for.
    pub fn accepts(&self, ev: BenchEvent) -> (r: bool)
        requires
            self.wf(),
        ensures
            r == self@.accepts(ev),
    {
        match ev {
            BenchEvent::Exists(_) => matches!(self.stage, BenchStage::Exists),
            BenchEvent::Opened => matches!(self.stage, BenchStage::Open(_)),
            BenchEvent::Stop(_) => matches!(self.stage, BenchStage::CheckStop(_)),
            BenchEvent::Moved(n) => match self.stage {
                BenchStage::Move(Pass::SeqWrite) => {
                    let left: usize = SEQ_BYTES - self.done;
                    n == if left < CHUNK {
                        left
                    } else {
                        CHUNK
                    }
                },
                BenchStage::Move(Pass::SeqRead) => n <= SEQ_BYTES - self.done,
                BenchStage::Move(_) => n == BLOCK,
                _ => false,
            },
            BenchEvent::Removed => matches!(self.stage, BenchStage::Remove),
        }
    }

    /// Goes on from `pass` to what follows it.
    fn end(&mut self, pass: Pass, out: &mut Vec<Report>)
        ensures
            final(self).wf(),
            final(self)@ == BenchView::end_pass(pass),
            report::report_views(final(out)@) == report::report_views(old(out)@) + pass_over(pass),
    {
        let ghost before = report::report_views(out@);
        self.done = 0;
        self.chunks = 0;
        emit(out, progress_report(pass, pass_goal(pass)));
        match pass {
            Pass::SeqWrite => {
                emit(out, progress_report(Pass::SeqRead, 0));
                self.stage = BenchStage::Open(Pass::SeqRead);
            },
            Pass::SeqRead => {
                let line = pieces5(
                    lit("连续写入: "),
                    Piece::Rate { bytes: SEQ_BYTES as u64, pass: Pass::SeqWrite, decimals: 2 },
                    lit(" MB/s | 连续读取: "),
                    Piece::Rate { bytes: SEQ_BYTES as u64, pass: Pass::SeqRead, decimals: 2 },
                    lit(" MB/s"),
                );
                emit(out, Report::Log(line));
                emit(out, progress_report(Pass::RandWrite, 0));
                self.stage = BenchStage::Open(Pass::RandWrite);
            },
            Pass::RandWrite => {
                emit(out, progress_report(Pass::RandRead, 0));
                self.stage = BenchStage::Open(Pass::RandRead);
            },
            Pass::RandRead => {
                let line = pieces5(
                    lit("4K随机写入: "),
                    Piece::Rate { bytes: RAND_BYTES as u64, pass: Pass::RandWrite, decimals: 3 },
                    lit(" MB/s | 4K随机读取: "),
                    Piece::Rate { bytes: RAND_BYTES as u64, pass: Pass::RandRead, decimals: 3 },
                    lit(" MB/s"),
                );
                emit(out, Report::Log(line));
                self.stage = BenchStage::Remove;
            },
        }
        assert(report::report_views(out@) =~= before + pass_over(pass));
    }

    /// Takes what came of the request, and says what is to be reported.
    pub fn step(&mut self, ev: BenchEvent) -> (out: Vec<Report>)
        requires
            old(self).wf(),
            old(self)@.accepts(ev),
        ensures
            final(self).wf(),
            final(self)@ == old(self)@.next(ev),
            report::report_views(out@) == old(self)@.reports(ev),
    {
        let mut out: Vec<Report> = Vec::new();
        assert(report::report_views(out@) =~= Seq::empty());
        let ghost s = self@;
        match ev {
            BenchEvent::Exists(exists) => {
                if exists {
                    emit(&mut out, log1(lit("⚠ bench_test.tmp 已存在，将被覆盖")));
                }
                emit(&mut out, progress_report(Pass::SeqWrite, 0));
                self.stage = BenchStage::Open(Pass::SeqWrite);
            },
            BenchEvent::Opened => {
                if let BenchStage::Open(pass) = self.stage {
                    self.stage = match pass {
                        Pass::SeqRead => BenchStage::Move(pass),
                        _ => BenchStage::CheckStop(pass),
                    };
                }
            },
            BenchEvent::Stop(stop) => {
                if let BenchStage::CheckStop(pass) = self.stage {
                    if stop {
                        self.end(pass, &mut out);
                    } else {
                        self.stage = BenchStage::Move(pass);
                    }
                }
            },
            BenchEvent::Moved(n) => {
                if let BenchStage::Move(pass) = self.stage {
                    if is_sequential(pass) {
                        if n > 0 {
                            self.done = self.done + n;
                            self.chunks = self.chunks + 1;
                            if self.chunks % SEQ_TICK == 0 {
                                emit(&mut out, progress_report(pass, self.done));
                            }
                        }
                    } else {
                        if self.done % RAND_TICK == 0 {
                            emit(&mut out, progress_report(pass, self.done));
                        }
                        self.done = self.done + 1;
                        self.chunks = 0;
                    }
                    assert(report::report_views(out@) =~= s.tick(pass, n));
                    if n == 0 || self.done >= pass_goal(pass) {
                        self.end(pass, &mut out);
                    } else {
                        self.stage = match pass {
                            Pass::SeqRead => BenchStage::Move(pass),
                            _ => BenchStage::CheckStop(pass),
                        };
                    }
                }
            },
            BenchEvent::Removed => {
                emit(&mut out, log1(lit("==== 测速完成 ====")));
                emit(&mut out, Report::Finished);
                self.stage = BenchStage::Done;
            },
        }
        assert(self@ =~= s.next(ev));
        assert(report::report_views(out@) =~= s.reports(ev));
        out
    }
}

} // verus!
