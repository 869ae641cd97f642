//! What holds of a whole run of a benchmark.

use vstd::prelude::*;
use crate::benchmark;
use crate::benchmark::{BenchEvent, BenchRequest, BenchStage, BenchView};
use crate::report;
use crate::report::{Pass, PieceView, ReportView};

verus! {

impl BenchView {
    /// Whether each of `evs` answers what the benchmark waited for when it came.
    pub open spec fn accepts_all(self, evs: Seq<BenchEvent>) -> bool
        decreases evs.len(),
    {
        evs.len() == 0 || {
            &&& self.accepts_all(evs.drop_last())
            &&& self.after(evs.drop_last()).accepts(evs.last())
        }
    }

    /// The benchmark after `evs`.
    pub open spec fn after(self, evs: Seq<BenchEvent>) -> BenchView
        decreases evs.len(),
    {
        if evs.len() == 0 {
            self
        } else {
            self.after(evs.drop_last()).next(evs.last())
        }
    }

    /// All that is reported from the opening line on to `evs`.
    pub open spec fn all_reports(self, evs: Seq<BenchEvent>) -> Seq<ReportView>
        decreases evs.len(),
    {
        if evs.len() == 0 {
            seq![benchmark::opening_line()]
        } else {
            self.all_reports(evs.drop_last()) + self.after(evs.drop_last()).reports(evs.last())
        }
    }
}

/// The place of a pass in the order of the four.
pub open spec fn place(pass: Pass) -> int {
    match pass {
        Pass::SeqWrite => 0,
        Pass::SeqRead => 1,
        Pass::RandWrite => 2,
        Pass::RandRead => 3,
    }
}

/// The place that a benchmark has come to.
pub open spec fn reached(stage: BenchStage) -> int {
    match stage {
        BenchStage::Exists => -1,
        BenchStage::Open(pass) => place(pass),
        BenchStage::CheckStop(pass) => place(pass),
        BenchStage::Move(pass) => place(pass),
        BenchStage::Remove => 4,
        BenchStage::Done => 5,
    }
}

/// How far `evs` brought `pass`, in bytes or in blocks.
pub open spec fn moved_in(pass: Pass, evs: Seq<BenchEvent>) -> nat
    decreases evs.len(),
{
    if evs.len() == 0 {
        0
    } else {
        let before = moved_in(pass, evs.drop_last());
        match (BenchView::init().after(evs.drop_last()).stage, evs.last()) {
            (BenchStage::Move(p), BenchEvent::Moved(n)) => if p != pass {
                before
            } else if benchmark::sequential(pass) {
                before + n as nat
            } else {
                before + 1
            },
            _ => before,
        }
    }
}

/// Whether nothing cut a pass short: no answer to stop, and no file that ended
/// before all its bytes were read.
pub open spec fn undisturbed(evs: Seq<BenchEvent>) -> bool {
    forall|i: int|
        0 <= i < evs.len() ==> #[trigger] evs[i] != BenchEvent::Stop(true) && evs[i]
            != BenchEvent::Moved(0)
}

/// The passes come in their order, each goes no further than its goal, none
/// begins before its turn, and one that nothing cuts short reaches its goal.
pub proof fn passes_in_order(evs: Seq<BenchEvent>, pass: Pass)
    requires
        BenchView::init().accepts_all(evs),
    ensures
        ({
            let s = BenchView::init().after(evs);
            &&& s.wf()
            &&& moved_in(pass, evs) <= benchmark::goal(pass)
            &&& reached(s.stage) == place(pass) ==> moved_in(pass, evs) == s.done
            &&& reached(s.stage) < place(pass) ==> moved_in(pass, evs) == 0
            &&& undisturbed(evs) && reached(s.stage) > place(pass) ==> moved_in(pass, evs)
                == benchmark::goal(pass)
            &&& evs.len() > 0 ==> reached(s.stage) >= reached(
                BenchView::init().after(evs.drop_last()).stage,
            )
        }),
    decreases evs.len(),
{
    if evs.len() > 0 {
        let before = evs.drop_last();
        passes_in_order(before, pass);
        let s = BenchView::init().after(before);
        if undisturbed(evs) {
            assert forall|i: int| 0 <= i < before.len() implies #[trigger] before[i]
                != BenchEvent::Stop(true) && before[i] != BenchEvent::Moved(0) by {
                assert(before[i] == evs[i]);
            }
            assert(evs[evs.len() - 1] == evs.last());
        }
        match (s.stage, evs.last()) {
            (BenchStage::Move(p), BenchEvent::Moved(n)) => {},
            (BenchStage::CheckStop(p), BenchEvent::Stop(stop)) => {},
            _ => {},
        }
    }
}

/// A benchmark that nothing cuts short moves all its bytes and blocks.
pub proof fn undisturbed_run_is_complete(evs: Seq<BenchEvent>)
    requires
        BenchView::init().accepts_all(evs),
        BenchView::init().after(evs).stage == BenchStage::Done,
        undisturbed(evs),
    ensures
        moved_in(Pass::SeqWrite, evs) == benchmark::SEQ_BYTES,
        moved_in(Pass::SeqRead, evs) == benchmark::SEQ_BYTES,
        moved_in(Pass::RandWrite, evs) == benchmark::COUNT,
        moved_in(Pass::RandRead, evs) == benchmark::COUNT,
{
    passes_in_order(evs, Pass::SeqWrite);
    passes_in_order(evs, Pass::SeqRead);
    passes_in_order(evs, Pass::RandWrite);
    passes_in_order(evs, Pass::RandRead);
}

/// What a benchmark reports as progress lies between nothing and the whole.
pub open spec fn within(r: ReportView) -> bool {
    match r {
        ReportView::Progress { phase, cur, total } => cur <= total && total > 0,
        _ => true,
    }
}

/// Every progress that a benchmark reports lies between nothing and the whole.
pub proof fn progress_stays_within(evs: Seq<BenchEvent>, i: int)
    requires
        BenchView::init().accepts_all(evs),
        0 <= i < BenchView::init().all_reports(evs).len(),
    ensures
        within(BenchView::init().all_reports(evs)[i]),
    decreases evs.len(),
{
    if evs.len() > 0 {
        let before = evs.drop_last();
        let earlier = BenchView::init().all_reports(before);
        if i < earlier.len() {
            progress_stays_within(before, i);
        } else {
            passes_in_order(before, Pass::SeqWrite);
            let s = BenchView::init().after(before);
            step_stays_within(s, evs.last(), i - earlier.len());
        }
    }
}

proof fn step_stays_within(s: BenchView, ev: BenchEvent, i: int)
    requires
        s.wf(),
        s.accepts(ev),
        0 <= i < s.reports(ev).len(),
    ensures
        within(s.reports(ev)[i]),
{
    match (s.stage, ev) {
        (BenchStage::Move(pass), BenchEvent::Moved(n)) => {
            let t = s.tick(pass, n);
            if i < t.len() {
                assert(s.reports(ev)[i] == t[i]);
            } else {
                assert(s.reports(ev)[i] == benchmark::pass_over(pass)[i - t.len()]);
            }
        },
        _ => {},
    }
}

/// A benchmark reports its end once, as its last word, and takes nothing after
/// it.
pub proof fn ends_once(evs: Seq<BenchEvent>)
    requires
        BenchView::init().accepts_all(evs),
    ensures
        ({
            let s = BenchView::init().after(evs);
            let r = BenchView::init().all_reports(evs);
            if s.stage == BenchStage::Done {
                &&& report::finishes(r) == 1
                &&& r.last() == ReportView::Finished
                &&& forall|ev: BenchEvent| !s.accepts(ev)
            } else {
                report::finishes(r) == 0
            }
        }),
    decreases evs.len(),
{
    if evs.len() > 0 {
        let before = evs.drop_last();
        ends_once(before);
        passes_in_order(before, Pass::SeqWrite);
        let s = BenchView::init().after(before);
        let r = s.reports(evs.last());
        report::finishes_adds(BenchView::init().all_reports(before), r);
        if s.next(evs.last()).stage == BenchStage::Done {
            report::finishes_at_end(r);
        } else {
            report::finishes_none(r);
        }
    } else {
        report::finishes_none(BenchView::init().all_reports(evs));
    }
}

/// The passes that were asked to be opened, and were, along `evs`.
pub open spec fn opened(evs: Seq<BenchEvent>) -> Seq<Pass>
    decreases evs.len(),
{
    if evs.len() == 0 {
        Seq::empty()
    } else {
        let before = opened(evs.drop_last());
        match (BenchView::init().after(evs.drop_last()).request(), evs.last()) {
            (BenchRequest::Open(pass), BenchEvent::Opened) => before.push(pass),
            _ => before,
        }
    }
}

/// Along every run the file is asked to be opened for sequential writing, then
/// for sequential reading, then for random writing and at last for random
/// reading. What is then asked to be written or read belongs to the pass that
/// was opened last. A benchmark that is over has opened all four.
pub proof fn passes_are_opened_in_order(evs: Seq<BenchEvent>)
    requires
        BenchView::init().accepts_all(evs),
    ensures
        ({
            let asked = BenchView::init().after(evs).request();
            let all = seq![Pass::SeqWrite, Pass::SeqRead, Pass::RandWrite, Pass::RandRead];
            let done = opened(evs);
            &&& done.len() <= 4
            &&& done == all.take(done.len() as int)
            &&& asked matches BenchRequest::Open(pass) ==> done.len() < 4 && pass
                == all[done.len() as int]
            &&& asked is WriteNext ==> done.len() == 1
            &&& asked is ReadNext ==> done.len() == 2
            &&& asked == BenchRequest::WriteAt ==> done.len() == 3
            &&& asked == BenchRequest::ReadAt ==> done.len() == 4
            &&& asked == BenchRequest::CheckStop ==> done.len() == 1 || done.len() == 3 || done.len()
                == 4
            &&& asked == BenchRequest::FileExists ==> done.len() == 0
            &&& asked == BenchRequest::Remove || asked == BenchRequest::Nothing ==> done.len() == 4
        }),
    decreases evs.len(),
{
    let all = seq![Pass::SeqWrite, Pass::SeqRead, Pass::RandWrite, Pass::RandRead];
    if evs.len() > 0 {
        let before = evs.drop_last();
        passes_are_opened_in_order(before);
        passes_are_counted(before);
        passes_are_counted(evs);
        passes_in_order(before, Pass::SeqWrite);
        let n = opened(before).len() as int;
        assert(n < 4 ==> all.take(n).push(all[n]) =~= all.take(n + 1));
    } else {
        assert(opened(evs) =~= all.take(0));
    }
}

proof fn passes_are_counted(evs: Seq<BenchEvent>)
    requires
        BenchView::init().accepts_all(evs),
    ensures
        opened(evs).len() == match BenchView::init().after(evs).stage {
            BenchStage::Exists => 0int,
            BenchStage::Open(pass) => place(pass),
            BenchStage::CheckStop(pass) => place(pass) + 1,
            BenchStage::Move(pass) => place(pass) + 1,
            _ => 4,
        },
    decreases evs.len(),
{
    if evs.len() > 0 {
        let before = evs.drop_last();
        passes_are_counted(before);
        passes_in_order(before, Pass::SeqWrite);
        let s = BenchView::init().after(before);
        match (s.stage, evs.last()) {
            (BenchStage::Move(p), BenchEvent::Moved(n)) => {},
            (BenchStage::CheckStop(p), BenchEvent::Stop(stop)) => {},
            (BenchStage::Open(p), BenchEvent::Opened) => {},
            _ => {},
        }
    }
}

/// What is asked for at each stage: a pass that waits for the file asks for it
/// to be opened for that very pass. A sequential write asks for 128 KiB, or for
/// what is left of the hundred megabytes; a sequential read for 128 KiB.
pub proof fn each_pass_asks_for_its_own(s: BenchView, pass: Pass)
    requires
        s.wf(),
    ensures
        s.stage == BenchStage::Exists <==> s.request() == BenchRequest::FileExists,
        s.stage == BenchStage::Open(pass) <==> s.request() == BenchRequest::Open(pass),
        s.stage is CheckStop <==> s.request() == BenchRequest::CheckStop,
        s.stage == BenchStage::Move(Pass::SeqWrite) <==> s.request() is WriteNext,
        s.stage == BenchStage::Move(Pass::SeqRead) <==> s.request() is ReadNext,
        s.stage == BenchStage::Move(Pass::RandWrite) <==> s.request() == BenchRequest::WriteAt,
        s.stage == BenchStage::Move(Pass::RandRead) <==> s.request() == BenchRequest::ReadAt,
        s.stage == BenchStage::Remove <==> s.request() == BenchRequest::Remove,
        s.stage == BenchStage::Done <==> s.request() == BenchRequest::Nothing,
        s.request() matches BenchRequest::WriteNext(n) ==> n == if 104857600 - s.done < 131072 {
            104857600 - s.done
        } else {
            131072
        },
        s.request() matches BenchRequest::ReadNext(n) ==> n == 131072,
{
}

/// A benchmark takes an answer if and only if it answers what was asked for: a
/// write moves what it was asked to, a random pass a block of 4 KiB, and a
/// sequential read no more than is left of the hundred megabytes.
pub proof fn bench_answers_fit_the_request(s: BenchView, ev: BenchEvent)
    requires
        s.wf(),
    ensures
        s.accepts(ev) <==> match (s.request(), ev) {
            (BenchRequest::FileExists, BenchEvent::Exists(_)) => true,
            (BenchRequest::Open(_), BenchEvent::Opened) => true,
            (BenchRequest::CheckStop, BenchEvent::Stop(_)) => true,
            (BenchRequest::WriteNext(n), BenchEvent::Moved(m)) => m == n,
            (BenchRequest::ReadNext(_), BenchEvent::Moved(m)) => m <= 104857600 - s.done,
            (BenchRequest::WriteAt, BenchEvent::Moved(m)) => m == 4096,
            (BenchRequest::ReadAt, BenchEvent::Moved(m)) => m == 4096,
            (BenchRequest::Remove, BenchEvent::Removed) => true,
            _ => false,
        },
{
}

/// A benchmark announces itself, then asks whether the file is there already,
/// warns where it is, and begins with sequential writing.
pub proof fn a_benchmark_begins_with_writing(exists_already: bool)
    ensures
        benchmark::opening_line() == ReportView::Log(
            seq![
                PieceView::Text("==== 简易测速开始 ===="@),
            ],
        ),
        BenchView::init().all_reports(Seq::empty()) == seq![benchmark::opening_line()],
        BenchView::init() == (BenchView { stage: BenchStage::Exists, done: 0, chunks: 0 }),
        BenchView::init().next(BenchEvent::Exists(exists_already)) == (BenchView {
            stage: BenchStage::Open(Pass::SeqWrite),
            done: 0,
            chunks: 0,
        }),
        BenchView::init().reports(BenchEvent::Exists(true)) == seq![
            ReportView::Log(seq![PieceView::Text("⚠ bench_test.tmp 已存在，将被覆盖"@)]),
            ReportView::Progress {
                phase: seq![PieceView::Text("连续写入"@)],
                cur: 0,
                total: 104857600,
            },
        ],
        BenchView::init().reports(BenchEvent::Exists(false)) == seq![
            ReportView::Progress {
                phase: seq![PieceView::Text("连续写入"@)],
                cur: 0,
                total: 104857600,
            },
        ],
{
    assert(BenchView::init().reports(BenchEvent::Exists(true)) =~= seq![
        ReportView::Log(seq![PieceView::Text("⚠ bench_test.tmp 已存在，将被覆盖"@)]),
        ReportView::Progress {
            phase: seq![PieceView::Text("连续写入"@)],
            cur: 0,
            total: 104857600,
        },
    ]);
    assert(BenchView::init().reports(BenchEvent::Exists(false)) =~= seq![
        ReportView::Progress {
            phase: seq![PieceView::Text("连续写入"@)],
            cur: 0,
            total: 104857600,
        },
    ]);
}

/// Once the file is open, a pass asks whether to stop before it moves anything;
/// only the sequential read moves at once.
pub proof fn opened_passes_begin(s: BenchView, pass: Pass)
    requires
        s.stage == BenchStage::Open(pass),
    ensures
        s.reports(BenchEvent::Opened) == Seq::<ReportView>::empty(),
        s.next(BenchEvent::Opened).done == s.done,
        s.next(BenchEvent::Opened).chunks == s.chunks,
        s.next(BenchEvent::Opened).stage == if pass == Pass::SeqRead {
            BenchStage::Move(pass)
        } else {
            BenchStage::CheckStop(pass)
        },
{
}

/// The next pass begins from nothing, in the fixed order; after the last the
/// file is removed.
pub proof fn passes_follow_each_other(pass: Pass)
    ensures
        BenchView::end_pass(pass).done == 0,
        BenchView::end_pass(pass).chunks == 0,
        BenchView::end_pass(Pass::SeqWrite).stage == BenchStage::Open(Pass::SeqRead),
        BenchView::end_pass(Pass::SeqRead).stage == BenchStage::Open(Pass::RandWrite),
        BenchView::end_pass(Pass::RandWrite).stage == BenchStage::Open(Pass::RandRead),
        BenchView::end_pass(Pass::RandRead).stage == BenchStage::Remove,
{
}

/// What is told once a pass is over: that it is complete, the rates of writing
/// and of reading after each pair of passes, over the bytes of such a pass, and
/// that the next pass begins.
pub proof fn finished_passes_are_told()
    ensures
        benchmark::pass_over(Pass::SeqWrite) == seq![
            ReportView::Progress {
                phase: seq![PieceView::Text("连续写入"@)],
                cur: 104857600,
                total: 104857600,
            },
            ReportView::Progress {
                phase: seq![PieceView::Text("连续读取"@)],
                cur: 0,
                total: 104857600,
            },
        ],
        benchmark::pass_over(Pass::SeqRead) == seq![
            ReportView::Progress {
                phase: seq![PieceView::Text("连续读取"@)],
                cur: 104857600,
                total: 104857600,
            },
            ReportView::Log(
                seq![
                    PieceView::Text("连续写入: "@),
                    PieceView::Rate { bytes: 104857600, pass: Pass::SeqWrite, decimals: 2 },
                    PieceView::Text(" MB/s | 连续读取: "@),
                    PieceView::Rate { bytes: 104857600, pass: Pass::SeqRead, decimals: 2 },
                    PieceView::Text(" MB/s"@),
                ],
            ),
            ReportView::Progress {
                phase: seq![PieceView::Text("4K随机写入"@)],
                cur: 0,
                total: 20000,
            },
        ],
        benchmark::pass_over(Pass::RandWrite) == seq![
            ReportView::Progress {
                phase: seq![PieceView::Text("4K随机写入"@)],
                cur: 20000,
                total: 20000,
            },
            ReportView::Progress {
                phase: seq![PieceView::Text("4K随机读取"@)],
                cur: 0,
                total: 20000,
            },
        ],
        benchmark::pass_over(Pass::RandRead) == seq![
            ReportView::Progress {
                phase: seq![PieceView::Text("4K随机读取"@)],
                cur: 20000,
                total: 20000,
            },
            ReportView::Log(
                seq![
                    PieceView::Text("4K随机写入: "@),
                    PieceView::Rate { bytes: 81920000, pass: Pass::RandWrite, decimals: 3 },
                    PieceView::Text(" MB/s | 4K随机读取: "@),
                    PieceView::Rate { bytes: 81920000, pass: Pass::RandRead, decimals: 3 },
                    PieceView::Text(" MB/s"@),
                ],
            ),
        ],
{
    assert(benchmark::pass_over(Pass::SeqWrite) =~= seq![
        ReportView::Progress {
            phase: seq![PieceView::Text("连续写入"@)],
            cur: 104857600,
            total: 104857600,
        },
        ReportView::Progress {
            phase: seq![PieceView::Text("连续读取"@)],
            cur: 0,
            total: 104857600,
        },
    ]);
    assert(benchmark::pass_over(Pass::SeqRead) =~= seq![
        ReportView::Progress {
            phase: seq![PieceView::Text("连续读取"@)],
            cur: 104857600,
            total: 104857600,
        },
        ReportView::Log(
            seq![
                PieceView::Text("连续写入: "@),
                PieceView::Rate { bytes: 104857600, pass: Pass::SeqWrite, decimals: 2 },
                PieceView::Text(" MB/s | 连续读取: "@),
                PieceView::Rate { bytes: 104857600, pass: Pass::SeqRead, decimals: 2 },
                PieceView::Text(" MB/s"@),
            ],
        ),
        ReportView::Progress { phase: seq![PieceView::Text("4K随机写入"@)], cur: 0, total: 20000 },
    ]);
    assert(benchmark::pass_over(Pass::RandWrite) =~= seq![
        ReportView::Progress {
            phase: seq![PieceView::Text("4K随机写入"@)],
            cur: 20000,
            total: 20000,
        },
        ReportView::Progress { phase: seq![PieceView::Text("4K随机读取"@)], cur: 0, total: 20000 },
    ]);
    assert(benchmark::pass_over(Pass::RandRead) =~= seq![
        ReportView::Progress {
            phase: seq![PieceView::Text("4K随机读取"@)],
            cur: 20000,
            total: 20000,
        },
        ReportView::Log(
            seq![
                PieceView::Text("4K随机写入: "@),
                PieceView::Rate { bytes: 81920000, pass: Pass::RandWrite, decimals: 3 },
                PieceView::Text(" MB/s | 4K随机读取: "@),
                PieceView::Rate { bytes: 81920000, pass: Pass::RandRead, decimals: 3 },
                PieceView::Text(" MB/s"@),
            ],
        ),
    ]);
}

/// A user who stops ends the pass and no more than the pass; one who does not
/// lets the next bytes be moved.
pub proof fn stop_ends_the_pass(s: BenchView, pass: Pass)
    requires
        s.stage == BenchStage::CheckStop(pass),
    ensures
        s.next(BenchEvent::Stop(true)) == BenchView::end_pass(pass),
        s.reports(BenchEvent::Stop(true)) == benchmark::pass_over(pass),
        s.next(BenchEvent::Stop(false)) == (BenchView { stage: BenchStage::Move(pass), ..s }),
        s.reports(BenchEvent::Stop(false)) == Seq::<ReportView>::empty(),
{
}

/// A sequential pass counts the bytes that were moved. It is over where all the
/// hundred megabytes are, or where nothing came. Its progress is told after
/// every 64 moves.
pub proof fn sequential_passes_count_bytes(s: BenchView, pass: Pass, n: usize)
    requires
        s.wf(),
        s.stage == BenchStage::Move(pass),
        pass == Pass::SeqWrite || pass == Pass::SeqRead,
        s.accepts(BenchEvent::Moved(n)),
    ensures
        ({
            let ev = BenchEvent::Moved(n);
            let over = n == 0 || s.done + n == 104857600;
            let name = if pass == Pass::SeqWrite {
                "连续写入"@
            } else {
                "连续读取"@
            };
            let told = n > 0 && (s.chunks + 1) % 64 == 0;
            let tick = if told {
                seq![
                    ReportView::Progress {
                        phase: seq![PieceView::Text(name)],
                        cur: (s.done + n) as u64,
                        total: 104857600,
                    },
                ]
            } else {
                Seq::empty()
            };
            &&& over ==> s.next(ev) == BenchView::end_pass(pass)
            &&& over ==> s.reports(ev) == tick + benchmark::pass_over(pass)
            &&& !over ==> s.next(ev) == (BenchView {
                stage: if pass == Pass::SeqRead {
                    BenchStage::Move(pass)
                } else {
                    BenchStage::CheckStop(pass)
                },
                done: s.done + n as nat,
                chunks: s.chunks + 1,
            })
            &&& !over ==> s.reports(ev) == tick
        }),
{
    let ev = BenchEvent::Moved(n);
    let over = n == 0 || s.done + n == 104857600;
    assert(s.moved(pass, n) == s.done + n);
    if !over {
        assert(s.reports(ev) =~= s.tick(pass, n));
    }
}

/// A random pass counts its blocks and is over after 20000. Its progress is
/// told at every 500 of them, by the number of blocks before.
pub proof fn random_passes_count_blocks(s: BenchView, pass: Pass)
    requires
        s.wf(),
        s.stage == BenchStage::Move(pass),
        pass == Pass::RandWrite || pass == Pass::RandRead,
    ensures
        ({
            let ev = BenchEvent::Moved(4096);
            let over = s.done + 1 == 20000;
            let name = if pass == Pass::RandWrite {
                "4K随机写入"@
            } else {
                "4K随机读取"@
            };
            let tick = if s.done % 500 == 0 {
                seq![
                    ReportView::Progress {
                        phase: seq![PieceView::Text(name)],
                        cur: s.done as u64,
                        total: 20000,
                    },
                ]
            } else {
                Seq::empty()
            };
            &&& over ==> s.next(ev) == BenchView::end_pass(pass)
            &&& over ==> s.reports(ev) == tick + benchmark::pass_over(pass)
            &&& !over ==> s.next(ev) == (BenchView {
                stage: BenchStage::CheckStop(pass),
                done: s.done + 1,
                chunks: 0,
            })
            &&& !over ==> s.reports(ev) == tick
        }),
{
    let ev = BenchEvent::Moved(4096);
    if s.done + 1 != 20000 {
        assert(s.reports(ev) =~= s.tick(pass, 4096));
    }
}

/// Once the file is removed, the benchmark says that it is complete, and is
/// over.
pub proof fn removed_file_ends_the_benchmark(s: BenchView)
    requires
        s.stage == BenchStage::Remove,
    ensures
        s.next(BenchEvent::Removed).stage == BenchStage::Done,
        s.next(BenchEvent::Removed).request() == BenchRequest::Nothing,
        s.reports(BenchEvent::Removed) == seq![
            ReportView::Log(seq![PieceView::Text("==== 测速完成 ===="@)]),
            ReportView::Finished,
        ],
{
}

/// How many moves of `pass` brought something, along `evs`.
pub open spec fn moves_in(pass: Pass, evs: Seq<BenchEvent>) -> nat
    decreases evs.len(),
{
    if evs.len() == 0 {
        0
    } else {
        let before = moves_in(pass, evs.drop_last());
        match (BenchView::init().after(evs.drop_last()).stage, evs.last()) {
            (BenchStage::Move(p), BenchEvent::Moved(n)) => if p == pass && n > 0 {
                before + 1
            } else {
                before
            },
            _ => before,
        }
    }
}

/// The moves of a sequential pass are counted while it is under way.
pub proof fn moves_are_counted(evs: Seq<BenchEvent>, pass: Pass)
    requires
        BenchView::init().accepts_all(evs),
        pass == Pass::SeqWrite || pass == Pass::SeqRead,
    ensures
        reached(BenchView::init().after(evs).stage) == place(pass) ==> BenchView::init().after(
            evs,
        ).chunks == moves_in(pass, evs),
        reached(BenchView::init().after(evs).stage) < place(pass) ==> moves_in(pass, evs) == 0,
    decreases evs.len(),
{
    if evs.len() > 0 {
        let before = evs.drop_last();
        moves_are_counted(before, pass);
        passes_in_order(before, pass);
        passes_in_order(evs, pass);
        let s = BenchView::init().after(before);
        match (s.stage, evs.last()) {
            (BenchStage::Move(p), BenchEvent::Moved(n)) => {},
            (BenchStage::CheckStop(p), BenchEvent::Stop(stop)) => {},
            _ => {},
        }
    }
}

} // verus!
