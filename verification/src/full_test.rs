//! The test of a whole drive: fill it with random files as far as the margin
//! allows, read every file back, and count those that differ.
//!
//! A `FullTest` says what it waits for and takes what came of it. The program
//! around it asks the drive, writes and reads the files, and sends the reports.

use vstd::prelude::*;
use crate::files;
use crate::files::{has_enough_space, quoted_test_file_name, SPACE_MARGIN};
use crate::report;
use crate::report::{
    emit, lit, log1, log2, log3, log4, pieces5, progress1, Piece, PieceView, Report, ReportView,
};
use crate::text;
use crate::text::decimal_text;

verus! {

/// The bytes of a megabyte.
pub const MEGABYTE: u64 = 1048576;

/// What a test waits for.
#[derive(Debug, Clone, Copy, PartialEq, Eq, Structural)]
pub enum TestStage {
    /// How much room there is at the start.
    Free,
    /// Whether the user wants to stop the writing.
    CheckStop,
    /// How much room is left for the next file.
    Space,
    /// Whether the next file is there already.
    Exists,
    /// The next file.
    Write,
    /// Whether the user wants to stop the reading.
    VerifyStop,
    /// The next file, read back.
    Read,
    /// Nothing: the test is over.
    Done,
}

/// What has to happen next. Files go by their numbers.
#[derive(Debug, Clone, Copy, PartialEq, Eq, Structural)]
pub enum TestRequest {
    FreeSpace,
    CheckStop,
    FileExists(u64),
    WriteFile(u64),
    ReadFile(u64),
    Nothing,
}

/// What came of it.
pub enum TestEvent {
    /// The free bytes of the drive, if they are known.
    Free(Option<u64>),
    /// Whether the user wants to stop.
    Stop(bool),
    /// Whether the file is there.
    Exists(bool),
    /// The hash and the number of the bytes written, or why it failed.
    Wrote(Result<(u64, u64), String>),
    /// The hash and the number of the bytes read, nothing where the user
    /// stopped, or why it failed.
    Read(Result<Option<(u64, u64)>, String>),
}

/// The contents of a `TestEvent`.
pub enum TestEventView {
    Free(Option<u64>),
    Stop(bool),
    Exists(bool),
    Wrote(Result<(u64, u64), Seq<char>>),
    Read(Result<Option<(u64, u64)>, Seq<char>>),
}

impl View for TestEvent {
    type V = TestEventView;

    open spec fn view(&self) -> TestEventView {
        match self {
            TestEvent::Free(f) => TestEventView::Free(*f),
            TestEvent::Stop(b) => TestEventView::Stop(*b),
            TestEvent::Exists(b) => TestEventView::Exists(*b),
            TestEvent::Wrote(r) => TestEventView::Wrote(
                match r {
                    Ok(p) => Ok(*p),
                    Err(e) => Err(e@),
                },
            ),
            TestEvent::Read(r) => TestEventView::Read(
                match r {
                    Ok(p) => Ok(*p),
                    Err(e) => Err(e@),
                },
            ),
        }
    }
}

/// A test of a whole drive.
#[verifier::ext_equal]
pub struct TestView {
    pub stage: TestStage,
    /// The bytes of each file.
    pub file_size: u64,
    /// The bytes that fit on the drive, by what was free at the start.
    pub est_total: u64,
    /// The bytes written.
    pub total_write: u64,
    /// The hashes of the files written, from file number one on.
    pub hashes: Seq<u64>,
    /// How many files are read back.
    pub checked: nat,
    /// The bytes read back.
    pub verified: u64,
    /// How many files could not be read or differ.
    pub errors: nat,
}

/// The name of a test file as the log shows it.
pub open spec fn shown_name(index: nat) -> PieceView {
    PieceView::Text(text::quoted(files::test_file(index)))
}

/// The log line that a test begins, sent before anything is asked of the drive.
pub open spec fn opening_line() -> ReportView {
    report::say("===== 全盘读写校验开始 ====="@)
}

/// The log line that file `index` has another hash than was written.
pub open spec fn damaged_line(index: nat) -> ReportView {
    ReportView::Log(
        seq![
            PieceView::Text("❌ "@),
            shown_name(index),
            PieceView::Text(" 校验失败，数据损坏"@),
        ],
    )
}

/// The log line that file `index` has the hash that was written.
pub open spec fn passed_line(index: nat) -> ReportView {
    ReportView::Log(
        seq![PieceView::Text("✅ "@), shown_name(index), PieceView::Text(" 校验通过"@)],
    )
}

/// The last reports of a test that found `errors` bad files.
pub open spec fn closing(errors: nat) -> Seq<ReportView> {
    seq![
        report::say("===== 全盘测试结果 ====="@),
        ReportView::Log(
            seq![PieceView::Text("错误文件数："@), PieceView::Text(text::decimal(errors))],
        ),
        verdict(errors),
        ReportView::Finished,
    ]
}

/// What the log says of a test that found `errors` bad files.
pub open spec fn verdict(errors: nat) -> ReportView {
    if errors == 0 {
        report::say("✅ 全部校验通过"@)
    } else {
        report::say("❌ 检测到数据损坏：扩容盘 / 闪存坏块"@)
    }
}

/// The reports between the writing and the reading of `files` files; where
/// there are none, the test is over.
pub open spec fn end_of_writing(total_write: u64, files: nat) -> Seq<ReportView> {
    seq![
        ReportView::Log(
            seq![
                PieceView::Text("写入完成，总写入 "@),
                PieceView::Gb(total_write),
                PieceView::Text(" GB"@),
            ],
        ),
        report::say("----- 开始回读校验 -----"@),
    ] + if files == 0 {
        closing(0)
    } else {
        Seq::empty()
    }
}

/// What can be written to a drive with `free` free bytes.
pub open spec fn estimate(free: u64) -> u64 {
    if free >= SPACE_MARGIN {
        (free - SPACE_MARGIN) as u64
    } else {
        0
    }
}

impl TestView {
    /// A test that has not begun.
    pub open spec fn init(file_size: u64) -> TestView {
        TestView {
            stage: TestStage::Free,
            file_size,
            est_total: 0,
            total_write: 0,
            hashes: Seq::empty(),
            checked: 0,
            verified: 0,
            errors: 0,
        }
    }

    /// The number of the next file to write.
    pub open spec fn next_file(self) -> nat {
        self.hashes.len() + 1
    }

    /// The number of the next file to read back.
    pub open spec fn next_check(self) -> nat {
        self.checked + 1
    }

    /// Whether `ev` answers what the test waits for, and the counts of bytes
    /// and files can take it.
    pub open spec fn accepts(self, ev: TestEventView) -> bool {
        match ev {
            TestEventView::Free(_) => {
                self.stage == TestStage::Free || self.stage == TestStage::Space
            },
            TestEventView::Stop(_) => {
                self.stage == TestStage::CheckStop || self.stage == TestStage::VerifyStop
            },
            TestEventView::Exists(_) => self.stage == TestStage::Exists,
            TestEventView::Wrote(Ok((_, wrote))) => {
                &&& self.stage == TestStage::Write
                &&& self.total_write + wrote <= u64::MAX
                &&& self.next_file() + 1 <= u64::MAX
            },
            TestEventView::Wrote(Err(_)) => self.stage == TestStage::Write,
            TestEventView::Read(Ok(Some((_, bytes)))) => {
                self.stage == TestStage::Read && self.verified + bytes <= u64::MAX
            },
            TestEventView::Read(_) => self.stage == TestStage::Read,
        }
    }

    /// The test once the writing is over.
    pub open spec fn done_writing(self) -> TestView {
        TestView {
            stage: if self.hashes.len() == 0 {
                TestStage::Done
            } else {
                TestStage::VerifyStop
            },
            ..self
        }
    }

    /// The test once a file is read back; `bad` where it could not be read or
    /// differs.
    pub open spec fn done_file(self, bytes: u64, bad: bool) -> TestView {
        TestView {
            stage: if self.checked + 1 == self.hashes.len() {
                TestStage::Done
            } else {
                TestStage::VerifyStop
            },
            checked: self.checked + 1,
            verified: (self.verified + bytes) as u64,
            errors: if bad {
                self.errors + 1
            } else {
                self.errors
            },
            ..self
        }
    }

    /// Whether `hash` is not that of the file that is being read back.
    pub open spec fn differs(self, hash: u64) -> bool {
        hash != self.hashes[self.checked as int]
    }

    /// The test after `ev`.
    pub open spec fn next(self, ev: TestEventView) -> TestView {
        match ev {
            TestEventView::Free(free) => if self.stage == TestStage::Free {
                match free {
                    None => TestView { stage: TestStage::Done, ..self },
                    Some(f) => TestView {
                        stage: TestStage::CheckStop,
                        est_total: estimate(f),
                        ..self
                    },
                }
            } else if files::leaves_margin(known(free) as int, self.file_size as int) {
                TestView { stage: TestStage::Exists, ..self }
            } else {
                self.done_writing()
            },
            TestEventView::Stop(stop) => if self.stage == TestStage::CheckStop {
                if stop {
                    self.done_writing()
                } else {
                    TestView { stage: TestStage::Space, ..self }
                }
            } else if stop {
                TestView { stage: TestStage::Done, ..self }
            } else {
                TestView { stage: TestStage::Read, ..self }
            },
            TestEventView::Exists(_) => TestView { stage: TestStage::Write, ..self },
            TestEventView::Wrote(Ok((hash, wrote))) => TestView {
                stage: TestStage::CheckStop,
                total_write: (self.total_write + wrote) as u64,
                hashes: self.hashes.push(hash),
                ..self
            },
            TestEventView::Wrote(Err(_)) => self.done_writing(),
            TestEventView::Read(Ok(Some((hash, bytes)))) => self.done_file(
                bytes,
                self.differs(hash),
            ),
            TestEventView::Read(Ok(None)) => TestView { stage: TestStage::Done, ..self },
            TestEventView::Read(Err(_)) => self.done_file(0, true),
        }
    }

    /// The last reports where the test is over with this state.
    pub open spec fn closing_if_done(self) -> Seq<ReportView> {
        if self.stage == TestStage::Done {
            closing(self.errors)
        } else {
            Seq::empty()
        }
    }

    /// What is reported on `ev`.
    pub open spec fn reports(self, ev: TestEventView) -> Seq<ReportView> {
        let writing = shown_name(self.next_file());
        let reading = shown_name(self.next_check());
        match ev {
            TestEventView::Free(free) => if self.stage == TestStage::Free {
                match free {
                    None => seq![report::say("获取磁盘空间失败"@), ReportView::Finished],
                    Some(f) => seq![
                        ReportView::Log(
                            seq![
                                PieceView::Text("盘符剩余空间 "@),
                                PieceView::Gb(f),
                                PieceView::Text(" GB"@),
                            ],
                        ),
                        ReportView::Progress {
                            phase: seq![PieceView::Text("写入阶段"@)],
                            cur: 0,
                            total: estimate(f),
                        },
                    ],
                }
            } else if files::leaves_margin(known(free) as int, self.file_size as int) {
                Seq::empty()
            } else {
                seq![
                    ReportView::Log(
                        seq![
                            PieceView::Text("剩余空间不足，停止写入。剩余 "@),
                            PieceView::Gb(known(free)),
                            PieceView::Text(" GB"@),
                        ],
                    ),
                ] + end_of_writing(self.total_write, self.hashes.len())
            },
            TestEventView::Stop(stop) => if self.stage == TestStage::CheckStop {
                if stop {
                    seq![report::say("用户终止写入阶段"@)] + end_of_writing(
                        self.total_write,
                        self.hashes.len(),
                    )
                } else {
                    Seq::empty()
                }
            } else if stop {
                closing(self.errors)
            } else {
                seq![ReportView::Log(seq![PieceView::Text("校验 "@), reading])]
            },
            TestEventView::Exists(exists) => (if exists {
                seq![
                    ReportView::Log(
                        seq![
                            PieceView::Text("⚠ "@),
                            writing,
                            PieceView::Text(" 已存在，将被覆盖"@),
                        ],
                    ),
                ]
            } else {
                Seq::empty()
            }) + seq![ReportView::Log(seq![PieceView::Text("写入 "@), writing])],
            TestEventView::Wrote(Ok((_, wrote))) => {
                let total = (self.total_write + wrote) as u64;
                seq![
                    ReportView::Progress {
                        phase: seq![
                            PieceView::Text("写入阶段 "@),
                            PieceView::Gb(total),
                            PieceView::Text(" GB / 预计 "@),
                            PieceView::Gb(self.est_total),
                            PieceView::Text(" GB"@),
                        ],
                        cur: total,
                        total: self.est_total,
                    },
                ]
            },
            TestEventView::Wrote(Err(e)) => seq![
                ReportView::Log(
                    seq![
                        PieceView::Text("写入失败 "@),
                        writing,
                        PieceView::Text(": "@),
                        PieceView::Text(e),
                    ],
                ),
            ] + end_of_writing(self.total_write, self.hashes.len()),
            TestEventView::Read(Ok(Some((hash, bytes)))) => {
                let verified = (self.verified + bytes) as u64;
                seq![
                    ReportView::Progress {
                        phase: seq![
                            PieceView::Text("校验阶段 "@),
                            PieceView::Gb(verified),
                            PieceView::Text(" GB / "@),
                            PieceView::Gb(self.total_write),
                            PieceView::Text(" GB"@),
                        ],
                        cur: verified,
                        total: self.total_write,
                    },
                    if self.differs(hash) {
                        damaged_line(self.next_check())
                    } else {
                        passed_line(self.next_check())
                    },
                ] + self.next(ev).closing_if_done()
            },
            TestEventView::Read(Ok(None)) => seq![
                ReportView::Log(seq![PieceView::Text("用户终止校验 "@), reading]),
            ] + closing(self.errors),
            TestEventView::Read(Err(e)) => seq![
                ReportView::Log(
                    seq![
                        PieceView::Text("读取失败 "@),
                        reading,
                        PieceView::Text(": "@),
                        PieceView::Text(e),
                    ],
                ),
            ] + self.next(ev).closing_if_done(),
        }
    }

    /// Whether files are still to be written.
    pub open spec fn is_writing(self) -> bool {
        match self.stage {
            TestStage::Free => true,
            TestStage::CheckStop => true,
            TestStage::Space => true,
            TestStage::Exists => true,
            TestStage::Write => true,
            _ => false,
        }
    }

    /// Files are read back only once they are all written, and no more are bad
    /// than are read back. Their numbers can be counted.
    pub open spec fn wf(self) -> bool {
        &&& self.hashes.len() < u64::MAX
        &&& self.errors <= self.checked <= self.hashes.len()
        &&& self.is_writing() ==> self.checked == 0 && self.verified == 0
        &&& self.stage == TestStage::VerifyStop || self.stage == TestStage::Read ==> self.checked
            < self.hashes.len()
    }

    /// What has to happen next.
    pub open spec fn request(self) -> TestRequest {
        match self.stage {
            TestStage::Free => TestRequest::FreeSpace,
            TestStage::CheckStop => TestRequest::CheckStop,
            TestStage::Space => TestRequest::FreeSpace,
            TestStage::Exists => TestRequest::FileExists(self.next_file() as u64),
            TestStage::Write => TestRequest::WriteFile(self.next_file() as u64),
            TestStage::VerifyStop => TestRequest::CheckStop,
            TestStage::Read => TestRequest::ReadFile(self.next_check() as u64),
            TestStage::Done => TestRequest::Nothing,
        }
    }
}

/// The free bytes, none where they are not known.
pub open spec fn known(free: Option<u64>) -> u64 {
    match free {
        Some(f) => f,
        None => 0,
    }
}

/// The report that a test begins, sent before anything is asked of the drive.
pub fn opening() -> (r: Report)
    ensures
        r@ == opening_line(),
{
    log1(lit("===== 全盘读写校验开始 ====="))
}

/// A test of a whole drive.
pub struct FullTest {
    stage: TestStage,
    file_size: u64,
    est_total: u64,
    total_write: u64,
    hashes: Vec<u64>,
    checked: usize,
    verified: u64,
    errors: usize,
}

impl View for FullTest {
    type V = TestView;

    closed spec fn view(&self) -> TestView {
        TestView {
            stage: self.stage,
            file_size: self.file_size,
            est_total: self.est_total,
            total_write: self.total_write,
            hashes: self.hashes@,
            checked: self.checked as nat,
            verified: self.verified,
            errors: self.errors as nat,
        }
    }
}

impl FullTest {
    /// Files are read back only once they are all written, and no more are bad
    /// than are read back.
    pub open spec fn wf(self) -> bool {
        self@.wf()
    }

    /// A test with files of `file_size_mb` megabytes.
    pub fn new(file_size_mb: u64) -> (r: Self)
        requires
            file_size_mb * MEGABYTE <= u64::MAX,
        ensures
            r.wf(),
            r@ == TestView::init((file_size_mb * MEGABYTE) as u64),
    {
        let r = FullTest {
            stage: TestStage::Free,
            file_size: file_size_mb * MEGABYTE,
            est_total: 0,
            total_write: 0,
            hashes: Vec::new(),
            checked: 0,
            verified: 0,
            errors: 0,
        };
        assert(r@ =~= TestView::init((file_size_mb * MEGABYTE) as u64));
        r
    }

    /// What has to happen next.
    pub fn request(&self) -> (r: TestRequest)
        requires
            self.wf(),
        ensures
            r == self@.request(),
    {
        match self.stage {
            TestStage::Free => TestRequest::FreeSpace,
            TestStage::CheckStop => TestRequest::CheckStop,
            TestStage::Space => TestRequest::FreeSpace,
            TestStage::Exists => TestRequest::FileExists(self.hashes.len() as u64 + 1),
            TestStage::Write => TestRequest::WriteFile(self.hashes.len() as u64 + 1),
            TestStage::VerifyStop => TestRequest::CheckStop,
            TestStage::Read => TestRequest::ReadFile(self.checked as u64 + 1),
            TestStage::Done => TestRequest::Nothing,
        }
    }

    /// The bytes of each file.
    pub fn file_size(&self) -> (r: u64)
        ensures
            r == self@.file_size,
    {
        self.file_size
    }

    /// Whether `ev` answers what the test waits for, and the counts of bytes
    /// and files can take it.
    pub fn accepts(&self, ev: &TestEvent) -> (r: bool)
        requires
            self.wf(),
        ensures
            r == self@.accepts(ev@),
    {
        match ev {
            TestEvent::Free(_) => {
                self.stage == TestStage::Free || self.stage == TestStage::Space
            },
            TestEvent::Stop(_) => {
                self.stage == TestStage::CheckStop || self.stage == TestStage::VerifyStop
            },
            TestEvent::Exists(_) => self.stage == TestStage::Exists,
            TestEvent::Wrote(Ok((_, wrote))) => {
                self.stage == TestStage::Write && *wrote <= u64::MAX - self.total_write
                    && self.hashes.len() as u64 <= u64::MAX - 2
            },
            TestEvent::Wrote(Err(_)) => self.stage == TestStage::Write,
            TestEvent::Read(Ok(Some((_, bytes)))) => {
                self.stage == TestStage::Read && *bytes <= u64::MAX - self.verified
            },
            TestEvent::Read(_) => self.stage == TestStage::Read,
        }
    }

    /// Reports how the test ended.
    fn close(&self, out: &mut Vec<Report>)
        ensures
            report::report_views(final(out)@) == report::report_views(old(out)@) + closing(
                self@.errors,
            ),
    {
        let ghost before = report::report_views(out@);
        emit(out, log1(lit("===== 全盘测试结果 =====")));
        emit(
            out,
            log2(lit("错误文件数："), Piece::Text(decimal_text(self.errors as u64))),
        );
        if self.errors == 0 {
            emit(out, log1(lit("✅ 全部校验通过")));
        } else {
            emit(out, log1(lit("❌ 检测到数据损坏：扩容盘 / 闪存坏块")));
        }
        emit(out, Report::Finished);
        assert(report::report_views(out@) =~= before + closing(self@.errors));
    }

    /// Goes on from the writing to the reading.
    fn end_writing(&mut self, out: &mut Vec<Report>)
        requires
            old(self).wf(),
            old(self)@.is_writing(),
        ensures
            final(self).wf(),
            final(self)@ == old(self)@.done_writing(),
            report::report_views(final(out)@) == report::report_views(old(out)@) + end_of_writing(
                old(self)@.total_write,
                old(self)@.hashes.len(),
            ),
    {
        let ghost before = report::report_views(out@);
        emit(
            out,
            log3(lit("写入完成，总写入 "), Piece::Gb(self.total_write), lit(" GB")),
        );
        emit(out, log1(lit("----- 开始回读校验 -----")));
        if self.hashes.len() == 0 {
            self.stage = TestStage::Done;
            self.close(out);
        } else {
            self.stage = TestStage::VerifyStop;
        }
        assert(report::report_views(out@) =~= before + end_of_writing(
            old(self)@.total_write,
            old(self)@.hashes.len(),
        ));
    }

    /// Counts the file that was read back, and goes on to the next.
    fn end_file(&mut self, bytes: u64, bad: bool, out: &mut Vec<Report>)
        requires
            old(self).wf(),
            old(self)@.stage == TestStage::Read,
            old(self)@.verified + bytes <= u64::MAX,
        ensures
            final(self).wf(),
            final(self)@ == old(self)@.done_file(bytes, bad),
            report::report_views(final(out)@) == report::report_views(old(out)@)
                + final(self)@.closing_if_done(),
    {
        let ghost before = report::report_views(out@);
        let files: usize = self.hashes.len();
        self.checked = self.checked + 1;
        self.verified = self.verified + bytes;
        if bad {
            self.errors = self.errors + 1;
        }
        if self.checked == files {
            self.stage = TestStage::Done;
            self.close(out);
        } else {
            self.stage = TestStage::VerifyStop;
        }
        assert(report::report_views(out@) =~= before + self@.closing_if_done());
    }

    /// Takes what came of the request, and says what is to be reported.
    pub fn step(&mut self, ev: TestEvent) -> (out: Vec<Report>)
        requires
            old(self).wf(),
            old(self)@.accepts(ev@),
        ensures
            final(self).wf(),
            final(self)@ == old(self)@.next(ev@),
            report::report_views(out@) == old(self)@.reports(ev@),
    {
        let mut out: Vec<Report> = Vec::new();
        assert(report::report_views(out@) =~= Seq::empty());
        let ghost s = self@;
        let ghost e = ev@;
        match ev {
            TestEvent::Free(free) => {
                if self.stage == TestStage::Free {
                    match free {
                        None => {
                            emit(&mut out, log1(lit("获取磁盘空间失败")));
                            emit(&mut out, Report::Finished);
                            self.stage = TestStage::Done;
                        },
                        Some(f) => {
                            emit(
                                &mut out,
                                log3(lit("盘符剩余空间 "), Piece::Gb(f), lit(" GB")),
                            );
                            self.est_total = if f >= SPACE_MARGIN {
                                f - SPACE_MARGIN
                            } else {
                                0
                            };
                            emit(&mut out, progress1(lit("写入阶段"), 0, self.est_total));
                            self.stage = TestStage::CheckStop;
                        },
                    }
                } else {
                    let space: u64 = match free {
                        Some(f) => f,
                        None => 0,
                    };
                    if has_enough_space(space, self.file_size) {
                        self.stage = TestStage::Exists;
                    } else {
                        emit(
                            &mut out,
                            log3(lit("剩余空间不足，停止写入。剩余 "), Piece::Gb(space), lit(" GB")),
                        );
                        self.end_writing(&mut out);
                    }
                }
            },
            TestEvent::Stop(stop) => {
                if self.stage == TestStage::CheckStop {
                    if stop {
                        emit(&mut out, log1(lit("用户终止写入阶段")));
                        self.end_writing(&mut out);
                    } else {
                        self.stage = TestStage::Space;
                    }
                } else if stop {
                    self.stage = TestStage::Done;
                    self.close(&mut out);
                } else {
                    emit(
                        &mut out,
                        log2(
                            lit("校验 "),
                            Piece::Text(quoted_test_file_name(self.checked as u64 + 1)),
                        ),
                    );
                    self.stage = TestStage::Read;
                }
            },
            TestEvent::Exists(exists) => {
                let index: u64 = self.hashes.len() as u64 + 1;
                if exists {
                    emit(
                        &mut out,
                        log3(
                            lit("⚠ "),
                            Piece::Text(quoted_test_file_name(index)),
                            lit(" 已存在，将被覆盖"),
                        ),
                    );
                }
                emit(&mut out, log2(lit("写入 "), Piece::Text(quoted_test_file_name(index))));
                self.stage = TestStage::Write;
            },
            TestEvent::Wrote(Ok((hash, wrote))) => {
                self.total_write = self.total_write + wrote;
                self.hashes.push(hash);
                let phase = pieces5(
                    lit("写入阶段 "),
                    Piece::Gb(self.total_write),
                    lit(" GB / 预计 "),
                    Piece::Gb(self.est_total),
                    lit(" GB"),
                );
                emit(
                    &mut out,
                    Report::Progress { phase, cur: self.total_write, total: self.est_total },
                );
                self.stage = TestStage::CheckStop;
            },
            TestEvent::Wrote(Err(why)) => {
                emit(
                    &mut out,
                    log4(
                        lit("写入失败 "),
                        Piece::Text(quoted_test_file_name(self.hashes.len() as u64 + 1)),
                        lit(": "),
                        Piece::Text(why),
                    ),
                );
                self.end_writing(&mut out);
            },
            TestEvent::Read(Ok(Some((hash, bytes)))) => {
                let verified: u64 = self.verified + bytes;
                let phase = pieces5(
                    lit("校验阶段 "),
                    Piece::Gb(verified),
                    lit(" GB / "),
                    Piece::Gb(self.total_write),
                    lit(" GB"),
                );
                emit(
                    &mut out,
                    Report::Progress { phase, cur: verified, total: self.total_write },
                );
                let name = Piece::Text(quoted_test_file_name(self.checked as u64 + 1));
                let bad: bool = hash != self.hashes[self.checked];
                if bad {
                    emit(&mut out, log3(lit("❌ "), name, lit(" 校验失败，数据损坏")));
                } else {
                    emit(&mut out, log3(lit("✅ "), name, lit(" 校验通过")));
                }
                self.end_file(bytes, bad, &mut out);
            },
            TestEvent::Read(Ok(None)) => {
                emit(
                    &mut out,
                    log2(
                        lit("用户终止校验 "),
                        Piece::Text(quoted_test_file_name(self.checked as u64 + 1)),
                    ),
                );
                self.stage = TestStage::Done;
                self.close(&mut out);
            },
            TestEvent::Read(Err(why)) => {
                emit(
                    &mut out,
                    log4(
                        lit("读取失败 "),
                        Piece::Text(quoted_test_file_name(self.checked as u64 + 1)),
                        lit(": "),
                        Piece::Text(why),
                    ),
                );
                self.end_file(0, true, &mut out);
            },
        }
        assert(self@ =~= s.next(e));
        assert(report::report_views(out@) =~= s.reports(e));
        out
    }
}

} // verus!
