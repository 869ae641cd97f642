//! The state behind the window.
//!
//! What the log says carries the time of day. Each operation that writes to
//! the log comes twice: the one that is given the time says all it does, and
//! the other takes the time from the clock. Messages of a task are taken one by
//! one where the time is given.

use std::collections::VecDeque;
use vstd::prelude::*;
use vstd::string::*;
use crate::clock;
use crate::clock::now;
use crate::drives;
use crate::drives::list_drives;
use crate::report;
use crate::report::{MsgView, ProgressInfo, ProgressView, TaskMsg};
use crate::text;
use crate::text::decimal_text;

verus! {

/// The lines that the log keeps.
pub const LOG_LIMIT: usize = 200;

/// The megabytes of a test file, unless the user wants otherwise.
pub const DEFAULT_FILE_SIZE_MB: u64 = 1024;

/// The fewest megabytes that a user can give a test file.
pub const MIN_FILE_SIZE_MB: u64 = 100;

/// The most megabytes that a user can give a test file.
pub const MAX_FILE_SIZE_MB: u64 = 4096;

/// The state behind the window. `Tx` and `Rx` are the ends of the channel on
/// which a background task sends its messages.
pub struct AppState<Tx, Rx> {
    /// The roots of the drives that can be tested.
    pub drives: Vec<String>,
    /// The root of the drive to test; empty where there is none.
    pub selected_drive: String,
    /// The megabytes of a test file.
    pub file_size_mb: u64,
    /// Whether a background task runs.
    pub running: bool,
    /// The number of the tab that is shown.
    pub selected_tab: usize,
    pub task_tx: Option<Tx>,
    pub task_rx: Option<Rx>,
    /// The log, its oldest line in front.
    pub log_queue: VecDeque<String>,
    /// Whether the background task is to stop.
    pub stop_flag: bool,
    /// How far the background task has come.
    pub progress: ProgressInfo,
    /// Whether the fonts are set up.
    pub fonts_ready: bool,
}

/// A log line.
pub open spec fn stamped(time: Seq<char>, msg: Seq<char>) -> Seq<char> {
    "["@ + time + "] "@ + msg
}

/// `lines` with one more; where the log is full, the oldest goes.
pub open spec fn push_line(lines: Seq<Seq<char>>, line: Seq<char>) -> Seq<Seq<char>> {
    if lines.len() < LOG_LIMIT {
        lines.push(line)
    } else {
        lines.push(line).drop_first()
    }
}

/// `lines` after `msgs` are logged at `times`, one after the other.
pub open spec fn logged(
    lines: Seq<Seq<char>>,
    msgs: Seq<Seq<char>>,
    times: Seq<Seq<char>>,
) -> Seq<Seq<char>>
    decreases msgs.len(),
{
    if msgs.len() == 0 {
        lines
    } else {
        push_line(
            logged(lines, msgs.drop_last(), times),
            stamped(times[msgs.len() - 1], msgs.last()),
        )
    }
}

/// Whether `times` are times that the clock showed, one for each of `n` log
/// lines.
pub open spec fn are_times(times: Seq<Seq<char>>, n: nat) -> bool {
    &&& times.len() == n
    &&& forall|i: int|
        0 <= i < n ==> clock::is_time_of_day(#[trigger] times[i]) && clock::shown(times[i])
}

/// The texts of the log messages among `msgs`.
pub open spec fn log_texts(msgs: Seq<MsgView>) -> Seq<Seq<char>>
    decreases msgs.len(),
{
    if msgs.len() == 0 {
        Seq::empty()
    } else {
        match msgs.last() {
            MsgView::Log(s) => log_texts(msgs.drop_last()).push(s),
            _ => log_texts(msgs.drop_last()),
        }
    }
}

/// The progress that is shown after `msgs`.
pub open spec fn progress_after(before: ProgressView, msgs: Seq<MsgView>) -> ProgressView
    decreases msgs.len(),
{
    if msgs.len() == 0 {
        before
    } else {
        match msgs.last() {
            MsgView::Log(_) => progress_after(before, msgs.drop_last()),
            MsgView::Progress(p) => p,
            MsgView::Finished => report::no_progress(),
        }
    }
}

/// How many of `flags` are set.
pub open spec fn set_count(flags: Seq<bool>) -> nat
    decreases flags.len(),
{
    if flags.len() == 0 {
        0
    } else {
        set_count(flags.drop_last()) + if flags.last() {
            1nat
        } else {
            0nat
        }
    }
}

/// What came of looking for a font with Chinese glyphs. Paths and reasons are
/// texts for the log.
#[derive(Debug)]
pub enum FontOutcome {
    Loaded(String),
    Unreadable(String, String),
    Missing,
}

/// What the log says on looking for a font.
pub open spec fn font_line(outcome: FontOutcome) -> Seq<char> {
    match outcome {
        FontOutcome::Loaded(path) => "已加载中文字体："@ + path@,
        FontOutcome::Unreadable(path, why) => "中文字体读取失败 "@ + path@ + "："@ + why@,
        FontOutcome::Missing =>
            "未找到中文字体，中文可能显示为方块；建议安装 fonts-noto-cjk（Linux）"@,
    }
}

/// What the log says once the drives are listed.
pub open spec fn drives_line(present: Seq<bool>) -> Seq<char> {
    "盘符刷新完成，已排除C盘：["@ + drives::shown_drives(present, 26) + "]"@
}

/// What the log says once `n` test files are removed.
pub open spec fn cleaned_line(n: nat) -> Seq<char> {
    "清理完成，删除测试文件数量："@ + text::decimal(n)
}

/// The panels of the window.
#[derive(Debug, Clone, Copy, PartialEq, Eq, Structural)]
pub enum Panel {
    FullTest,
    Benchmark,
    Usb,
}

/// The buttons of the window.
#[derive(Debug, Clone, Copy, PartialEq, Eq, Structural)]
pub enum Button {
    RefreshDrives,
    StartFullTest,
    Stop,
    CleanTestFiles,
    StartBenchmark,
    CleanBenchFile,
    ReadUsb,
}

/// Whether a button starts a background task.
pub open spec fn starts_task(button: Button) -> bool {
    button == Button::StartFullTest || button == Button::StartBenchmark || button
        == Button::ReadUsb
}

proof fn later_times_do_not_count(
    lines: Seq<Seq<char>>,
    msgs: Seq<Seq<char>>,
    times: Seq<Seq<char>>,
    later: Seq<char>,
)
    requires
        msgs.len() <= times.len(),
    ensures
        logged(lines, msgs, times.push(later)) == logged(lines, msgs, times),
    decreases msgs.len(),
{
    if msgs.len() > 0 {
        later_times_do_not_count(lines, msgs.drop_last(), times, later);
    }
}

proof fn contains_after_push(msgs: Seq<MsgView>, msg: MsgView)
    ensures
        msgs.push(msg).contains(MsgView::Finished) <==> msgs.contains(MsgView::Finished) || msg
            == MsgView::Finished,
{
    let all = msgs.push(msg);
    if msgs.contains(MsgView::Finished) {
        let i = choose|i: int| 0 <= i < msgs.len() && msgs[i] == MsgView::Finished;
        assert(all[i] == MsgView::Finished);
    }
    if msg == MsgView::Finished {
        assert(all[msgs.len() as int] == MsgView::Finished);
    }
}

impl<Tx, Rx> Default for AppState<Tx, Rx> {
    fn default() -> (r: Self)
        ensures
            r.wf(),
            r.drives@.len() == 0,
            r.selected_drive@.len() == 0,
            r.file_size_mb == 0,
            !r.running,
            r.selected_tab == 0,
            r.task_tx is None,
            r.task_rx is None,
            r.log_queue@.len() == 0,
            !r.stop_flag,
            r.progress@ == report::no_progress(),
            !r.fonts_ready,
    {
        AppState {
            drives: Vec::new(),
            selected_drive: String::new(),
            file_size_mb: 0,
            running: false,
            selected_tab: 0,
            task_tx: None,
            task_rx: None,
            log_queue: VecDeque::new(),
            stop_flag: false,
            progress: ProgressInfo::default(),
            fonts_ready: false,
        }
    }
}

impl<Tx, Rx> AppState<Tx, Rx> {
    /// The lines of the log.
    pub open spec fn lines(self) -> Seq<Seq<char>> {
        report::texts(self.log_queue@)
    }

    /// The log is within its limit.
    pub open spec fn wf(self) -> bool {
        self.lines().len() <= LOG_LIMIT
    }

    /// Whether `self` differs from `old` in the log alone.
    pub open spec fn only_log_differs(self, old: Self) -> bool {
        self == AppState { log_queue: self.log_queue, ..old }
    }

    /// Whether `self` is `old` with `msg` logged at `time`.
    pub open spec fn has_logged(self, old: Self, time: Seq<char>, msg: Seq<char>) -> bool {
        self.lines() == push_line(old.lines(), stamped(time, msg))
    }

    /// Whether `self` is `old` after a look at the drives at `time`, where
    /// `present` says which there are: the list is new, the first drive is
    /// selected where none was, and the log says so.
    pub open spec fn has_refreshed(self, old: Self, time: Seq<char>, present: Seq<bool>) -> bool {
        let list = drives::drive_list(present, 26);
        &&& report::texts(self.drives@) == list
        &&& self.selected_drive@ == if old.selected_drive@.len() == 0 && list.len() > 0 {
            list[0]
        } else {
            old.selected_drive@
        }
        &&& self.has_logged(old, time, drives_line(present))
        &&& self == AppState {
            drives: self.drives,
            selected_drive: self.selected_drive,
            log_queue: self.log_queue,
            ..old
        }
    }

    /// Whether `self` is a fresh state after a look at the drives.
    pub open spec fn is_new(self, time: Seq<char>, present: Seq<bool>) -> bool {
        let list = drives::drive_list(present, 26);
        &&& report::texts(self.drives@) == list
        &&& self.selected_drive@ == if list.len() > 0 {
            list[0]
        } else {
            Seq::empty()
        }
        &&& self.lines() == seq![stamped(time, drives_line(present))]
        &&& self.file_size_mb == DEFAULT_FILE_SIZE_MB
        &&& !self.running
        &&& self.selected_tab == 0
        &&& self.task_tx is None
        &&& self.task_rx is None
        &&& !self.stop_flag
        &&& self.progress@ == report::no_progress()
        &&& !self.fonts_ready
    }

    /// Logs `msg` at `time`.
    pub fn log_at(&mut self, time: &str, msg: String)
        ensures
            old(self).wf() ==> final(self).wf(),
            final(self).has_logged(*old(self), time@, msg@),
            final(self).only_log_differs(*old(self)),
    {
        let mut line = "[".to_owned();
        line.append(time);
        line.append("] ");
        line.append(msg.as_str());
        self.log_queue.push_back(line);
        assert(report::texts(self.log_queue@) =~= old(self).lines().push(stamped(time@, msg@)));
        if self.log_queue.len() > LOG_LIMIT {
            let ghost full = self.log_queue@;
            self.log_queue.pop_front();
            assert(report::texts(self.log_queue@) =~= report::texts(full).drop_first());
        }
    }

    /// Logs `msg`.
    pub fn log(&mut self, msg: String)
        ensures
            old(self).wf() ==> final(self).wf(),
            exists|t: Seq<char>|
                clock::is_time_of_day(t) && clock::shown(t) && #[trigger] final(self).has_logged(
                    *old(self),
                    t,
                    msg@,
                ),
            final(self).only_log_differs(*old(self)),
    {
        let time = now();
        self.log_at(time.as_str(), msg);
    }

    /// A fresh state, with the drives that are there at `time`.
    pub fn new_at(present: &Vec<bool>, time: &str) -> (r: Self)
        requires
            present@.len() == 26,
        ensures
            r.wf(),
            r.is_new(time@, present@),
    {
        let mut r = AppState::default();
        r.file_size_mb = DEFAULT_FILE_SIZE_MB;
        assert(r.lines().len() == 0);
        assert(r.selected_drive@ =~= Seq::empty());
        r.refresh_drives_at(present, time);
        assert(r.lines() =~= seq![stamped(time@, drives_line(present@))]);
        r
    }

    /// A fresh state, where `present` says of each letter whether there is such
    /// a drive.
    pub fn new(present: &Vec<bool>) -> (r: Self)
        requires
            present@.len() == 26,
        ensures
            r.wf(),
            exists|t: Seq<char>| clock::is_time_of_day(t) && clock::shown(t) && #[trigger] r.is_new(t, present@),
    {
        let time = now();
        AppState::new_at(present, time.as_str())
    }

    /// Lists the drives anew at `time`.
    pub fn refresh_drives_at(&mut self, present: &Vec<bool>, time: &str)
        requires
            present@.len() == 26,
        ensures
            old(self).wf() ==> final(self).wf(),
            final(self).has_refreshed(*old(self), time@, present@),
    {
        let (list, shown) = list_drives(present);
        assert(report::texts(list@).len() == list@.len());
        if list.len() > 0 && self.selected_drive.as_str().is_empty() {
            assert(report::texts(list@)[0] == list@[0]@);
            self.selected_drive = list[0].clone();
        }
        self.drives = list;
        let mut msg = "盘符刷新完成，已排除C盘：[".to_owned();
        msg.append(shown.as_str());
        msg.append("]");
        self.log_at(time, msg);
    }

    /// Lists the drives anew, where `present` says of each letter whether there
    /// is such a drive.
    pub fn refresh_drives(&mut self, present: &Vec<bool>)
        requires
            present@.len() == 26,
        ensures
            old(self).wf() ==> final(self).wf(),
            exists|t: Seq<char>|
                clock::is_time_of_day(t) && clock::shown(t) && #[trigger] final(self).has_refreshed(
                    *old(self),
                    t,
                    present@,
                ),
    {
        let time = now();
        self.refresh_drives_at(present, time.as_str());
    }

    /// Logs at `time` how many test files were removed: `removed` says of each
    /// whether it was.
    pub fn clean_test_files_at(&mut self, removed: &Vec<bool>, time: &str)
        ensures
            old(self).wf() ==> final(self).wf(),
            final(self).has_logged(*old(self), time@, cleaned_line(set_count(removed@))),
            final(self).only_log_differs(*old(self)),
    {
        let mut n: u64 = 0;
        let mut i: usize = 0;
        while i < removed.len()
            invariant
                i <= removed@.len(),
                n <= i,
                n == set_count(removed@.take(i as int)),
            decreases removed@.len() - i,
        {
            assert(removed@.take(i + 1).drop_last() =~= removed@.take(i as int));
            if removed[i] {
                n = n + 1;
            }
            i = i + 1;
        }
        assert(removed@.take(i as int) =~= removed@);
        let mut msg = "清理完成，删除测试文件数量：".to_owned();
        msg.append(decimal_text(n).as_str());
        self.log_at(time, msg);
    }

    /// Logs how many test files were removed: `removed` says of each whether it
    /// was.
    pub fn clean_test_files(&mut self, removed: &Vec<bool>)
        ensures
            old(self).wf() ==> final(self).wf(),
            exists|t: Seq<char>|
                clock::is_time_of_day(t) && clock::shown(t) && #[trigger] final(self).has_logged(
                    *old(self),
                    t,
                    cleaned_line(set_count(removed@)),
                ),
            final(self).only_log_differs(*old(self)),
    {
        let time = now();
        self.clean_test_files_at(removed, time.as_str());
    }

    /// Logs at `time` that the benchmark's file is removed, where it was there.
    pub fn clean_bench_file_at(&mut self, existed: bool, time: &str)
        ensures
            old(self).wf() ==> final(self).wf(),
            existed ==> final(self).has_logged(*old(self), time@, "测速临时文件已删除"@),
            final(self).only_log_differs(*old(self)),
            !existed ==> *final(self) == *old(self),
    {
        if existed {
            self.log_at(time, "测速临时文件已删除".to_owned());
        }
    }

    /// Logs that the benchmark's file is removed, where it was there.
    pub fn clean_bench_file(&mut self, existed: bool)
        ensures
            old(self).wf() ==> final(self).wf(),
            existed ==> exists|t: Seq<char>|
                clock::is_time_of_day(t) && clock::shown(t) && #[trigger] final(self).has_logged(
                    *old(self),
                    t,
                    "测速临时文件已删除"@,
                ),
            final(self).only_log_differs(*old(self)),
            !existed ==> *final(self) == *old(self),
    {
        if existed {
            let time = now();
            self.clean_bench_file_at(existed, time.as_str());
        }
    }

    /// Logs at `time` what came of looking for a font.
    pub fn setup_cjk_fonts_at(&mut self, outcome: FontOutcome, time: &str)
        ensures
            old(self).wf() ==> final(self).wf(),
            final(self).has_logged(*old(self), time@, font_line(outcome)),
            final(self).only_log_differs(*old(self)),
    {
        let ghost line = font_line(outcome);
        let msg = match outcome {
            FontOutcome::Loaded(path) => {
                let mut msg = "已加载中文字体：".to_owned();
                msg.append(path.as_str());
                msg
            },
            FontOutcome::Unreadable(path, why) => {
                let mut msg = "中文字体读取失败 ".to_owned();
                msg.append(path.as_str());
                msg.append("：");
                msg.append(why.as_str());
                msg
            },
            FontOutcome::Missing => {
                "未找到中文字体，中文可能显示为方块；建议安装 fonts-noto-cjk（Linux）".to_owned()
            },
        };
        assert(msg@ =~= line);
        self.log_at(time, msg);
    }

    /// Logs what came of looking for a font.
    pub fn setup_cjk_fonts(&mut self, outcome: FontOutcome)
        ensures
            old(self).wf() ==> final(self).wf(),
            exists|t: Seq<char>|
                clock::is_time_of_day(t) && clock::shown(t) && #[trigger] final(self).has_logged(
                    *old(self),
                    t,
                    font_line(outcome),
                ),
            final(self).only_log_differs(*old(self)),
    {
        let time = now();
        self.setup_cjk_fonts_at(outcome, time.as_str());
    }

    /// Whether the fonts have yet to be set up. From then on they count as set
    /// up.
    pub fn wants_fonts(&mut self) -> (r: bool)
        ensures
            r == !old(self).fonts_ready,
            *final(self) == (AppState { fonts_ready: true, ..*old(self) }),
    {
        let r: bool = !self.fonts_ready;
        self.fonts_ready = true;
        r
    }

    /// Whether `self` is `old` with a background task that has just begun.
    pub open spec fn has_begun(self, old: Self, tx: Tx, rx: Rx, progress: ProgressView) -> bool {
        &&& self == AppState {
            running: true,
            stop_flag: false,
            task_tx: Some(tx),
            task_rx: Some(rx),
            progress: self.progress,
            ..old
        }
        &&& self.progress@ == progress
    }

    fn begin(&mut self, tx: Tx, rx: Rx)
        ensures
            *final(self) == (AppState {
                running: true,
                stop_flag: false,
                task_tx: Some(tx),
                task_rx: Some(rx),
                ..*old(self)
            }),
    {
        self.running = true;
        self.stop_flag = false;
        self.task_tx = Some(tx);
        self.task_rx = Some(rx);
    }

    /// Begins the test of the selected drive, unless a task runs or no drive is
    /// selected. Returns the drive and the megabytes of a test file.
    pub fn start_full_test(&mut self, tx: Tx, rx: Rx) -> (r: Option<(String, u64)>)
        ensures
            r is None <==> old(self).running || old(self).selected_drive@.len() == 0,
            r is None ==> *final(self) == *old(self),
            r matches Some((drive, mb)) ==> {
                &&& drive@ == old(self).selected_drive@
                &&& mb == old(self).file_size_mb
                &&& final(self).has_begun(*old(self), tx, rx, report::no_progress())
            },
    {
        if self.running || self.selected_drive.as_str().is_empty() {
            return None;
        }
        self.begin(tx, rx);
        self.progress = ProgressInfo::default();
        Some((self.selected_drive.clone(), self.file_size_mb))
    }

    /// Begins the benchmark of the selected drive, unless a task runs or no
    /// drive is selected. Returns the drive.
    pub fn run_benchmark(&mut self, tx: Tx, rx: Rx) -> (r: Option<String>)
        ensures
            r is None <==> old(self).running || old(self).selected_drive@.len() == 0,
            r is None ==> *final(self) == *old(self),
            r matches Some(drive) ==> {
                &&& drive@ == old(self).selected_drive@
                &&& final(self).has_begun(*old(self), tx, rx, report::no_progress())
            },
    {
        if self.running || self.selected_drive.as_str().is_empty() {
            return None;
        }
        self.begin(tx, rx);
        self.progress = ProgressInfo::default();
        Some(self.selected_drive.clone())
    }

    /// Begins the listing of the USB devices, unless a task runs. Returns
    /// whether it did. The progress stays as it was.
    pub fn read_usb_vid_pid(&mut self, tx: Tx, rx: Rx) -> (r: bool)
        ensures
            r == !old(self).running,
            !r ==> *final(self) == *old(self),
            r ==> final(self).has_begun(*old(self), tx, rx, old(self).progress@),
    {
        if self.running {
            return false;
        }
        self.begin(tx, rx);
        true
    }

    /// Tells the background task to stop, and logs it at `time`.
    pub fn stop_test_at(&mut self, time: &str)
        ensures
            old(self).wf() ==> final(self).wf(),
            final(self).has_logged(*old(self), time@, "发送停止信号，后台任务正在退出"@),
            *final(self) == (AppState {
                stop_flag: true,
                log_queue: final(self).log_queue,
                ..*old(self)
            }),
    {
        self.stop_flag = true;
        self.log_at(time, "发送停止信号，后台任务正在退出".to_owned());
    }

    /// Tells the background task to stop, and logs it.
    pub fn stop_test(&mut self)
        ensures
            old(self).wf() ==> final(self).wf(),
            exists|t: Seq<char>|
                clock::is_time_of_day(t) && clock::shown(t) && #[trigger] final(self).has_logged(
                    *old(self),
                    t,
                    "发送停止信号，后台任务正在退出"@,
                ),
            *final(self) == (AppState {
                stop_flag: true,
                log_queue: final(self).log_queue,
                ..*old(self)
            }),
    {
        let time = now();
        self.stop_test_at(time.as_str());
    }

    /// Takes a message of the background task: a log line, the progress, or
    /// that the task is over. Only a log line has to do with `time`, at which it
    /// comes.
    pub fn receive_at(&mut self, msg: TaskMsg, time: &str)
        ensures
            old(self).wf() ==> final(self).wf(),
            match msg@ {
                MsgView::Log(s) => {
                    &&& final(self).has_logged(*old(self), time@, s)
                    &&& final(self).only_log_differs(*old(self))
                },
                MsgView::Progress(p) => {
                    &&& final(self).progress@ == p
                    &&& *final(self) == (AppState {
                        progress: final(self).progress,
                        ..*old(self)
                    })
                },
                MsgView::Finished => {
                    &&& final(self).progress@ == report::no_progress()
                    &&& *final(self) == (AppState {
                        running: false,
                        task_tx: None,
                        task_rx: None,
                        progress: final(self).progress,
                        ..*old(self)
                    })
                },
            },
    {
        match msg {
            TaskMsg::Log(s) => {
                self.log_at(time, s);
            },
            TaskMsg::Progress(p) => {
                self.progress = p;
            },
            TaskMsg::Finished => {
                self.running = false;
                self.task_tx = None;
                self.task_rx = None;
                self.progress = ProgressInfo::default();
            },
        }
    }

    /// Takes the messages that the background task has sent, in their order.
    pub fn poll_messages(&mut self, msgs: Vec<TaskMsg>)
        ensures
            old(self).wf() ==> final(self).wf(),
            final(self).running == (old(self).running && !report::msg_views(msgs@).contains(
                MsgView::Finished,
            )),
            final(self).task_tx == (if report::msg_views(msgs@).contains(MsgView::Finished) {
                None
            } else {
                old(self).task_tx
            }),
            final(self).task_rx == (if report::msg_views(msgs@).contains(MsgView::Finished) {
                None
            } else {
                old(self).task_rx
            }),
            final(self).progress@ == progress_after(
                old(self).progress@,
                report::msg_views(msgs@),
            ),
            exists|times: Seq<Seq<char>>| #[trigger]
                are_times(times, log_texts(report::msg_views(msgs@)).len()) && final(self).lines()
                    == logged(old(self).lines(), log_texts(report::msg_views(msgs@)), times),
            *final(self) == (AppState {
                running: final(self).running,
                task_tx: final(self).task_tx,
                task_rx: final(self).task_rx,
                progress: final(self).progress,
                log_queue: final(self).log_queue,
                ..*old(self)
            }),
    {
        let ghost all = report::msg_views(msgs@);
        let ghost mut times: Seq<Seq<char>> = Seq::empty();
        for msg in it: msgs
            invariant
                all == report::msg_views(it.seq()),
                old(self).wf() ==> self.wf(),
                ({
                    let seen = all.take(it.index() as int);
                    let over = seen.contains(MsgView::Finished);
                    &&& self.running == (old(self).running && !over)
                    &&& self.task_tx == (if over {
                        None
                    } else {
                        old(self).task_tx
                    })
                    &&& self.task_rx == (if over {
                        None
                    } else {
                        old(self).task_rx
                    })
                    &&& self.progress@ == progress_after(old(self).progress@, seen)
                    &&& are_times(times, log_texts(seen).len())
                    &&& self.lines() == logged(old(self).lines(), log_texts(seen), times)
                    &&& *self == (AppState {
                        running: self.running,
                        task_tx: self.task_tx,
                        task_rx: self.task_rx,
                        progress: self.progress,
                        log_queue: self.log_queue,
                        ..*old(self)
                    })
                }),
        {
            let ghost i = it.index() as int;
            let time = match &msg {
                TaskMsg::Log(_) => now(),
                _ => String::new(),
            };
            proof {
                let seen = all.take(i);
                assert(all.take(i + 1).drop_last() =~= seen);
                assert(all[i] == msg@);
                assert(all.take(i + 1) =~= seen.push(msg@));
                contains_after_push(seen, msg@);
                if let MsgView::Log(text) = msg@ {
                    later_times_do_not_count(old(self).lines(), log_texts(seen), times, time@);
                    times = times.push(time@);
                    assert(log_texts(seen).push(text).drop_last() =~= log_texts(seen));
                }
            }
            self.receive_at(msg, time.as_str());
        }
        assert(all.take(all.len() as int) =~= all);
    }

    /// The panel of the tab that is shown.
    pub fn panel(&self) -> (r: Option<Panel>)
        ensures
            r == (if self.selected_tab == 0 {
                Some(Panel::FullTest)
            } else if self.selected_tab == 1 {
                Some(Panel::Benchmark)
            } else if self.selected_tab == 2 {
                Some(Panel::Usb)
            } else {
                None
            }),
    {
        match self.selected_tab {
            0 => Some(Panel::FullTest),
            1 => Some(Panel::Benchmark),
            2 => Some(Panel::Usb),
            _ => None,
        }
    }

    /// Whether a click on `button` has any effect: nothing starts a task while
    /// another runs.
    pub fn allows(&self, button: Button) -> (r: bool)
        ensures
            r == !(self.running && starts_task(button)),
    {
        match button {
            Button::StartFullTest => !self.running,
            Button::StartBenchmark => !self.running,
            Button::ReadUsb => !self.running,
            _ => true,
        }
    }
}

/// The last `LOG_LIMIT` of `lines`.
pub open spec fn latest(lines: Seq<Seq<char>>) -> Seq<Seq<char>> {
    if lines.len() <= LOG_LIMIT {
        lines
    } else {
        lines.skip(lines.len() - LOG_LIMIT)
    }
}

/// The log keeps its newest lines in their order: after any number of
/// messages it holds the last ones of what it held and what was added.
pub proof fn log_keeps_the_latest(
    lines: Seq<Seq<char>>,
    msgs: Seq<Seq<char>>,
    times: Seq<Seq<char>>,
)
    requires
        lines.len() <= LOG_LIMIT,
        times.len() == msgs.len(),
    ensures
        logged(lines, msgs, times) == latest(
            lines + Seq::new(msgs.len(), |i: int| stamped(times[i], msgs[i])),
        ),
        logged(lines, msgs, times).len() <= LOG_LIMIT,
    decreases msgs.len(),
{
    let added = Seq::new(msgs.len(), |i: int| stamped(times[i], msgs[i]));
    if msgs.len() == 0 {
        assert(lines + added =~= lines);
    } else {
        let before = msgs.drop_last();
        let earlier = times.drop_last();
        assert(times =~= earlier.push(times.last()));
        later_times_do_not_count(lines, before, earlier, times.last());
        log_keeps_the_latest(lines, before, earlier);
        let fewer = Seq::new(before.len(), |i: int| stamped(earlier[i], before[i]));
        let line = stamped(times.last(), msgs.last());
        assert(lines + added =~= (lines + fewer).push(line));
        let kept = latest(lines + fewer);
        assert(logged(lines, msgs, times) == push_line(kept, line));
        assert(push_line(kept, line) =~= latest((lines + fewer).push(line)));
    }
}

/// Once the last message of a task is that it is over, no task runs and no
/// progress is shown.
pub proof fn finished_task_leaves_nothing(before: ProgressView, msgs: Seq<MsgView>)
    requires
        msgs.len() > 0,
        msgs.last() == MsgView::Finished,
    ensures
        msgs.contains(MsgView::Finished),
        progress_after(before, msgs) == report::no_progress(),
{
    assert(msgs[msgs.len() - 1] == MsgView::Finished);
}

/// Messages can be taken in any portions: what is shown and logged is the same
/// as if they were taken at once.
pub proof fn portions_do_not_matter(before: ProgressView, first: Seq<MsgView>, second: Seq<MsgView>)
    ensures
        progress_after(before, first + second) == progress_after(
            progress_after(before, first),
            second,
        ),
        log_texts(first + second) == log_texts(first) + log_texts(second),
        (first + second).contains(MsgView::Finished) <==> first.contains(MsgView::Finished)
            || second.contains(MsgView::Finished),
    decreases second.len(),
{
    let all = first + second;
    if second.len() == 0 {
        assert(all =~= first);
        assert(log_texts(first) + log_texts(second) =~= log_texts(first));
    } else {
        portions_do_not_matter(before, first, second.drop_last());
        assert(all.drop_last() =~= first + second.drop_last());
        assert(all.last() == second.last());
        assert(all =~= (first + second.drop_last()).push(second.last()));
        assert(second =~= second.drop_last().push(second.last()));
        contains_after_push(first + second.drop_last(), second.last());
        contains_after_push(second.drop_last(), second.last());
        assert(log_texts(all) =~= log_texts(first) + log_texts(second));
    }
}

/// A log line is the time in square brackets, a space and the message.
pub proof fn lines_are_stamped(time: Seq<char>, msg: Seq<char>)
    ensures
        stamped(time, msg).len() == time.len() + msg.len() + 3,
        stamped(time, msg)[0] == '[',
        stamped(time, msg).subrange(1, 1int + time.len()) == time,
        stamped(time, msg)[1int + time.len()] == ']',
        stamped(time, msg)[2int + time.len()] == ' ',
        stamped(time, msg).skip(3int + time.len()) == msg,
{
    reveal_strlit("[");
    reveal_strlit("] ");
    assert(stamped(time, msg).subrange(1, 1int + time.len()) =~= time);
    assert(stamped(time, msg).skip(3int + time.len()) =~= msg);
}

/// One more line comes last in the log. Up to two hundred lines nothing is
/// lost; beyond that it is the oldest line alone.
pub proof fn log_grows_by_one_line(lines: Seq<Seq<char>>, line: Seq<char>)
    ensures
        push_line(lines, line).last() == line,
        lines.len() < 200 ==> push_line(lines, line) == lines.push(line),
        lines.len() >= 200 ==> push_line(lines, line) == lines.skip(1).push(line),
{
    if lines.len() >= 200 {
        assert(lines.push(line).drop_first() =~= lines.skip(1).push(line));
    }
}

/// The log holds the last two hundred of all lines that were ever logged, in
/// their order.
pub proof fn log_is_the_last_two_hundred(
    lines: Seq<Seq<char>>,
    msgs: Seq<Seq<char>>,
    times: Seq<Seq<char>>,
)
    requires
        lines.len() <= 200,
        times.len() == msgs.len(),
    ensures
        ({
            let all = lines + Seq::new(msgs.len(), |i: int| stamped(times[i], msgs[i]));
            logged(lines, msgs, times) == if all.len() <= 200 {
                all
            } else {
                all.subrange(all.len() - 200, all.len() as int)
            }
        }),
{
    log_keeps_the_latest(lines, msgs, times);
    let all = lines + Seq::new(msgs.len(), |i: int| stamped(times[i], msgs[i]));
    if all.len() > 200 {
        assert(latest(all) =~= all.subrange(all.len() - 200, all.len() as int));
    }
}

/// The log lines among messages are those that are to be logged, in the order
/// in which they came.
pub proof fn log_texts_are_those_to_be_logged(msgs: Seq<MsgView>)
    ensures
        log_texts(msgs) == msgs.filter(|m: MsgView| m is Log).map_values(|m: MsgView| m->Log_0),
    decreases msgs.len(),
{
    reveal(Seq::filter);
    let is_log = |m: MsgView| m is Log;
    let text = |m: MsgView| m->Log_0;
    if msgs.len() == 0 {
        assert(log_texts(msgs) =~= msgs.filter(is_log).map_values(text));
    } else {
        let before = msgs.drop_last();
        log_texts_are_those_to_be_logged(before);
        assert(msgs.filter(is_log) == if msgs.last() is Log {
            before.filter(is_log).push(msgs.last())
        } else {
            before.filter(is_log)
        });
        assert(log_texts(msgs) =~= msgs.filter(is_log).map_values(text));
    }
}

/// The progress that is shown is that of the last message that is no log line:
/// what it says, or none where the task is over. Log lines alone leave it.
pub proof fn last_message_decides_the_progress(before: ProgressView, msgs: Seq<MsgView>, k: int)
    requires
        -1 <= k < msgs.len(),
        k >= 0 ==> !(msgs[k] is Log),
        forall|j: int| k < j < msgs.len() ==> #[trigger] msgs[j] is Log,
    ensures
        k == -1 ==> progress_after(before, msgs) == before,
        k >= 0 ==> (msgs[k] matches MsgView::Progress(p) ==> progress_after(before, msgs) == p),
        k >= 0 && msgs[k] == MsgView::Finished ==> {
            &&& !progress_after(before, msgs).visible
            &&& progress_after(before, msgs).phase.len() == 0
            &&& progress_after(before, msgs).cur == 0
            &&& progress_after(before, msgs).total == 0
        },
    decreases msgs.len(),
{
    if k < msgs.len() - 1 {
        assert(msgs[msgs.len() - 1] is Log);
        last_message_decides_the_progress(before, msgs.drop_last(), k);
    }
}

/// The flags that are set are counted.
pub proof fn set_flags_are_counted(flags: Seq<bool>)
    ensures
        set_count(flags) == flags.filter(|f: bool| f).len(),
    decreases flags.len(),
{
    reveal(Seq::filter);
    if flags.len() > 0 {
        set_flags_are_counted(flags.drop_last());
    }
}

/// What the log says on fonts, drives and cleaning.
pub proof fn log_lines_say(path: String, why: String, present: Seq<bool>, n: nat)
    ensures
        font_line(FontOutcome::Loaded(path)) == "已加载中文字体："@ + path@,
        font_line(FontOutcome::Unreadable(path, why)) == "中文字体读取失败 "@ + path@ + "："@ + why@,
        font_line(FontOutcome::Missing)
            == "未找到中文字体，中文可能显示为方块；建议安装 fonts-noto-cjk（Linux）"@,
        drives_line(present) == "盘符刷新完成，已排除C盘：["@ + drives::listed(
            drives::drive_list(present, 26),
        ) + "]"@,
        cleaned_line(n) == "清理完成，删除测试文件数量："@ + text::decimal(n),
{
    drives::log_shows_the_list(present, 26);
}

/// Logging adds the stamped message to the log and changes nothing else.
pub proof fn logging_changes_the_log_alone<Tx, Rx>(
    old: AppState<Tx, Rx>,
    new: AppState<Tx, Rx>,
    time: Seq<char>,
    msg: Seq<char>,
)
    requires
        old.wf(),
        new.has_logged(old, time, msg),
        new.only_log_differs(old),
    ensures
        new.log_queue@.len() > 0,
        new.log_queue@.last()@ == "["@ + time + "] "@ + msg,
        new.log_queue@.len() == if old.log_queue@.len() < 200 {
            old.log_queue@.len() + 1
        } else {
            200
        },
        new.drives == old.drives,
        new.selected_drive == old.selected_drive,
        new.file_size_mb == old.file_size_mb,
        new.running == old.running,
        new.selected_tab == old.selected_tab,
        new.task_tx == old.task_tx,
        new.task_rx == old.task_rx,
        new.stop_flag == old.stop_flag,
        new.progress == old.progress,
        new.fonts_ready == old.fonts_ready,
{
    log_grows_by_one_line(old.lines(), stamped(time, msg));
    assert(new.lines().len() == new.log_queue@.len());
    assert(old.lines().len() == old.log_queue@.len());
    assert(new.lines().last() == new.log_queue@.last()@);
}

/// A log within its limit has at most two hundred lines, and they are the texts
/// that it holds.
pub proof fn log_has_two_hundred_lines_at_most<Tx, Rx>(s: AppState<Tx, Rx>)
    ensures
        s.wf() <==> s.log_queue@.len() <= 200,
        s.lines().len() == s.log_queue@.len(),
        forall|i: int|
            0 <= i < s.log_queue@.len() ==> #[trigger] s.lines()[i] == s.log_queue@[i]@,
{
}

/// Listing the drives anew keeps the drive that the user selected, whatever
/// drives are there. Only where none is selected does the first of them become
/// it. The list is the one of what is there, and nothing else changes but the
/// log.
pub proof fn refreshing_keeps_the_selection<Tx, Rx>(
    old: AppState<Tx, Rx>,
    new: AppState<Tx, Rx>,
    time: Seq<char>,
    present: Seq<bool>,
)
    requires
        new.has_refreshed(old, time, present),
    ensures
        old.selected_drive@.len() > 0 ==> new.selected_drive@ == old.selected_drive@,
        old.selected_drive@.len() == 0 && new.drives@.len() > 0 ==> new.selected_drive@
            == new.drives@[0]@,
        old.selected_drive@.len() == 0 && new.drives@.len() == 0 ==> new.selected_drive@.len() == 0,
        new.drives@.len() == drives::drive_list(present, 26).len(),
        forall|i: int|
            0 <= i < new.drives@.len() ==> #[trigger] new.drives@[i]@ == drives::drive_list(
                present,
                26,
            )[i],
        new.lines() == push_line(
            old.lines(),
            "["@ + time + "] "@ + ("盘符刷新完成，已排除C盘：["@ + drives::listed(
                drives::drive_list(present, 26),
            ) + "]"@),
        ),
        new.file_size_mb == old.file_size_mb,
        new.running == old.running,
        new.selected_tab == old.selected_tab,
        new.task_tx == old.task_tx,
        new.task_rx == old.task_rx,
        new.stop_flag == old.stop_flag,
        new.progress == old.progress,
        new.fonts_ready == old.fonts_ready,
{
    drives::log_shows_the_list(present, 26);
    let list = drives::drive_list(present, 26);
    assert(report::texts(new.drives@).len() == new.drives@.len());
    assert forall|i: int| 0 <= i < new.drives@.len() implies #[trigger] new.drives@[i]@
        == list[i] by {
        assert(report::texts(new.drives@)[i] == new.drives@[i]@);
    }
}

/// A selection survives any number of looks at the drives: two of them in a row
/// leave the drive that the first left.
pub proof fn refreshing_again_changes_no_selection<Tx, Rx>(
    first: AppState<Tx, Rx>,
    second: AppState<Tx, Rx>,
    third: AppState<Tx, Rx>,
    times: (Seq<char>, Seq<char>),
    present: (Seq<bool>, Seq<bool>),
)
    requires
        second.has_refreshed(first, times.0, present.0),
        third.has_refreshed(second, times.1, present.1),
        second.selected_drive@.len() > 0,
    ensures
        third.selected_drive@ == second.selected_drive@,
        first.selected_drive@.len() > 0 ==> third.selected_drive@ == first.selected_drive@,
{
    refreshing_keeps_the_selection(first, second, times.0, present.0);
    refreshing_keeps_the_selection(second, third, times.1, present.1);
}

/// A fresh state offers the drives that are there, has the first of them
/// selected, test files of 1024 megabytes, one log line, and no task.
pub proof fn fresh_states_hold<Tx, Rx>(s: AppState<Tx, Rx>, time: Seq<char>, present: Seq<bool>)
    requires
        s.is_new(time, present),
    ensures
        s.drives@.len() == drives::drive_list(present, 26).len(),
        forall|i: int|
            0 <= i < s.drives@.len() ==> #[trigger] s.drives@[i]@ == drives::drive_list(
                present,
                26,
            )[i],
        s.drives@.len() > 0 ==> s.selected_drive@ == s.drives@[0]@,
        s.drives@.len() == 0 ==> s.selected_drive@.len() == 0,
        s.log_queue@.len() == 1,
        s.log_queue@[0]@ == "["@ + time + "] "@ + ("盘符刷新完成，已排除C盘：["@ + drives::listed(
            drives::drive_list(present, 26),
        ) + "]"@),
        s.file_size_mb == 1024,
        !s.running,
        s.selected_tab == 0,
        s.task_tx is None,
        s.task_rx is None,
        !s.stop_flag,
        !s.progress.visible,
        s.progress.phase@.len() == 0,
        s.progress.cur == 0,
        s.progress.total == 0,
        !s.fonts_ready,
{
    drives::log_shows_the_list(present, 26);
    let list = drives::drive_list(present, 26);
    assert(report::texts(s.drives@).len() == s.drives@.len());
    assert forall|i: int| 0 <= i < s.drives@.len() implies #[trigger] s.drives@[i]@ == list[i] by {
        assert(report::texts(s.drives@)[i] == s.drives@[i]@);
    }
    assert(s.lines().len() == s.log_queue@.len());
    assert(s.lines()[0] == s.log_queue@[0]@);
    assert(s.progress@.phase == s.progress.phase@);
}

/// A task that begins runs, is not to stop, has its channel and the progress it
/// is given; what the user chose and the log stay.
pub proof fn begun_tasks_run<Tx, Rx>(
    old: AppState<Tx, Rx>,
    new: AppState<Tx, Rx>,
    tx: Tx,
    rx: Rx,
    progress: ProgressView,
)
    requires
        new.has_begun(old, tx, rx, progress),
    ensures
        new.running,
        !new.stop_flag,
        new.task_tx == Some(tx),
        new.task_rx == Some(rx),
        new.progress@ == progress,
        new.drives == old.drives,
        new.selected_drive == old.selected_drive,
        new.file_size_mb == old.file_size_mb,
        new.selected_tab == old.selected_tab,
        new.log_queue == old.log_queue,
        new.fonts_ready == old.fonts_ready,
{
}

/// The buttons that start a task are those of the test, the benchmark and the
/// listing of the devices, and no others.
pub proof fn three_buttons_start_tasks(button: Button)
    ensures
        starts_task(button) <==> match button {
            Button::StartFullTest => true,
            Button::StartBenchmark => true,
            Button::ReadUsb => true,
            Button::RefreshDrives => false,
            Button::Stop => false,
            Button::CleanTestFiles => false,
            Button::CleanBenchFile => false,
        },
{
}

/// The times of log lines are times of day that the clock showed, one for each.
pub proof fn log_times_come_from_the_clock(times: Seq<Seq<char>>, n: nat, i: int)
    requires
        are_times(times, n),
        0 <= i < n,
    ensures
        times.len() == n,
        clock::shown(times[i]),
        clock::is_time_of_day(times[i]),
{
}

/// The sizes that a user can give a test file, in megabytes.
pub proof fn file_sizes_in_megabytes()
    ensures
        DEFAULT_FILE_SIZE_MB == 1024,
        MIN_FILE_SIZE_MB == 100,
        MAX_FILE_SIZE_MB == 4096,
        crate::full_test::MEGABYTE == 1024 * 1024,
{
}

} // verus!
