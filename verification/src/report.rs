//! What a background task tells the window.

use vstd::prelude::*;
use vstd::string::*;

verus! {

/// How far a task has come.
#[derive(Debug, Clone)]
pub struct ProgressInfo {
    pub visible: bool,
    pub phase: String,
    pub cur: u64,
    pub total: u64,
}

/// The contents of a `ProgressInfo`.
#[verifier::ext_equal]
pub struct ProgressView {
    pub visible: bool,
    pub phase: Seq<char>,
    pub cur: u64,
    pub total: u64,
}

impl View for ProgressInfo {
    type V = ProgressView;

    open spec fn view(&self) -> ProgressView {
        ProgressView {
            visible: self.visible,
            phase: self.phase@,
            cur: self.cur,
            total: self.total,
        }
    }
}

/// No progress to show.
pub open spec fn no_progress() -> ProgressView {
    ProgressView { visible: false, phase: Seq::empty(), cur: 0, total: 0 }
}

impl Default for ProgressInfo {
    fn default() -> (r: Self)
        ensures
            r@ == no_progress(),
    {
        ProgressInfo { visible: false, phase: String::new(), cur: 0, total: 0 }
    }
}

/// `cur / total` as a numerator and a denominator, held between zero and one,
/// and zero where `total` is zero.
pub open spec fn done_part(cur: u64, total: u64) -> (u64, u64) {
    if total == 0 {
        (0, 1)
    } else if cur > total {
        (total, total)
    } else {
        (cur, total)
    }
}

impl ProgressInfo {
    /// The done part as a numerator and a denominator: `cur / total`, held
    /// between zero and one, and zero where there is nothing to do.
    pub fn frac_parts(&self) -> (r: (u64, u64))
        ensures
            r == done_part(self.cur, self.total),
            0 <= r.0 <= r.1,
            r.1 > 0,
    {
        if self.total > 0 {
            if self.cur <= self.total {
                (self.cur, self.total)
            } else {
                (self.total, self.total)
            }
        } else {
            (0, 1)
        }
    }
}

/// A message from a background task.
#[derive(Debug, Clone)]
pub enum TaskMsg {
    Log(String),
    Progress(ProgressInfo),
    Finished,
}

/// The contents of a `TaskMsg`.
#[verifier::ext_equal]
pub enum MsgView {
    Log(Seq<char>),
    Progress(ProgressView),
    Finished,
}

impl View for TaskMsg {
    type V = MsgView;

    open spec fn view(&self) -> MsgView {
        match self {
            TaskMsg::Log(s) => MsgView::Log(s@),
            TaskMsg::Progress(p) => MsgView::Progress(p@),
            TaskMsg::Finished => MsgView::Finished,
        }
    }
}

/// The contents of each message.
pub open spec fn msg_views(v: Seq<TaskMsg>) -> Seq<MsgView> {
    v.map_values(|m: TaskMsg| m@)
}

/// The four timed passes of a benchmark.
#[derive(Debug, Clone, Copy, PartialEq, Eq, Structural)]
pub enum Pass {
    SeqWrite,
    SeqRead,
    RandWrite,
    RandRead,
}

/// A piece of a text: a literal part, or a figure that the program shows in
/// units of its own.
#[derive(Debug)]
pub enum Piece {
    /// Text as it stands.
    Text(String),
    /// A number of bytes, to be shown in GB with two decimals.
    Gb(u64),
    /// `bytes` over the time that `pass` took, to be shown in MB/s.
    Rate { bytes: u64, pass: Pass, decimals: u8 },
}

/// The contents of a `Piece`.
#[verifier::ext_equal]
pub enum PieceView {
    Text(Seq<char>),
    Gb(u64),
    Rate { bytes: u64, pass: Pass, decimals: u8 },
}

impl View for Piece {
    type V = PieceView;

    open spec fn view(&self) -> PieceView {
        match self {
            Piece::Text(s) => PieceView::Text(s@),
            Piece::Gb(b) => PieceView::Gb(*b),
            Piece::Rate { bytes, pass, decimals } => PieceView::Rate {
                bytes: *bytes,
                pass: *pass,
                decimals: *decimals,
            },
        }
    }
}

/// The contents of each piece.
pub open spec fn piece_views(v: Seq<Piece>) -> Seq<PieceView> {
    v.map_values(|p: Piece| p@)
}

/// What a task reports, its figures not yet shown in any unit.
#[derive(Debug)]
pub enum Report {
    Log(Vec<Piece>),
    Progress { phase: Vec<Piece>, cur: u64, total: u64 },
    Finished,
}

/// The contents of a `Report`.
#[verifier::ext_equal]
pub enum ReportView {
    Log(Seq<PieceView>),
    Progress { phase: Seq<PieceView>, cur: u64, total: u64 },
    Finished,
}

impl View for Report {
    type V = ReportView;

    open spec fn view(&self) -> ReportView {
        match self {
            Report::Log(v) => ReportView::Log(piece_views(v@)),
            Report::Progress { phase, cur, total } => ReportView::Progress {
                phase: piece_views(phase@),
                cur: *cur,
                total: *total,
            },
            Report::Finished => ReportView::Finished,
        }
    }
}

/// The contents of each report.
pub open spec fn report_views(v: Seq<Report>) -> Seq<ReportView> {
    v.map_values(|r: Report| r@)
}

/// A line of the log that is one literal text.
pub open spec fn say(s: Seq<char>) -> ReportView {
    ReportView::Log(seq![PieceView::Text(s)])
}

/// How often `reports` say that the task is over.
pub open spec fn finishes(reports: Seq<ReportView>) -> nat
    decreases reports.len(),
{
    if reports.len() == 0 {
        0
    } else {
        finishes(reports.drop_last()) + if reports.last() == ReportView::Finished {
            1nat
        } else {
            0nat
        }
    }
}

pub(crate) proof fn finishes_adds(a: Seq<ReportView>, b: Seq<ReportView>)
    ensures
        finishes(a + b) == finishes(a) + finishes(b),
    decreases b.len(),
{
    if b.len() == 0 {
        assert(a + b =~= a);
    } else {
        finishes_adds(a, b.drop_last());
        assert((a + b).drop_last() =~= a + b.drop_last());
        assert((a + b).last() == b.last());
    }
}

pub(crate) proof fn finishes_none(r: Seq<ReportView>)
    requires
        forall|i: int| 0 <= i < r.len() ==> r[i] != ReportView::Finished,
    ensures
        finishes(r) == 0,
    decreases r.len(),
{
    if r.len() > 0 {
        finishes_none(r.drop_last());
    }
}

/// Reports that end with the one and only end of the task.
pub(crate) proof fn finishes_at_end(r: Seq<ReportView>)
    requires
        r.len() > 0,
        r.last() == ReportView::Finished,
        forall|i: int| 0 <= i < r.len() - 1 ==> r[i] != ReportView::Finished,
    ensures
        finishes(r) == 1,
{
    finishes_none(r.drop_last());
}

/// The text that `pieces` make up where the figure at position `i` is shown
/// as `shown[i]`.
pub open spec fn filled(pieces: Seq<PieceView>, shown: Seq<Seq<char>>) -> Seq<char>
    decreases pieces.len(),
{
    if pieces.len() == 0 {
        Seq::empty()
    } else {
        let i = pieces.len() - 1;
        filled(pieces.drop_last(), shown) + match pieces[i] {
            PieceView::Text(s) => s,
            _ => shown[i],
        }
    }
}

/// The contents of each text.
pub open spec fn texts(v: Seq<String>) -> Seq<Seq<char>> {
    v.map_values(|s: String| s@)
}

/// The text that `pieces` make up where the figure at position `i` is shown
/// as `shown[i]`.
pub fn fill(pieces: &Vec<Piece>, shown: &Vec<String>) -> (r: String)
    requires
        shown@.len() == pieces@.len(),
    ensures
        r@ == filled(piece_views(pieces@), texts(shown@)),
{
    let mut r = String::new();
    let mut i: usize = 0;
    let ghost all = piece_views(pieces@);
    while i < pieces.len()
        invariant
            i <= pieces@.len(),
            shown@.len() == pieces@.len(),
            all == piece_views(pieces@),
            r@ == filled(all.take(i as int), texts(shown@)),
        decreases pieces@.len() - i,
    {
        assert(all.take(i + 1).drop_last() =~= all.take(i as int));
        assert(all.take(i + 1).last() == pieces@[i as int]@);
        match &pieces[i] {
            Piece::Text(s) => {
                r.append(s.as_str());
            },
            _ => {
                r.append(shown[i].as_str());
            },
        }
        i = i + 1;
    }
    assert(all.take(i as int) =~= all);
    r
}

/// The pieces whose figures the program has to show before the report can be
/// sent; none for the last report.
pub fn pieces_of(report: &Report) -> (r: &[Piece])
    ensures
        r@ == (match *report {
            Report::Log(v) => v@,
            Report::Progress { phase, cur, total } => phase@,
            Report::Finished => Seq::empty(),
        }),
{
    match report {
        Report::Log(v) => v.as_slice(),
        Report::Progress { phase, .. } => phase.as_slice(),
        Report::Finished => &[],
    }
}

/// The message that carries `report`, its figures shown as `shown`.
pub open spec fn sent(report: ReportView, shown: Seq<Seq<char>>) -> MsgView {
    match report {
        ReportView::Log(v) => MsgView::Log(filled(v, shown)),
        ReportView::Progress { phase, cur, total } => MsgView::Progress(
            ProgressView { visible: true, phase: filled(phase, shown), cur, total },
        ),
        ReportView::Finished => MsgView::Finished,
    }
}

/// The number of pieces that a report is made of.
pub open spec fn piece_count(report: ReportView) -> nat {
    match report {
        ReportView::Log(v) => v.len(),
        ReportView::Progress { phase, cur, total } => phase.len(),
        ReportView::Finished => 0,
    }
}

/// The message that carries `report`, its figures shown as `shown`.
pub fn to_msg(report: &Report, shown: &Vec<String>) -> (r: TaskMsg)
    requires
        shown@.len() == piece_count(report@),
    ensures
        r@ == sent(report@, texts(shown@)),
{
    match report {
        Report::Log(v) => TaskMsg::Log(fill(v, shown)),
        Report::Progress { phase, cur, total } => {
            TaskMsg::Progress(
                ProgressInfo { visible: true, phase: fill(phase, shown), cur: *cur, total: *total },
            )
        },
        Report::Finished => TaskMsg::Finished,
    }
}

pub(crate) fn lit(s: &str) -> (r: Piece)
    ensures
        r@ == PieceView::Text(s@),
{
    Piece::Text(s.to_owned())
}

pub(crate) fn log1(a: Piece) -> (r: Report)
    ensures
        r@ == ReportView::Log(seq![a@]),
{
    let mut v: Vec<Piece> = Vec::new();
    v.push(a);
    assert(piece_views(v@) =~= seq![a@]);
    Report::Log(v)
}

pub(crate) fn log2(a: Piece, b: Piece) -> (r: Report)
    ensures
        r@ == ReportView::Log(seq![a@, b@]),
{
    let mut v: Vec<Piece> = Vec::new();
    v.push(a);
    v.push(b);
    assert(piece_views(v@) =~= seq![a@, b@]);
    Report::Log(v)
}

pub(crate) fn log3(a: Piece, b: Piece, c: Piece) -> (r: Report)
    ensures
        r@ == ReportView::Log(seq![a@, b@, c@]),
{
    let mut v: Vec<Piece> = Vec::new();
    v.push(a);
    v.push(b);
    v.push(c);
    assert(piece_views(v@) =~= seq![a@, b@, c@]);
    Report::Log(v)
}

pub(crate) fn log4(a: Piece, b: Piece, c: Piece, d: Piece) -> (r: Report)
    ensures
        r@ == ReportView::Log(seq![a@, b@, c@, d@]),
{
    let mut v: Vec<Piece> = Vec::new();
    v.push(a);
    v.push(b);
    v.push(c);
    v.push(d);
    assert(piece_views(v@) =~= seq![a@, b@, c@, d@]);
    Report::Log(v)
}

pub(crate) fn pieces5(a: Piece, b: Piece, c: Piece, d: Piece, e: Piece) -> (r: Vec<Piece>)
    ensures
        piece_views(r@) == seq![a@, b@, c@, d@, e@],
{
    let mut v: Vec<Piece> = Vec::new();
    v.push(a);
    v.push(b);
    v.push(c);
    v.push(d);
    v.push(e);
    assert(piece_views(v@) =~= seq![a@, b@, c@, d@, e@]);
    v
}

pub(crate) fn progress1(phase: Piece, cur: u64, total: u64) -> (r: Report)
    ensures
        r@ == (ReportView::Progress { phase: seq![phase@], cur, total }),
{
    let mut v: Vec<Piece> = Vec::new();
    v.push(phase);
    assert(piece_views(v@) =~= seq![phase@]);
    Report::Progress { phase: v, cur, total }
}

pub(crate) fn emit(out: &mut Vec<Report>, r: Report)
    ensures
        report_views(final(out)@) == report_views(old(out)@).push(r@),
{
    out.push(r);
    assert(report_views(out@) =~= report_views(old(out)@).push(r@));
}

/// What a view shows is what the value holds.
pub proof fn views_show_what_is_held(
    p: ProgressInfo,
    s: String,
    pieces: Vec<Piece>,
    bytes: u64,
    total: u64,
    pass: Pass,
    decimals: u8,
)
    ensures
        p@ == (ProgressView { visible: p.visible, phase: p.phase@, cur: p.cur, total: p.total }),
        TaskMsg::Log(s)@ == MsgView::Log(s@),
        TaskMsg::Progress(p)@ == MsgView::Progress(p@),
        TaskMsg::Finished@ == MsgView::Finished,
        Piece::Text(s)@ == PieceView::Text(s@),
        Piece::Gb(bytes)@ == PieceView::Gb(bytes),
        (Piece::Rate { bytes, pass, decimals })@ == (PieceView::Rate { bytes, pass, decimals }),
        Report::Log(pieces)@ == ReportView::Log(piece_views(pieces@)),
        (Report::Progress { phase: pieces, cur: bytes, total })@ == (ReportView::Progress {
            phase: piece_views(pieces@),
            cur: bytes,
            total,
        }),
        Report::Finished@ == ReportView::Finished,
{
}

/// A list is shown as long as it is, each element in its place.
pub proof fn lists_are_shown_in_order(
    msgs: Seq<TaskMsg>,
    pieces: Seq<Piece>,
    reports: Seq<Report>,
    strings: Seq<String>,
)
    ensures
        msg_views(msgs).len() == msgs.len(),
        forall|i: int| 0 <= i < msgs.len() ==> #[trigger] msg_views(msgs)[i] == msgs[i]@,
        piece_views(pieces).len() == pieces.len(),
        forall|i: int| 0 <= i < pieces.len() ==> #[trigger] piece_views(pieces)[i] == pieces[i]@,
        report_views(reports).len() == reports.len(),
        forall|i: int|
            0 <= i < reports.len() ==> #[trigger] report_views(reports)[i] == reports[i]@,
        texts(strings).len() == strings.len(),
        forall|i: int| 0 <= i < strings.len() ==> #[trigger] texts(strings)[i] == strings[i]@,
{
}

/// The done part is `cur / total`, never less than nothing nor more than the
/// whole, and nothing where there is nothing to do.
pub proof fn done_part_is_the_ratio(cur: u64, total: u64)
    ensures
        ({
            let (n, d) = done_part(cur, total);
            &&& 0 <= n <= d
            &&& d > 0
            &&& total == 0 ==> n == 0
            &&& 0 < total && cur <= total ==> n * total == cur * d
            &&& 0 < total < cur ==> n == d
        }),
{
}

/// No progress is none to be seen, with nothing in it.
pub proof fn no_progress_is_empty()
    ensures
        !no_progress().visible,
        no_progress().phase.len() == 0,
        no_progress().cur == 0,
        no_progress().total == 0,
{
}

/// A text is put together piece by piece: the literal parts as they stand, each
/// figure as the program shows it, and nothing else.
pub proof fn texts_are_put_together(pieces: Seq<PieceView>, piece: PieceView, shown: Seq<Seq<char>>)
    ensures
        filled(Seq::empty(), shown) == Seq::<char>::empty(),
        filled(pieces.push(piece), shown) == filled(pieces, shown) + match piece {
            PieceView::Text(s) => s,
            PieceView::Gb(_) => shown[pieces.len() as int],
            PieceView::Rate { .. } => shown[pieces.len() as int],
        },
{
    assert(pieces.push(piece).drop_last() =~= pieces);
}

/// A log report is sent as a log line, a progress as one that is to be seen
/// with the same figures, and the end as the end.
pub proof fn reports_are_sent_as_they_are(
    pieces: Seq<PieceView>,
    cur: u64,
    total: u64,
    shown: Seq<Seq<char>>,
)
    ensures
        sent(ReportView::Log(pieces), shown) == MsgView::Log(filled(pieces, shown)),
        sent(ReportView::Progress { phase: pieces, cur, total }, shown) == MsgView::Progress(
            ProgressView { visible: true, phase: filled(pieces, shown), cur, total },
        ),
        sent(ReportView::Finished, shown) == MsgView::Finished,
        piece_count(ReportView::Log(pieces)) == pieces.len(),
        piece_count(ReportView::Progress { phase: pieces, cur, total }) == pieces.len(),
        piece_count(ReportView::Finished) == 0,
{
}

} // verus!
