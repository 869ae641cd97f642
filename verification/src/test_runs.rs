//! What holds of a whole run of the test of a drive.

use vstd::prelude::*;
use crate::app_state;
use crate::content;
use crate::files;
use crate::full_test;
use crate::full_test::{TestEvent, TestEventView, TestRequest, TestStage, TestView};
use crate::report;
use crate::report::{PieceView, ReportView};
use crate::text;

verus! {

impl TestView {
    /// Whether each of `evs` answers what the test waited for when it came.
    pub open spec fn accepts_all(self, evs: Seq<TestEventView>) -> bool
        decreases evs.len(),
    {
        evs.len() == 0 || {
            &&& self.accepts_all(evs.drop_last())
            &&& self.after(evs.drop_last()).accepts(evs.last())
        }
    }

    /// The test after `evs`.
    pub open spec fn after(self, evs: Seq<TestEventView>) -> TestView
        decreases evs.len(),
    {
        if evs.len() == 0 {
            self
        } else {
            self.after(evs.drop_last()).next(evs.last())
        }
    }

    /// All that is reported from the opening line on to `evs`.
    pub open spec fn all_reports(self, evs: Seq<TestEventView>) -> Seq<ReportView>
        decreases evs.len(),
    {
        if evs.len() == 0 {
            seq![full_test::opening_line()]
        } else {
            self.all_reports(evs.drop_last()) + self.after(evs.drop_last()).reports(evs.last())
        }
    }

    /// How many answers a test that reads files back can still take.
    pub open spec fn answers_left(self) -> int {
        match self.stage {
            TestStage::VerifyStop => 2 * (self.hashes.len() - self.checked),
            TestStage::Read => 2 * (self.hashes.len() - self.checked) - 1,
            _ => 0,
        }
    }
}

/// The hashes of the files that `evs` wrote.
pub open spec fn hashes_written(evs: Seq<TestEventView>) -> Seq<u64>
    decreases evs.len(),
{
    if evs.len() == 0 {
        Seq::empty()
    } else {
        match evs.last() {
            TestEventView::Wrote(Ok((hash, _))) => hashes_written(evs.drop_last()).push(hash),
            _ => hashes_written(evs.drop_last()),
        }
    }
}

/// The bytes that `evs` wrote.
pub open spec fn bytes_written(evs: Seq<TestEventView>) -> int
    decreases evs.len(),
{
    if evs.len() == 0 {
        0
    } else {
        match evs.last() {
            TestEventView::Wrote(Ok((_, wrote))) => bytes_written(evs.drop_last()) + wrote,
            _ => bytes_written(evs.drop_last()),
        }
    }
}

/// What `evs` found of each file read back: its hash, or nothing where it
/// could not be read.
pub open spec fn hashes_read(evs: Seq<TestEventView>) -> Seq<Option<u64>>
    decreases evs.len(),
{
    if evs.len() == 0 {
        Seq::empty()
    } else {
        match evs.last() {
            TestEventView::Read(Ok(Some((hash, _)))) => hashes_read(evs.drop_last()).push(
                Some(hash),
            ),
            TestEventView::Read(Err(_)) => hashes_read(evs.drop_last()).push(None),
            _ => hashes_read(evs.drop_last()),
        }
    }
}

/// The bytes that `evs` read back.
pub open spec fn bytes_read(evs: Seq<TestEventView>) -> int
    decreases evs.len(),
{
    if evs.len() == 0 {
        0
    } else {
        match evs.last() {
            TestEventView::Read(Ok(Some((_, bytes)))) => bytes_read(evs.drop_last()) + bytes,
            _ => bytes_read(evs.drop_last()),
        }
    }
}

/// How many of the files `read` back could not be read or have another hash
/// than was `written`.
pub open spec fn bad_files(written: Seq<u64>, read: Seq<Option<u64>>) -> nat
    decreases read.len(),
{
    if read.len() == 0 {
        0
    } else {
        let i = read.len() - 1;
        bad_files(written, read.drop_last()) + if read[i] == Some(written[i]) {
            0nat
        } else {
            1nat
        }
    }
}

/// A test counts what happened: the hashes and bytes of the files written, the
/// files and bytes read back, and, as errors, exactly the files that could not
/// be read or whose hash is not the one written.
pub proof fn counts_are_exact(file_size: u64, evs: Seq<TestEventView>)
    requires
        TestView::init(file_size).accepts_all(evs),
    ensures
        ({
            let s = TestView::init(file_size).after(evs);
            &&& s.wf()
            &&& s.file_size == file_size
            &&& s.hashes == hashes_written(evs)
            &&& s.total_write == bytes_written(evs)
            &&& s.checked == hashes_read(evs).len()
            &&& s.verified == bytes_read(evs)
            &&& s.errors == bad_files(hashes_written(evs), hashes_read(evs))
        }),
    decreases evs.len(),
{
    if evs.len() > 0 {
        let before = evs.drop_last();
        counts_are_exact(file_size, before);
        let read = hashes_read(before);
        match evs.last() {
            TestEventView::Read(Ok(Some((hash, _)))) => {
                assert(read.push(Some(hash)).drop_last() =~= read);
            },
            TestEventView::Read(Err(_)) => {
                assert(read.push(None).drop_last() =~= read);
            },
            TestEventView::Wrote(Ok(_)) => {
                assert(read.len() == 0);
            },
            _ => {},
        }
    } else {
        assert(TestView::init(file_size).hashes =~= hashes_written(evs));
    }
}

/// A file is written only where the drive has just answered that the file fits
/// and the margin stays free.
pub proof fn writes_only_with_room(file_size: u64, evs: Seq<TestEventView>)
    requires
        TestView::init(file_size).accepts_all(evs),
        TestView::init(file_size).after(evs).stage == TestStage::Write,
    ensures
        evs.len() >= 2,
        evs[evs.len() - 2] matches TestEventView::Free(Some(space)) && space - file_size
            >= files::SPACE_MARGIN,
{
    let init = TestView::init(file_size);
    let b = evs.drop_last();
    counts_are_exact(file_size, b);
    assert(init.after(b).stage == TestStage::Exists);
    assert(b.len() > 0);
    let a = b.drop_last();
    assert(init.accepts_all(b));
    counts_are_exact(file_size, a);
    assert(init.after(b) == init.after(a).next(b.last()));
    assert(b.last() == evs[evs.len() - 2]);
}

/// Whether `ev` is a reason to write no more files of `file_size` bytes: the
/// user stops, a file could not be written, or the drive has no room for one
/// more above the margin, as far as is known.
pub open spec fn ends_writing(file_size: u64, ev: TestEventView) -> bool {
    match ev {
        TestEventView::Stop(stop) => stop,
        TestEventView::Wrote(r) => r is Err,
        TestEventView::Free(free) => full_test::known(free) - file_size < files::SPACE_MARGIN,
        _ => false,
    }
}

/// A drive is filled as far as the margin allows: a test that writes no more
/// gave it up on the user's stop, on a file that could not be written, or where
/// the drive had no room for one more.
pub proof fn drive_is_filled(file_size: u64, evs: Seq<TestEventView>)
    requires
        TestView::init(file_size).accepts_all(evs),
        !TestView::init(file_size).after(evs).is_writing(),
    ensures
        exists|k: int|
            {
                &&& 0 <= k < evs.len()
                &&& TestView::init(file_size).after(evs.take(k)).is_writing()
                &&& !TestView::init(file_size).after(evs.take(k + 1)).is_writing()
                &&& ends_writing(file_size, #[trigger] evs[k])
            },
    decreases evs.len(),
{
    let init = TestView::init(file_size);
    assert(evs.len() > 0);
    let before = evs.drop_last();
    let last = evs.len() - 1;
    counts_are_exact(file_size, before);
    assert(evs.take(last) =~= before);
    assert(evs.take(last + 1) =~= evs);
    if init.after(before).is_writing() {
        assert(ends_writing(file_size, evs[last]));
    } else {
        drive_is_filled(file_size, before);
        let k = choose|k: int|
            {
                &&& 0 <= k < before.len()
                &&& init.after(before.take(k)).is_writing()
                &&& !init.after(before.take(k + 1)).is_writing()
                &&& ends_writing(file_size, #[trigger] before[k])
            };
        assert(before.take(k) =~= evs.take(k));
        assert(before.take(k + 1) =~= evs.take(k + 1));
        assert(ends_writing(file_size, evs[k]));
    }
}

/// Once a test reads files back or is over, it writes no more: the files stay
/// those it has written.
pub proof fn reading_never_goes_back(file_size: u64, evs: Seq<TestEventView>, k: int)
    requires
        TestView::init(file_size).accepts_all(evs),
        0 <= k <= evs.len(),
        !TestView::init(file_size).after(evs.take(k)).is_writing(),
    ensures
        ({
            let then = TestView::init(file_size).after(evs.take(k));
            let now = TestView::init(file_size).after(evs);
            &&& !now.is_writing()
            &&& now.hashes == then.hashes
            &&& now.total_write == then.total_write
        }),
    decreases evs.len(),
{
    if k == evs.len() {
        assert(evs.take(k) =~= evs);
    } else {
        let before = evs.drop_last();
        assert(before.take(k) =~= evs.take(k));
        reading_never_goes_back(file_size, before, k);
    }
}

proof fn prefixes_are_accepted(s: TestView, evs: Seq<TestEventView>, k: int)
    requires
        s.accepts_all(evs),
        0 <= k <= evs.len(),
    ensures
        s.accepts_all(evs.take(k)),
    decreases evs.len(),
{
    if k == evs.len() {
        assert(evs.take(k) =~= evs);
    } else {
        prefixes_are_accepted(s, evs.drop_last(), k);
        assert(evs.drop_last().take(k) =~= evs.take(k));
    }
}

/// A user who stops is obeyed: after the answer no file is written.
pub proof fn stop_ends_writing(file_size: u64, evs: Seq<TestEventView>, k: int)
    requires
        TestView::init(file_size).accepts_all(evs),
        0 <= k < evs.len(),
        evs[k] == TestEventView::Stop(true),
    ensures
        ({
            let then = TestView::init(file_size).after(evs.take(k));
            let now = TestView::init(file_size).after(evs);
            &&& !now.is_writing()
            &&& now.hashes == then.hashes
            &&& now.total_write == then.total_write
        }),
{
    let init = TestView::init(file_size);
    let a = evs.take(k);
    let b = evs.take(k + 1);
    prefixes_are_accepted(init, evs, k + 1);
    assert(b.drop_last() =~= a);
    assert(b.last() == evs[k]);
    assert(init.after(b) == init.after(a).next(b.last()));
    reading_never_goes_back(file_size, evs, k + 1);
}

/// The reading comes to an end: it takes two answers for each file at most.
pub proof fn reading_ends(file_size: u64, evs: Seq<TestEventView>, k: int)
    requires
        TestView::init(file_size).accepts_all(evs),
        0 <= k <= evs.len(),
        !TestView::init(file_size).after(evs.take(k)).is_writing(),
    ensures
        evs.len() - k <= 2 * hashes_written(evs).len(),
        evs.len() - k + TestView::init(file_size).after(evs).answers_left() <= TestView::init(
            file_size,
        ).after(evs.take(k)).answers_left(),
    decreases evs.len(),
{
    let init = TestView::init(file_size);
    counts_are_exact(file_size, evs);
    prefixes_are_accepted(init, evs, k);
    counts_are_exact(file_size, evs.take(k));
    reading_never_goes_back(file_size, evs, k);
    if k == evs.len() {
        assert(evs.take(k) =~= evs);
    } else {
        let before = evs.drop_last();
        assert(before.take(k) =~= evs.take(k));
        reading_ends(file_size, before, k);
        reading_never_goes_back(file_size, before, k);
        counts_are_exact(file_size, before);
    }
}

proof fn step_finishes(s: TestView, ev: TestEventView)
    requires
        s.wf(),
        s.accepts(ev),
    ensures
        s.stage != TestStage::Done,
        s.next(ev).stage == TestStage::Done ==> {
            &&& report::finishes(s.reports(ev)) == 1
            &&& s.reports(ev).last() == ReportView::Finished
            &&& s.reports(ev).len() >= 2
            &&& ev != TestEventView::Free(None) || s.stage != TestStage::Free ==> s.reports(
                ev,
            )[s.reports(ev).len() - 2] == full_test::verdict(s.next(ev).errors)
        },
        s.next(ev).stage != TestStage::Done ==> report::finishes(s.reports(ev)) == 0,
{
    let r = s.reports(ev);
    if s.next(ev).stage == TestStage::Done {
        report::finishes_at_end(r);
    } else {
        report::finishes_none(r);
    }
}

/// A test reports its end once, as its last word, and takes nothing after it.
pub proof fn ends_once(file_size: u64, evs: Seq<TestEventView>)
    requires
        TestView::init(file_size).accepts_all(evs),
    ensures
        ({
            let s = TestView::init(file_size).after(evs);
            let r = TestView::init(file_size).all_reports(evs);
            if s.stage == TestStage::Done {
                &&& report::finishes(r) == 1
                &&& r.last() == ReportView::Finished
                &&& forall|ev: TestEventView| !s.accepts(ev)
            } else {
                report::finishes(r) == 0
            }
        }),
    decreases evs.len(),
{
    if evs.len() > 0 {
        let init = TestView::init(file_size);
        let before = evs.drop_last();
        ends_once(file_size, before);
        counts_are_exact(file_size, before);
        step_finishes(init.after(before), evs.last());
        report::finishes_adds(init.all_reports(before), init.after(before).reports(evs.last()));
    } else {
        report::finishes_none(TestView::init(file_size).all_reports(evs));
    }
}

/// A test that learned how much room the drive has says at its end that all is
/// well where no file read back was bad, and that data is damaged where one
/// was.
pub proof fn verdict_is_sound(file_size: u64, evs: Seq<TestEventView>)
    requires
        TestView::init(file_size).accepts_all(evs),
        TestView::init(file_size).after(evs).stage == TestStage::Done,
        evs[0] != TestEventView::Free(None),
    ensures
        ({
            let r = TestView::init(file_size).all_reports(evs);
            &&& r.len() >= 2
            &&& r[r.len() - 2] == full_test::verdict(
                bad_files(hashes_written(evs), hashes_read(evs)),
            )
        }),
{
    let init = TestView::init(file_size);
    let before = evs.drop_last();
    counts_are_exact(file_size, before);
    counts_are_exact(file_size, evs);
    let s = init.after(before);
    step_finishes(s, evs.last());
    if before.len() > 0 {
        begun(file_size, before);
    }
    let r = init.all_reports(evs);
    let last = s.reports(evs.last());
    assert(r == init.all_reports(before) + last);
    assert(r[r.len() - 2] == last[last.len() - 2]);
}

proof fn begun(file_size: u64, evs: Seq<TestEventView>)
    requires
        TestView::init(file_size).accepts_all(evs),
        evs.len() > 0,
    ensures
        TestView::init(file_size).after(evs).stage != TestStage::Free,
{
}

proof fn no_bad_files(written: Seq<u64>, read: Seq<Option<u64>>)
    requires
        read.len() <= written.len(),
    ensures
        bad_files(written, read) == 0 <==> forall|i: int|
            0 <= i < read.len() ==> #[trigger] read[i] == Some(written[i]),
    decreases read.len(),
{
    if read.len() > 0 {
        let rest = read.drop_last();
        no_bad_files(written, rest);
        if bad_files(written, read) == 0 {
            assert forall|i: int| 0 <= i < read.len() implies #[trigger] read[i] == Some(
                written[i],
            ) by {
                if i < rest.len() {
                    assert(rest[i] == read[i]);
                }
            }
        } else if forall|i: int| 0 <= i < read.len() ==> #[trigger] read[i] == Some(written[i]) {
            assert forall|i: int| 0 <= i < rest.len() implies #[trigger] rest[i] == Some(
                written[i],
            ) by {
                assert(rest[i] == read[i]);
            }
        }
    }
}

/// A test finds no error if and only if each file that it read back could be
/// read and has the hash that was written.
pub proof fn no_error_means_all_match(file_size: u64, evs: Seq<TestEventView>)
    requires
        TestView::init(file_size).accepts_all(evs),
    ensures
        TestView::init(file_size).after(evs).errors == 0 <==> forall|i: int|
            0 <= i < hashes_read(evs).len() ==> #[trigger] hashes_read(evs)[i] == Some(
                hashes_written(evs)[i],
            ),
{
    counts_are_exact(file_size, evs);
    no_bad_files(hashes_written(evs), hashes_read(evs));
}

/// A test that is over has read back every file that it wrote, unless it never
/// learned how much room the drive has, or its last answer was that the user
/// stops. Where it then found no error, every file that it wrote came back with
/// its hash.
pub proof fn every_file_is_read_back(file_size: u64, evs: Seq<TestEventView>)
    requires
        TestView::init(file_size).accepts_all(evs),
        TestView::init(file_size).after(evs).stage == TestStage::Done,
        evs[0] != TestEventView::Free(None),
        evs.last() != TestEventView::Stop(true),
        evs.last() != TestEventView::Read(Ok(None)),
    ensures
        hashes_read(evs).len() == hashes_written(evs).len(),
        TestView::init(file_size).after(evs).errors == 0 ==> forall|i: int|
            0 <= i < hashes_written(evs).len() ==> #[trigger] hashes_read(evs)[i] == Some(
                hashes_written(evs)[i],
            ),
{
    let before = evs.drop_last();
    counts_are_exact(file_size, before);
    counts_are_exact(file_size, evs);
    if before.len() > 0 {
        begun(file_size, before);
    }
    no_bad_files(hashes_written(evs), hashes_read(evs));
}

/// A drive that returns every file as it was written passes: where file `i`
/// was written with the content `written[i]` and read back with the content
/// `read[i]`, and these are the same, the test finds no error. So an error
/// found on readable files is a file that the drive changed.
pub proof fn faithful_drive_passes(
    file_size: u64,
    evs: Seq<TestEventView>,
    written: Seq<Seq<u8>>,
    read: Seq<Seq<u8>>,
)
    requires
        TestView::init(file_size).accepts_all(evs),
        written.len() == hashes_written(evs).len(),
        read.len() == hashes_read(evs).len(),
        forall|i: int|
            0 <= i < written.len() ==> #[trigger] hashes_written(evs)[i] == content::content_hash(
                written[i],
            ),
        forall|i: int|
            0 <= i < read.len() ==> #[trigger] hashes_read(evs)[i] == Some(
                content::content_hash(read[i]),
            ),
    ensures
        (forall|i: int| 0 <= i < read.len() ==> #[trigger] read[i] == written[i])
            ==> TestView::init(file_size).after(evs).errors == 0,
        TestView::init(file_size).after(evs).errors > 0 ==> exists|i: int|
            0 <= i < read.len() && #[trigger] read[i] != written[i],
{
    counts_are_exact(file_size, evs);
    no_bad_files(hashes_written(evs), hashes_read(evs));
    if forall|i: int| 0 <= i < read.len() ==> #[trigger] read[i] == written[i] {
        assert forall|i: int| 0 <= i < hashes_read(evs).len() implies #[trigger] hashes_read(
            evs,
        )[i] == Some(hashes_written(evs)[i]) by {
            assert(read[i] == written[i]);
            assert(hashes_written(evs)[i] == content::content_hash(written[i]));
        }
    }
}

/// How many of the contents `read` are not those that were `written`.
pub open spec fn changed(written: Seq<Seq<u8>>, read: Seq<Seq<u8>>) -> nat
    decreases read.len(),
{
    if read.len() == 0 {
        0
    } else {
        let i = read.len() - 1;
        changed(written, read.drop_last()) + if read[i] == written[i] {
            0nat
        } else {
            1nat
        }
    }
}

proof fn bad_files_are_changed_files(
    written: Seq<Seq<u8>>,
    read: Seq<Seq<u8>>,
    hashes: Seq<u64>,
    found: Seq<Option<u64>>,
)
    requires
        read.len() == found.len(),
        forall|i: int|
            0 <= i < read.len() ==> (#[trigger] found[i] == Some(hashes[i]) <==> read[i]
                == written[i]),
    ensures
        bad_files(hashes, found) == changed(written, read),
    decreases read.len(),
{
    if read.len() > 0 {
        let fewer = found.drop_last();
        assert forall|i: int| 0 <= i < fewer.len() implies (#[trigger] fewer[i] == Some(hashes[i])
            <==> read.drop_last()[i] == written[i]) by {
            assert(fewer[i] == found[i]);
        }
        bad_files_are_changed_files(written, read.drop_last(), hashes, fewer);
        assert(found[read.len() - 1] == Some(hashes[read.len() - 1]) <==> read[read.len() - 1]
            == written[read.len() - 1]);
    }
}

/// A drive that changes files is found out: where file `i` was written with
/// the content `written[i]` and read back with the content `read[i]`, and no
/// changed content happens to have the hash of the one it replaced, the errors
/// are exactly the changed files.
pub proof fn changed_files_are_counted(
    file_size: u64,
    evs: Seq<TestEventView>,
    written: Seq<Seq<u8>>,
    read: Seq<Seq<u8>>,
)
    requires
        TestView::init(file_size).accepts_all(evs),
        written.len() == hashes_written(evs).len(),
        read.len() == hashes_read(evs).len(),
        forall|i: int|
            0 <= i < written.len() ==> #[trigger] hashes_written(evs)[i] == content::content_hash(
                written[i],
            ),
        forall|i: int|
            0 <= i < read.len() ==> #[trigger] hashes_read(evs)[i] == Some(
                content::content_hash(read[i]),
            ),
        forall|i: int|
            0 <= i < read.len() && #[trigger] read[i] != written[i] ==> content::content_hash(
                read[i],
            ) != content::content_hash(written[i]),
    ensures
        TestView::init(file_size).after(evs).errors == changed(written, read),
{
    counts_are_exact(file_size, evs);
    let hashes = hashes_written(evs);
    let found = hashes_read(evs);
    assert forall|i: int| 0 <= i < read.len() implies (#[trigger] found[i] == Some(hashes[i])
        <==> read[i] == written[i]) by {
        assert(hashes[i] == content::content_hash(written[i]));
    }
    bad_files_are_changed_files(written, read, hashes, found);
}

proof fn marks_differ()
    ensures
        "❌ "@ != "✅ "@,
        "❌ "@ != "⚠ "@,
        "✅ "@ != "⚠ "@,
{
    reveal_strlit("❌ ");
    reveal_strlit("✅ ");
    reveal_strlit("⚠ ");
    assert("❌ "@[0] == '❌');
    assert("✅ "@[0] == '✅');
    assert("⚠ "@[0] == '⚠');
}

proof fn shown_names_differ(i: nat, j: nat)
    requires
        full_test::shown_name(i) == full_test::shown_name(j),
    ensures
        i == j,
{
    let a = files::test_file(i);
    let b = files::test_file(j);
    reveal_strlit("\"");
    assert(text::quoted(a) == text::quoted(b));
    assert(a =~= text::quoted(a).subrange(1, text::quoted(a).len() - 1));
    assert(b =~= text::quoted(b).subrange(1, text::quoted(b).len() - 1));
    if i != j {
        files::test_file_names_differ(i, j);
    }
}

/// Whether `line` has three pieces, `mark` in front, and is about the file with
/// number `i`.
spec fn marked(line: ReportView, mark: Seq<char>, i: nat) -> bool {
    line matches ReportView::Log(v) && v.len() == 3 && v[0] == PieceView::Text(mark) && v[1]
        == full_test::shown_name(i)
}

proof fn step_lines(s: TestView, ev: TestEventView, i: nat)
    requires
        s.wf(),
        s.accepts(ev),
    ensures
        s.reports(ev).contains(full_test::damaged_line(i)) <==> {
            &&& ev matches TestEventView::Read(Ok(Some((hash, _)))) && s.differs(hash)
            &&& i == s.next_check()
        },
        s.reports(ev).contains(full_test::passed_line(i)) <==> {
            &&& ev matches TestEventView::Read(Ok(Some((hash, _)))) && !s.differs(hash)
            &&& i == s.next_check()
        },
{
    marks_differ();
    let r = s.reports(ev);
    let bad = full_test::damaged_line(i);
    let good = full_test::passed_line(i);
    assert(marked(bad, "❌ "@, i));
    assert(marked(good, "✅ "@, i));
    if ev matches TestEventView::Read(Ok(Some(_))) {
        let line = r[1];
        if line == bad || line == good {
            assert(marked(line, "❌ "@, i) || marked(line, "✅ "@, i));
            shown_names_differ(i, s.next_check());
        }
        assert forall|k: int| 0 <= k < r.len() && k != 1 implies #[trigger] r[k] != bad && r[k]
            != good by {
            assert(!marked(r[k], "❌ "@, i) && !marked(r[k], "✅ "@, i));
        }
    } else {
        assert forall|k: int| 0 <= k < r.len() implies #[trigger] r[k] != bad && r[k] != good by {
            assert(!marked(r[k], "❌ "@, i) && !marked(r[k], "✅ "@, i));
        }
    }
}

proof fn contains_in_either<A>(a: Seq<A>, b: Seq<A>, x: A)
    ensures
        (a + b).contains(x) <==> a.contains(x) || b.contains(x),
{
    if a.contains(x) {
        let k = choose|k: int| 0 <= k < a.len() && a[k] == x;
        assert((a + b)[k] == x);
    }
    if b.contains(x) {
        let k = choose|k: int| 0 <= k < b.len() && b[k] == x;
        assert((a + b)[a.len() + k] == x);
    }
    if (a + b).contains(x) {
        let k = choose|k: int| 0 <= k < (a + b).len() && (a + b)[k] == x;
        if k < a.len() {
            assert(a[k] == x);
        } else {
            assert(b[k - a.len()] == x);
        }
    }
}

/// The log names the damaged files and no others: it says that file `i` is
/// damaged if and only if it was read back with another hash than was written,
/// and that file `i` passed if and only if it was read back with that hash.
pub proof fn log_names_the_damaged_files(file_size: u64, evs: Seq<TestEventView>, i: nat)
    requires
        TestView::init(file_size).accepts_all(evs),
    ensures
        ({
            let r = TestView::init(file_size).all_reports(evs);
            let written = hashes_written(evs);
            let read = hashes_read(evs);
            &&& r.contains(full_test::damaged_line(i)) <==> {
                &&& 1 <= i <= read.len()
                &&& read[i - 1] is Some
                &&& read[i - 1] != Some(written[i - 1])
            }
            &&& r.contains(full_test::passed_line(i)) <==> {
                &&& 1 <= i <= read.len()
                &&& read[i - 1] == Some(written[i - 1])
            }
        }),
    decreases evs.len(),
{
    if evs.len() > 0 {
        let init = TestView::init(file_size);
        let before = evs.drop_last();
        let s = init.after(before);
        log_names_the_damaged_files(file_size, before, i);
        counts_are_exact(file_size, before);
        step_lines(s, evs.last(), i);
        let earlier = init.all_reports(before);
        let r = s.reports(evs.last());
        contains_in_either(earlier, r, full_test::damaged_line(i));
        contains_in_either(earlier, r, full_test::passed_line(i));
        match evs.last() {
            TestEventView::Read(Ok(Some((hash, _)))) => {},
            TestEventView::Read(Err(_)) => {},
            TestEventView::Wrote(Ok(_)) => {
                assert(hashes_read(before).len() == 0);
            },
            _ => {},
        }
    } else {
        let bad = full_test::damaged_line(i);
        let good = full_test::passed_line(i);
        assert(marked(bad, "❌ "@, i));
        assert(marked(good, "✅ "@, i));
        assert(!marked(full_test::opening_line(), "❌ "@, i));
        assert(!marked(full_test::opening_line(), "✅ "@, i));
    }
}

/// Every size that a user can give a test file can be tested: its bytes can be
/// counted.
pub proof fn user_sizes_fit(file_size_mb: u64)
    requires
        file_size_mb <= app_state::MAX_FILE_SIZE_MB,
    ensures
        file_size_mb * full_test::MEGABYTE <= u64::MAX,
{
}

/// A test announces itself, and then asks first how much room the drive has. It
/// has counted nothing yet.
pub proof fn a_test_begins_with_the_room(file_size: u64)
    ensures
        full_test::opening_line() == ReportView::Log(
            seq![
                PieceView::Text("===== 全盘读写校验开始 ====="@),
            ],
        ),
        TestView::init(file_size).all_reports(Seq::empty()) == seq![full_test::opening_line()],
        TestView::init(file_size).request() == TestRequest::FreeSpace,
        TestView::init(file_size) == (TestView {
            stage: TestStage::Free,
            file_size,
            est_total: 0,
            total_write: 0,
            hashes: Seq::empty(),
            checked: 0,
            verified: 0,
            errors: 0,
        }),
{
}

/// An event shows what it holds.
pub proof fn test_events_show_what_they_hold(
    free: Option<u64>,
    flag: bool,
    wrote: (u64, u64),
    read: Option<(u64, u64)>,
    why: String,
)
    ensures
        TestEvent::Free(free)@ == TestEventView::Free(free),
        TestEvent::Stop(flag)@ == TestEventView::Stop(flag),
        TestEvent::Exists(flag)@ == TestEventView::Exists(flag),
        TestEvent::Wrote(Ok(wrote))@ == TestEventView::Wrote(Ok(wrote)),
        TestEvent::Wrote(Err(why))@ == TestEventView::Wrote(Err(why@)),
        TestEvent::Read(Ok(read))@ == TestEventView::Read(Ok(read)),
        TestEvent::Read(Err(why))@ == TestEventView::Read(Err(why@)),
{
}

/// A test takes an answer if and only if it answers what was asked for and the
/// counts of bytes and files can take it.
pub proof fn answers_fit_the_request(s: TestView, ev: TestEventView)
    requires
        s.wf(),
    ensures
        s.accepts(ev) <==> match (s.request(), ev) {
            (TestRequest::FreeSpace, TestEventView::Free(_)) => true,
            (TestRequest::CheckStop, TestEventView::Stop(_)) => true,
            (TestRequest::FileExists(_), TestEventView::Exists(_)) => true,
            (TestRequest::WriteFile(_), TestEventView::Wrote(Ok((_, wrote)))) => s.total_write
                + wrote <= u64::MAX && s.hashes.len() + 2 <= u64::MAX,
            (TestRequest::WriteFile(_), TestEventView::Wrote(Err(_))) => true,
            (TestRequest::ReadFile(_), TestEventView::Read(Ok(Some((_, bytes))))) => s.verified
                + bytes <= u64::MAX,
            (TestRequest::ReadFile(_), TestEventView::Read(_)) => true,
            _ => false,
        },
{
}

/// What is asked for at each stage. Files go by the number of those before
/// them: the next to write by how many are written, the next to read by how
/// many are read back.
pub proof fn each_stage_asks_for_its_own(s: TestView)
    requires
        s.wf(),
    ensures
        s.stage == TestStage::Free || s.stage == TestStage::Space <==> s.request()
            == TestRequest::FreeSpace,
        s.stage == TestStage::CheckStop || s.stage == TestStage::VerifyStop <==> s.request()
            == TestRequest::CheckStop,
        s.stage == TestStage::Exists <==> s.request() is FileExists,
        s.stage == TestStage::Write <==> s.request() is WriteFile,
        s.stage == TestStage::Read <==> s.request() is ReadFile,
        s.stage == TestStage::Done <==> s.request() == TestRequest::Nothing,
        s.request() matches TestRequest::FileExists(n) ==> n == s.hashes.len() + 1,
        s.request() matches TestRequest::WriteFile(n) ==> n == s.hashes.len() + 1,
        s.request() matches TestRequest::ReadFile(n) ==> n == s.checked + 1,
{
}

/// Along every run the files to write have the numbers one, two, three and so
/// on, and the files to read back are these again, from the first on.
pub proof fn files_go_by_their_numbers(file_size: u64, evs: Seq<TestEventView>)
    requires
        TestView::init(file_size).accepts_all(evs),
    ensures
        match TestView::init(file_size).after(evs).request() {
            TestRequest::FileExists(n) => n == hashes_written(evs).len() + 1,
            TestRequest::WriteFile(n) => n == hashes_written(evs).len() + 1,
            TestRequest::ReadFile(n) => n == hashes_read(evs).len() + 1 && n <= hashes_written(
                evs,
            ).len(),
            _ => true,
        },
{
    counts_are_exact(file_size, evs);
}

/// The first look at the drive's room: where it is not known, the test is over
/// with a word on it; else the room is told, and the estimate is what is left
/// of it above a hundred megabytes.
pub proof fn first_look_at_the_room(s: TestView, free: Option<u64>)
    requires
        s.stage == TestStage::Free,
    ensures
        free is None ==> {
            &&& s.next(TestEventView::Free(free)) == (TestView { stage: TestStage::Done, ..s })
            &&& s.reports(TestEventView::Free(free)) == seq![
                ReportView::Log(seq![PieceView::Text("获取磁盘空间失败"@)]),
                ReportView::Finished,
            ]
        },
        free matches Some(f) ==> {
            let est: u64 = if f >= 104857600 {
                (f - 104857600) as u64
            } else {
                0
            };
            &&& s.next(TestEventView::Free(free)) == (TestView {
                stage: TestStage::CheckStop,
                est_total: est,
                ..s
            })
            &&& s.reports(TestEventView::Free(free)) == seq![
                ReportView::Log(
                    seq![
                        PieceView::Text("盘符剩余空间 "@),
                        PieceView::Gb(f),
                        PieceView::Text(" GB"@),
                    ],
                ),
                ReportView::Progress {
                    phase: seq![PieceView::Text("写入阶段"@)],
                    cur: 0,
                    total: est,
                },
            ]
        },
{
}

/// Where the room allows one more file, the test goes on to it without a word.
pub proof fn room_for_one_more(s: TestView, space: u64)
    requires
        s.stage == TestStage::Space,
        space - s.file_size >= 104857600,
    ensures
        s.next(TestEventView::Free(Some(space))) == (TestView { stage: TestStage::Exists, ..s }),
        s.reports(TestEventView::Free(Some(space))) == Seq::<ReportView>::empty(),
{
}

/// Where the room does not allow one more file, or is not known, the writing ends
/// with a word on what is left.
pub proof fn no_room_for_one_more(s: TestView, free: Option<u64>, space: u64)
    requires
        s.stage == TestStage::Space,
        space == (match free {
            Some(f) => f,
            None => 0,
        }),
        space - s.file_size < 104857600,
    ensures
        s.next(TestEventView::Free(free)) == (TestView {
            stage: if s.hashes.len() == 0 {
                TestStage::Done
            } else {
                TestStage::VerifyStop
            },
            ..s
        }),
        s.hashes.len() > 0 ==> s.reports(TestEventView::Free(free)) == seq![
            ReportView::Log(
                seq![
                    PieceView::Text("剩余空间不足，停止写入。剩余 "@),
                    PieceView::Gb(space),
                    PieceView::Text(" GB"@),
                ],
            ),
            ReportView::Log(
                seq![
                    PieceView::Text("写入完成，总写入 "@),
                    PieceView::Gb(s.total_write),
                    PieceView::Text(" GB"@),
                ],
            ),
            ReportView::Log(seq![PieceView::Text("----- 开始回读校验 -----"@)]),
        ],
        s.hashes.len() == 0 ==> s.reports(TestEventView::Free(free)) == seq![
            ReportView::Log(
                seq![
                    PieceView::Text("剩余空间不足，停止写入。剩余 "@),
                    PieceView::Gb(space),
                    PieceView::Text(" GB"@),
                ],
            ),
            ReportView::Log(
                seq![
                    PieceView::Text("写入完成，总写入 "@),
                    PieceView::Gb(s.total_write),
                    PieceView::Text(" GB"@),
                ],
            ),
            ReportView::Log(seq![PieceView::Text("----- 开始回读校验 -----"@)]),
            ReportView::Log(seq![PieceView::Text("===== 全盘测试结果 ====="@)]),
            ReportView::Log(
                seq![
                    PieceView::Text("错误文件数："@),
                    PieceView::Text(text::decimal(0)),
                ],
            ),
            ReportView::Log(seq![PieceView::Text("✅ 全部校验通过"@)]),
            ReportView::Finished,
        ],
{
    files::test_file_names_tell_the_number(s.hashes.len() + 1);
    if s.hashes.len() > 0 {
        assert(s.reports(TestEventView::Free(free)) =~= seq![
            ReportView::Log(
                seq![
                    PieceView::Text("剩余空间不足，停止写入。剩余 "@),
                    PieceView::Gb(space),
                    PieceView::Text(" GB"@),
                ],
            ),
            ReportView::Log(
                seq![
                    PieceView::Text("写入完成，总写入 "@),
                    PieceView::Gb(s.total_write),
                    PieceView::Text(" GB"@),
                ],
            ),
            ReportView::Log(seq![PieceView::Text("----- 开始回读校验 -----"@)]),
        ]);
    } else {
        assert(s.reports(TestEventView::Free(free)) =~= seq![
            ReportView::Log(
                seq![
                    PieceView::Text("剩余空间不足，停止写入。剩余 "@),
                    PieceView::Gb(space),
                    PieceView::Text(" GB"@),
                ],
            ),
            ReportView::Log(
                seq![
                    PieceView::Text("写入完成，总写入 "@),
                    PieceView::Gb(s.total_write),
                    PieceView::Text(" GB"@),
                ],
            ),
            ReportView::Log(seq![PieceView::Text("----- 开始回读校验 -----"@)]),
            ReportView::Log(seq![PieceView::Text("===== 全盘测试结果 ====="@)]),
            ReportView::Log(
                seq![
                    PieceView::Text("错误文件数："@),
                    PieceView::Text(text::decimal(0)),
                ],
            ),
            ReportView::Log(seq![PieceView::Text("✅ 全部校验通过"@)]),
            ReportView::Finished,
        ]);
    }
}

/// Where the user stops the writing, it ends with a word on it.
pub proof fn stopped_writing(s: TestView)
    requires
        s.stage == TestStage::CheckStop,
    ensures
        s.next(TestEventView::Stop(true)) == (TestView {
            stage: if s.hashes.len() == 0 {
                TestStage::Done
            } else {
                TestStage::VerifyStop
            },
            ..s
        }),
        s.hashes.len() > 0 ==> s.reports(TestEventView::Stop(true)) == seq![
            ReportView::Log(seq![PieceView::Text("用户终止写入阶段"@)]),
            ReportView::Log(
                seq![
                    PieceView::Text("写入完成，总写入 "@),
                    PieceView::Gb(s.total_write),
                    PieceView::Text(" GB"@),
                ],
            ),
            ReportView::Log(seq![PieceView::Text("----- 开始回读校验 -----"@)]),
        ],
        s.hashes.len() == 0 ==> s.reports(TestEventView::Stop(true)) == seq![
            ReportView::Log(seq![PieceView::Text("用户终止写入阶段"@)]),
            ReportView::Log(
                seq![
                    PieceView::Text("写入完成，总写入 "@),
                    PieceView::Gb(s.total_write),
                    PieceView::Text(" GB"@),
                ],
            ),
            ReportView::Log(seq![PieceView::Text("----- 开始回读校验 -----"@)]),
            ReportView::Log(seq![PieceView::Text("===== 全盘测试结果 ====="@)]),
            ReportView::Log(
                seq![
                    PieceView::Text("错误文件数："@),
                    PieceView::Text(text::decimal(0)),
                ],
            ),
            ReportView::Log(seq![PieceView::Text("✅ 全部校验通过"@)]),
            ReportView::Finished,
        ],
{
    files::test_file_names_tell_the_number(s.hashes.len() + 1);
    if s.hashes.len() > 0 {
        assert(s.reports(TestEventView::Stop(true)) =~= seq![
            ReportView::Log(seq![PieceView::Text("用户终止写入阶段"@)]),
            ReportView::Log(
                seq![
                    PieceView::Text("写入完成，总写入 "@),
                    PieceView::Gb(s.total_write),
                    PieceView::Text(" GB"@),
                ],
            ),
            ReportView::Log(seq![PieceView::Text("----- 开始回读校验 -----"@)]),
        ]);
    } else {
        assert(s.reports(TestEventView::Stop(true)) =~= seq![
            ReportView::Log(seq![PieceView::Text("用户终止写入阶段"@)]),
            ReportView::Log(
                seq![
                    PieceView::Text("写入完成，总写入 "@),
                    PieceView::Gb(s.total_write),
                    PieceView::Text(" GB"@),
                ],
            ),
            ReportView::Log(seq![PieceView::Text("----- 开始回读校验 -----"@)]),
            ReportView::Log(seq![PieceView::Text("===== 全盘测试结果 ====="@)]),
            ReportView::Log(
                seq![
                    PieceView::Text("错误文件数："@),
                    PieceView::Text(text::decimal(0)),
                ],
            ),
            ReportView::Log(seq![PieceView::Text("✅ 全部校验通过"@)]),
            ReportView::Finished,
        ]);
    }
}

/// Where a file cannot be written, the writing ends with its name and the reason.
pub proof fn failed_writing(s: TestView, why: Seq<char>)
    requires
        s.stage == TestStage::Write,
    ensures
        s.next(TestEventView::Wrote(Err(why))) == (TestView {
            stage: if s.hashes.len() == 0 {
                TestStage::Done
            } else {
                TestStage::VerifyStop
            },
            ..s
        }),
        s.hashes.len() > 0 ==> s.reports(TestEventView::Wrote(Err(why))) == seq![
            ReportView::Log(
                seq![
                    PieceView::Text("写入失败 "@),
                    PieceView::Text("\""@ + ("test_"@ + text::decimal(s.hashes.len() + 1) + ".h2w"@) + "\""@),
                    PieceView::Text(": "@),
                    PieceView::Text(why),
                ],
            ),
            ReportView::Log(
                seq![
                    PieceView::Text("写入完成，总写入 "@),
                    PieceView::Gb(s.total_write),
                    PieceView::Text(" GB"@),
                ],
            ),
            ReportView::Log(seq![PieceView::Text("----- 开始回读校验 -----"@)]),
        ],
        s.hashes.len() == 0 ==> s.reports(TestEventView::Wrote(Err(why))) == seq![
            ReportView::Log(
                seq![
                    PieceView::Text("写入失败 "@),
                    PieceView::Text("\""@ + ("test_"@ + text::decimal(s.hashes.len() + 1) + ".h2w"@) + "\""@),
                    PieceView::Text(": "@),
                    PieceView::Text(why),
                ],
            ),
            ReportView::Log(
                seq![
                    PieceView::Text("写入完成，总写入 "@),
                    PieceView::Gb(s.total_write),
                    PieceView::Text(" GB"@),
                ],
            ),
            ReportView::Log(seq![PieceView::Text("----- 开始回读校验 -----"@)]),
            ReportView::Log(seq![PieceView::Text("===== 全盘测试结果 ====="@)]),
            ReportView::Log(
                seq![
                    PieceView::Text("错误文件数："@),
                    PieceView::Text(text::decimal(0)),
                ],
            ),
            ReportView::Log(seq![PieceView::Text("✅ 全部校验通过"@)]),
            ReportView::Finished,
        ],
{
    files::test_file_names_tell_the_number(s.hashes.len() + 1);
    if s.hashes.len() > 0 {
        assert(s.reports(TestEventView::Wrote(Err(why))) =~= seq![
            ReportView::Log(
                seq![
                    PieceView::Text("写入失败 "@),
                    PieceView::Text("\""@ + ("test_"@ + text::decimal(s.hashes.len() + 1) + ".h2w"@) + "\""@),
                    PieceView::Text(": "@),
                    PieceView::Text(why),
                ],
            ),
            ReportView::Log(
                seq![
                    PieceView::Text("写入完成，总写入 "@),
                    PieceView::Gb(s.total_write),
                    PieceView::Text(" GB"@),
                ],
            ),
            ReportView::Log(seq![PieceView::Text("----- 开始回读校验 -----"@)]),
        ]);
    } else {
        assert(s.reports(TestEventView::Wrote(Err(why))) =~= seq![
            ReportView::Log(
                seq![
                    PieceView::Text("写入失败 "@),
                    PieceView::Text("\""@ + ("test_"@ + text::decimal(s.hashes.len() + 1) + ".h2w"@) + "\""@),
                    PieceView::Text(": "@),
                    PieceView::Text(why),
                ],
            ),
            ReportView::Log(
                seq![
                    PieceView::Text("写入完成，总写入 "@),
                    PieceView::Gb(s.total_write),
                    PieceView::Text(" GB"@),
                ],
            ),
            ReportView::Log(seq![PieceView::Text("----- 开始回读校验 -----"@)]),
            ReportView::Log(seq![PieceView::Text("===== 全盘测试结果 ====="@)]),
            ReportView::Log(
                seq![
                    PieceView::Text("错误文件数："@),
                    PieceView::Text(text::decimal(0)),
                ],
            ),
            ReportView::Log(seq![PieceView::Text("✅ 全部校验通过"@)]),
            ReportView::Finished,
        ]);
    }
}

/// Where the user does not stop the writing, the room is looked at again.
pub proof fn writing_goes_on(s: TestView)
    requires
        s.stage == TestStage::CheckStop,
    ensures
        s.next(TestEventView::Stop(false)) == (TestView { stage: TestStage::Space, ..s }),
        s.reports(TestEventView::Stop(false)) == Seq::<ReportView>::empty(),
{
}

/// Before a file is written it is named, with a warning in front where it is
/// there already.
pub proof fn files_are_named_before_they_are_written(s: TestView)
    requires
        s.stage == TestStage::Exists,
    ensures
        forall|exists_already: bool|
            #[trigger] s.next(TestEventView::Exists(exists_already)) == (TestView {
                stage: TestStage::Write,
                ..s
            }),
        s.reports(TestEventView::Exists(true)) == seq![
            ReportView::Log(
                seq![
                    PieceView::Text("⚠ "@),
                    PieceView::Text("\""@ + ("test_"@ + text::decimal(s.hashes.len() + 1) + ".h2w"@) + "\""@),
                    PieceView::Text(" 已存在，将被覆盖"@),
                ],
            ),
            ReportView::Log(
                seq![
                    PieceView::Text("写入 "@),
                    PieceView::Text("\""@ + ("test_"@ + text::decimal(s.hashes.len() + 1) + ".h2w"@) + "\""@),
                ],
            ),
        ],
        s.reports(TestEventView::Exists(false)) == seq![
            ReportView::Log(
                seq![
                    PieceView::Text("写入 "@),
                    PieceView::Text("\""@ + ("test_"@ + text::decimal(s.hashes.len() + 1) + ".h2w"@) + "\""@),
                ],
            ),
        ],
{
    files::test_file_names_tell_the_number(s.hashes.len() + 1);
    assert(s.reports(TestEventView::Exists(true)) =~= seq![
        ReportView::Log(
            seq![
                PieceView::Text("⚠ "@),
                PieceView::Text("\""@ + ("test_"@ + text::decimal(s.hashes.len() + 1) + ".h2w"@) + "\""@),
                PieceView::Text(" 已存在，将被覆盖"@),
            ],
        ),
        ReportView::Log(
            seq![
                PieceView::Text("写入 "@),
                PieceView::Text("\""@ + ("test_"@ + text::decimal(s.hashes.len() + 1) + ".h2w"@) + "\""@),
            ],
        ),
    ]);
    assert(s.reports(TestEventView::Exists(false)) =~= seq![
        ReportView::Log(
            seq![
                PieceView::Text("写入 "@),
                PieceView::Text("\""@ + ("test_"@ + text::decimal(s.hashes.len() + 1) + ".h2w"@) + "\""@),
            ],
        ),
    ]);
}

/// A file that is written is counted with its hash and its bytes, the progress
/// is told against the estimate, and the user is asked again.
pub proof fn written_files_are_counted(s: TestView, hash: u64, wrote: u64)
    requires
        s.stage == TestStage::Write,
        s.total_write + wrote <= u64::MAX,
    ensures
        ({
            let ev = TestEventView::Wrote(Ok((hash, wrote)));
            let total = (s.total_write + wrote) as u64;
            &&& s.next(ev) == (TestView {
                stage: TestStage::CheckStop,
                total_write: total,
                hashes: s.hashes.push(hash),
                ..s
            })
            &&& s.reports(ev) == seq![
                ReportView::Progress {
                    phase: seq![
                        PieceView::Text("写入阶段 "@),
                        PieceView::Gb(total),
                        PieceView::Text(" GB / 预计 "@),
                        PieceView::Gb(s.est_total),
                        PieceView::Text(" GB"@),
                    ],
                    cur: total,
                    total: s.est_total,
                },
            ]
        }),
{
}

/// Before a file is read back it is named, unless the user stops: then the test
/// is over with what it found so far.
pub proof fn files_are_named_before_they_are_read(s: TestView)
    requires
        s.stage == TestStage::VerifyStop,
    ensures
        s.next(TestEventView::Stop(false)) == (TestView { stage: TestStage::Read, ..s }),
        s.reports(TestEventView::Stop(false)) == seq![
            ReportView::Log(
                seq![
                    PieceView::Text("校验 "@),
                    PieceView::Text("\""@ + ("test_"@ + text::decimal(s.checked + 1) + ".h2w"@) + "\""@),
                ],
            ),
        ],
        s.next(TestEventView::Stop(true)) == (TestView { stage: TestStage::Done, ..s }),
        s.reports(TestEventView::Stop(true)) == seq![
            ReportView::Log(seq![PieceView::Text("===== 全盘测试结果 ====="@)]),
            ReportView::Log(
                seq![
                    PieceView::Text("错误文件数："@),
                    PieceView::Text(text::decimal(s.errors)),
                ],
            ),
            if s.errors == 0 {
                ReportView::Log(seq![PieceView::Text("✅ 全部校验通过"@)])
            } else {
                ReportView::Log(seq![PieceView::Text("❌ 检测到数据损坏：扩容盘 / 闪存坏块"@)])
            },
            ReportView::Finished,
        ],
{
    files::test_file_names_tell_the_number(s.checked + 1);
    assert(s.reports(TestEventView::Stop(false)) =~= seq![
        ReportView::Log(
            seq![
                PieceView::Text("校验 "@),
                PieceView::Text("\""@ + ("test_"@ + text::decimal(s.checked + 1) + ".h2w"@) + "\""@),
            ],
        ),
    ]);
}

/// A file that is read back is counted with its bytes, the progress is told
/// against what was written, and the file passes if and only if its hash is the
/// one that was written under its number.
pub proof fn read_files_are_compared(s: TestView, hash: u64, bytes: u64)
    requires
        s.wf(),
        s.stage == TestStage::Read,
        s.verified + bytes <= u64::MAX,
    ensures
        ({
            let ev = TestEventView::Read(Ok(Some((hash, bytes))));
            let verified = (s.verified + bytes) as u64;
            let bad = hash != s.hashes[s.checked as int];
            let last = s.checked + 1 == s.hashes.len();
            let r = s.reports(ev);
            &&& s.next(ev) == (TestView {
                stage: if last {
                    TestStage::Done
                } else {
                    TestStage::VerifyStop
                },
                checked: s.checked + 1,
                verified,
                errors: if bad {
                    s.errors + 1
                } else {
                    s.errors
                },
                ..s
            })
            &&& r.len() == if last {
                6int
            } else {
                2
            }
            &&& r[0] == (ReportView::Progress {
                phase: seq![
                    PieceView::Text("校验阶段 "@),
                    PieceView::Gb(verified),
                    PieceView::Text(" GB / "@),
                    PieceView::Gb(s.total_write),
                    PieceView::Text(" GB"@),
                ],
                cur: verified,
                total: s.total_write,
            })
            &&& bad ==> r[1] == ReportView::Log(
                seq![
                    PieceView::Text("❌ "@),
                    PieceView::Text("\""@ + ("test_"@ + text::decimal(s.checked + 1) + ".h2w"@) + "\""@),
                    PieceView::Text(" 校验失败，数据损坏"@),
                ],
            )
            &&& !bad ==> r[1] == ReportView::Log(
                seq![
                    PieceView::Text("✅ "@),
                    PieceView::Text("\""@ + ("test_"@ + text::decimal(s.checked + 1) + ".h2w"@) + "\""@),
                    PieceView::Text(" 校验通过"@),
                ],
            )
        }),
{
    files::test_file_names_tell_the_number(s.checked + 1);
}

/// A file that cannot be read is an error with its name and the reason, and the
/// test goes on to the next.
pub proof fn unreadable_files_are_errors(s: TestView, why: Seq<char>)
    requires
        s.wf(),
        s.stage == TestStage::Read,
    ensures
        ({
            let ev = TestEventView::Read(Err(why));
            let last = s.checked + 1 == s.hashes.len();
            let r = s.reports(ev);
            &&& s.next(ev) == (TestView {
                stage: if last {
                    TestStage::Done
                } else {
                    TestStage::VerifyStop
                },
                checked: s.checked + 1,
                errors: s.errors + 1,
                ..s
            })
            &&& r.len() == if last {
                5int
            } else {
                1
            }
            &&& r[0] == ReportView::Log(
                seq![
                    PieceView::Text("读取失败 "@),
                    PieceView::Text("\""@ + ("test_"@ + text::decimal(s.checked + 1) + ".h2w"@) + "\""@),
                    PieceView::Text(": "@),
                    PieceView::Text(why),
                ],
            )
        }),
{
    files::test_file_names_tell_the_number(s.checked + 1);
}

/// Where the user stops within a file, the test is over with a word on it; the
/// file counts neither as read back nor as an error.
pub proof fn stopped_reading(s: TestView)
    requires
        s.stage == TestStage::Read,
    ensures
        s.next(TestEventView::Read(Ok(None))) == (TestView { stage: TestStage::Done, ..s }),
        s.reports(TestEventView::Read(Ok(None))).len() == 5,
        s.reports(TestEventView::Read(Ok(None)))[0] == ReportView::Log(
            seq![
                PieceView::Text("用户终止校验 "@),
                PieceView::Text("\""@ + ("test_"@ + text::decimal(s.checked + 1) + ".h2w"@) + "\""@),
            ],
        ),
{
    files::test_file_names_tell_the_number(s.checked + 1);
}

proof fn step_closes(s: TestView, ev: TestEventView)
    requires
        s.wf(),
        s.accepts(ev),
        s.next(ev).stage == TestStage::Done,
        s.stage != TestStage::Free,
    ensures
        ({
            let r = s.reports(ev);
            let n = r.len() as int;
            let errors = s.next(ev).errors;
            &&& n >= 4
            &&& r[n - 1] == ReportView::Finished
            &&& r[n - 2] == if errors == 0 {
                ReportView::Log(seq![PieceView::Text("✅ 全部校验通过"@)])
            } else {
                ReportView::Log(seq![PieceView::Text("❌ 检测到数据损坏：扩容盘 / 闪存坏块"@)])
            }
            &&& r[n - 3] == ReportView::Log(
                seq![
                    PieceView::Text("错误文件数："@),
                    PieceView::Text(text::decimal(errors)),
                ],
            )
            &&& r[n - 4] == ReportView::Log(seq![PieceView::Text("===== 全盘测试结果 ====="@)])
        }),
{
}

/// A test that learned how much room the drive has ends in this way: a heading,
/// the number of files that could not be read or came back with another hash,
/// and then that all is well if and only if each file read back could be read
/// and has the hash that was written; else that data is damaged.
pub proof fn last_lines_tell_the_damage(file_size: u64, evs: Seq<TestEventView>)
    requires
        TestView::init(file_size).accepts_all(evs),
        TestView::init(file_size).after(evs).stage == TestStage::Done,
        evs[0] != TestEventView::Free(None),
    ensures
        ({
            let r = TestView::init(file_size).all_reports(evs);
            let n = r.len() as int;
            let fine = forall|i: int|
                0 <= i < hashes_read(evs).len() ==> #[trigger] hashes_read(evs)[i] == Some(
                    hashes_written(evs)[i],
                );
            let well = ReportView::Log(seq![PieceView::Text("✅ 全部校验通过"@)]);
            let damaged = ReportView::Log(
                seq![
                    PieceView::Text("❌ 检测到数据损坏：扩容盘 / 闪存坏块"@),
                ],
            );
            &&& n >= 5
            &&& r[n - 1] == ReportView::Finished
            &&& fine ==> r[n - 2] == well
            &&& !fine ==> r[n - 2] == damaged
            &&& r[n - 2] == well <==> fine
            &&& r[n - 3] == ReportView::Log(
                seq![
                    PieceView::Text("错误文件数："@),
                    PieceView::Text(text::decimal(bad_files(hashes_written(evs), hashes_read(evs)))),
                ],
            )
            &&& r[n - 4] == ReportView::Log(seq![PieceView::Text("===== 全盘测试结果 ====="@)])
        }),
{
    let init = TestView::init(file_size);
    let before = evs.drop_last();
    counts_are_exact(file_size, before);
    counts_are_exact(file_size, evs);
    if before.len() > 0 {
        begun(file_size, before);
    }
    let s = init.after(before);
    step_closes(s, evs.last());
    no_bad_files(hashes_written(evs), hashes_read(evs));
    let last = s.reports(evs.last());
    let r = init.all_reports(evs);
    let earlier = init.all_reports(before);
    assert(r == earlier + last);
    told_from_the_start(file_size, before);
    assert(r[r.len() - 1] == last[last.len() - 1]);
    assert(r[r.len() - 2] == last[last.len() - 2]);
    assert(r[r.len() - 3] == last[last.len() - 3]);
    assert(r[r.len() - 4] == last[last.len() - 4]);
    reveal_strlit("✅ 全部校验通过");
    reveal_strlit("❌ 检测到数据损坏：扩容盘 / 闪存坏块");
    assert("✅ 全部校验通过"@[0] == '✅');
    assert("❌ 检测到数据损坏：扩容盘 / 闪存坏块"@[0] == '❌');
    let well = ReportView::Log(seq![PieceView::Text("✅ 全部校验通过"@)]);
    let damaged = ReportView::Log(seq![PieceView::Text("❌ 检测到数据损坏：扩容盘 / 闪存坏块"@)]);
    if well == damaged {
        let a = seq![PieceView::Text("✅ 全部校验通过"@)];
        let b = seq![PieceView::Text("❌ 检测到数据损坏：扩容盘 / 闪存坏块"@)];
        assert(a[0] == b[0]);
    }
}

/// The first thing that a test reports is that it begins.
pub proof fn told_from_the_start(file_size: u64, evs: Seq<TestEventView>)
    ensures
        TestView::init(file_size).all_reports(evs).len() > 0,
        TestView::init(file_size).all_reports(evs)[0] == ReportView::Log(
            seq![
                PieceView::Text("===== 全盘读写校验开始 ====="@),
            ],
        ),
    decreases evs.len(),
{
    if evs.len() > 0 {
        told_from_the_start(file_size, evs.drop_last());
    }
}

/// Bad files are counted one by one: one more where the next file read back
/// could not be read or has another hash, none more where it has its own.
pub proof fn bad_files_add_up(written: Seq<u64>, read: Seq<Option<u64>>, next: Option<u64>)
    ensures
        bad_files(written, Seq::empty()) == 0,
        bad_files(written, read.push(next)) == bad_files(written, read) + if next == Some(
            written[read.len() as int],
        ) {
            0int
        } else {
            1
        },
{
    assert(read.push(next).drop_last() =~= read);
}

} // verus!
