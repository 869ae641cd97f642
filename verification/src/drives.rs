//! The drives that can be tested.

use vstd::prelude::*;
use vstd::string::*;
use crate::report;

verus! {

/// The letters that drives go by.
pub const LETTERS: &'static str = "ABCDEFGHIJKLMNOPQRSTUVWXYZ";

/// The position of the letter of the system's drive, which is never offered.
pub const SYSTEM_DRIVE: usize = 2;

/// The letter at position `i`.
pub open spec fn letter(i: int) -> Seq<char> {
    LETTERS@.subrange(i, i + 1)
}

/// The root of the drive with the letter at position `i`.
pub open spec fn drive_root(i: int) -> Seq<char> {
    letter(i) + ":\\"@
}

/// Whether the drive with the letter at position `i` is offered, where
/// `present` says of each letter whether there is such a drive.
pub open spec fn offered(present: Seq<bool>, i: int) -> bool {
    present[i] && i != SYSTEM_DRIVE
}

/// The roots of the drives that are offered among the first `k` letters, in
/// the order of their letters.
pub open spec fn drive_list(present: Seq<bool>, k: int) -> Seq<Seq<char>>
    decreases k,
{
    if k <= 0 {
        Seq::empty()
    } else if offered(present, k - 1) {
        drive_list(present, k - 1).push(drive_root(k - 1))
    } else {
        drive_list(present, k - 1)
    }
}

/// The drives of `drive_list` as the log shows them: each between double
/// quotes and with its backslash doubled, and commas between them.
pub open spec fn shown_drives(present: Seq<bool>, k: int) -> Seq<char>
    decreases k,
{
    if k <= 0 {
        Seq::empty()
    } else if offered(present, k - 1) {
        (if drive_list(present, k - 1).len() == 0 {
            "\""@
        } else {
            shown_drives(present, k - 1) + ", \""@
        }) + letter(k - 1) + ":\\\\\""@
    } else {
        shown_drives(present, k - 1)
    }
}

/// The number of letters.
pub proof fn letter_count()
    ensures
        LETTERS@.len() == 26,
{
    reveal_strlit("ABCDEFGHIJKLMNOPQRSTUVWXYZ");
}

/// The roots of the drives that are offered, and how the log shows them.
pub fn list_drives(present: &Vec<bool>) -> (r: (Vec<String>, String))
    requires
        present@.len() == 26,
    ensures
        report::texts(r.0@) == drive_list(present@, 26),
        r.1@ == shown_drives(present@, 26),
{
    proof {
        letter_count();
    }
    let mut drives: Vec<String> = Vec::new();
    let mut shown = String::new();
    assert(report::texts(drives@) =~= drive_list(present@, 0));
    let mut i: usize = 0;
    while i < 26
        invariant
            i <= 26,
            present@.len() == 26,
            LETTERS@.len() == 26,
            report::texts(drives@) == drive_list(present@, i as int),
            shown@ == shown_drives(present@, i as int),
        decreases 26 - i,
    {
        assert(report::texts(drives@).len() == drives@.len());
        if present[i] && i != SYSTEM_DRIVE {
            let name = LETTERS.substring_char(i, i + 1);
            if drives.len() == 0 {
                shown = "\"".to_owned();
            } else {
                shown.append(", \"");
            }
            shown.append(name);
            shown.append(":\\\\\"");
            let mut root = name.to_owned();
            root.append(":\\");
            let ghost before = drives@;
            drives.push(root);
            assert(report::texts(drives@) =~= report::texts(before).push(drive_root(i as int)));
        }
        i = i + 1;
    }
    (drives, shown)
}

proof fn letters_in_order(i: int)
    requires
        0 <= i < 26,
    ensures
        drive_root(i).len() == 3,
        drive_root(i)[0] as int == 'A' as int + i,
{
    letter_count();
    reveal_strlit("ABCDEFGHIJKLMNOPQRSTUVWXYZ");
    reveal_strlit(":\\");
    assert(drive_root(i)[0] == LETTERS@[i]);
}

/// A drive is offered if and only if it is there and is not the system's.
pub proof fn offers_every_other_drive(present: Seq<bool>, k: int, i: int)
    requires
        0 <= k <= 26,
        0 <= i < 26,
    ensures
        drive_list(present, k).contains(drive_root(i)) <==> i < k && present[i] && i
            != SYSTEM_DRIVE,
    decreases k,
{
    let list = drive_list(present, k);
    if k > 0 {
        let rest = drive_list(present, k - 1);
        offers_every_other_drive(present, k - 1, i);
        letters_in_order(i);
        letters_in_order(k - 1);
        if offered(present, k - 1) {
            assert(list == rest.push(drive_root(k - 1)));
            assert(list.last() == drive_root(k - 1));
            if rest.contains(drive_root(i)) {
                let j = choose|j: int| 0 <= j < rest.len() && rest[j] == drive_root(i);
                assert(list[j] == drive_root(i));
            }
            if list.contains(drive_root(i)) && i != k - 1 {
                let j = choose|j: int| 0 <= j < list.len() && list[j] == drive_root(i);
                assert(j < rest.len());
                assert(rest[j] == drive_root(i));
            }
        }
    }
}

proof fn roots_ascend(present: Seq<bool>, k: int)
    requires
        0 <= k <= 26,
    ensures
        drive_list(present, k).len() <= if k > SYSTEM_DRIVE {
            k - 1
        } else {
            k
        },
        forall|a: int|
            0 <= a < drive_list(present, k).len() ==> ((#[trigger] drive_list(
                present,
                k,
            )[a])[0] as int) < 'A' as int + k,
        forall|a: int, b: int|
            0 <= a < b < drive_list(present, k).len() ==> (#[trigger] drive_list(present, k)[a])[0]
                < (#[trigger] drive_list(present, k)[b])[0],
    decreases k,
{
    if k > 0 {
        roots_ascend(present, k - 1);
        letters_in_order(k - 1);
    }
}

/// The drives are offered in the order of their letters, none of them twice,
/// and at most all but the system's.
pub proof fn drives_are_in_order(present: Seq<bool>)
    ensures
        drive_list(present, 26).len() <= 25,
        forall|a: int, b: int|
            0 <= a < b < drive_list(present, 26).len() ==> (#[trigger] drive_list(
                present,
                26,
            )[a])[0] < (#[trigger] drive_list(present, 26)[b])[0],
        drive_list(present, 26).no_duplicates(),
{
    roots_ascend(present, 26);
}

/// The system's drive is never offered.
pub proof fn system_drive_is_never_offered(present: Seq<bool>)
    ensures
        !drive_list(present, 26).contains("C:\\"@),
{
    offers_every_other_drive(present, 26, 2);
    letters_in_order(2);
    reveal_strlit("C:\\");
    reveal_strlit(":\\");
    letter_count();
    assert("C:\\"@ =~= drive_root(2));
}

/// The root of a drive is its letter, a colon and a backslash; the letters run
/// from A to Z.
pub proof fn roots_are_letters(i: int)
    requires
        0 <= i < 26,
    ensures
        drive_root(i).len() == 3,
        drive_root(i)[0] as int == 'A' as int + i,
        drive_root(i)[1] == ':',
        drive_root(i)[2] == '\\',
{
    letters_in_order(i);
    reveal_strlit(":\\");
}

/// Whatever the list holds is the root of a drive that is there and is not C,
/// the third letter.
pub proof fn nothing_else_is_offered(present: Seq<bool>, k: int, a: int)
    requires
        0 <= k <= 26,
        0 <= a < drive_list(present, k).len(),
    ensures
        exists|i: int|
            0 <= i < k && present[i] && i != 2 && drive_list(present, k)[a] == #[trigger] drive_root(
                i,
            ),
    decreases k,
{
    if k > 0 {
        let rest = drive_list(present, k - 1);
        if a < rest.len() {
            nothing_else_is_offered(present, k - 1, a);
            assert(drive_list(present, k)[a] == rest[a]);
        } else {
            assert(drive_list(present, k)[a] == drive_root(k - 1));
        }
    }
}

/// The list holds every drive that is there but C, the third letter.
pub proof fn list_holds_the_drives_but_c(present: Seq<bool>, i: int)
    requires
        0 <= i < 26,
    ensures
        drive_list(present, 26).contains(drive_root(i)) <==> present[i] && i != 2,
{
    offers_every_other_drive(present, 26, i);
}

/// `s` with each backslash doubled.
pub open spec fn escaped(s: Seq<char>) -> Seq<char>
    decreases s.len(),
{
    if s.len() == 0 {
        Seq::empty()
    } else if s.last() == '\\' {
        escaped(s.drop_last()).push('\\').push('\\')
    } else {
        escaped(s.drop_last()).push(s.last())
    }
}

/// The texts of `list`, each escaped and between double quotes, with commas and
/// spaces between them.
pub open spec fn listed(list: Seq<Seq<char>>) -> Seq<char>
    decreases list.len(),
{
    if list.len() == 0 {
        Seq::empty()
    } else {
        listed(list.drop_last()) + (if list.len() == 1 {
            Seq::empty()
        } else {
            seq![',', ' ']
        }) + seq!['"'] + escaped(list.last()) + seq!['"']
    }
}

proof fn roots_escaped(i: int)
    requires
        0 <= i < 26,
    ensures
        escaped(drive_root(i)) == letter(i) + seq![':', '\\', '\\'],
{
    roots_are_letters(i);
    letter_count();
    let r = drive_root(i);
    assert(letter(i)[0] == r[0]);
    reveal_with_fuel(escaped, 4);
    assert(r.drop_last().drop_last().drop_last().len() == 0);
    assert(r.drop_last().drop_last().last() == r[0]);
    assert(r.drop_last().last() == r[1]);
    assert(escaped(r) =~= letter(i) + seq![':', '\\', '\\']);
}

/// What the log shows of the drives is exactly the list: every drive of it, in
/// its order, escaped and quoted, and nothing else.
pub proof fn log_shows_the_list(present: Seq<bool>, k: int)
    requires
        0 <= k <= 26,
    ensures
        shown_drives(present, k) == listed(drive_list(present, k)),
    decreases k,
{
    if k > 0 {
        log_shows_the_list(present, k - 1);
        if offered(present, k - 1) {
            let rest = drive_list(present, k - 1);
            let list = drive_list(present, k);
            assert(list.drop_last() =~= rest);
            assert(list.last() == drive_root(k - 1));
            roots_escaped(k - 1);
            reveal_strlit("\"");
            reveal_strlit(", \"");
            reveal_strlit(":\\\\\"");
            assert(shown_drives(present, k) =~= listed(list));
        }
    }
}

} // verus!
