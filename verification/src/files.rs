//! The files that a test leaves on a drive, and the room it leaves free.

use vstd::prelude::*;
use vstd::string::*;
use crate::text::{decimal_text, quoted_text};

verus! {

/// How the name of a test file begins.
pub const TEST_FILE_PREFIX: &'static str = "test_";

/// How the name of a test file ends.
pub const TEST_FILE_EXT: &'static str = ".h2w";

/// The name of the file that a benchmark works on.
pub const BENCH_FILE: &'static str = "bench_test.tmp";

/// The bytes that a test leaves free on a drive, so that filling it up does
/// not upset the system.
pub const SPACE_MARGIN: u64 = 104857600;

/// Whether `name` begins with the prefix and ends with the extension of test
/// files.
pub open spec fn names_test_file(name: Seq<char>) -> bool {
    &&& TEST_FILE_PREFIX@.is_prefix_of(name)
    &&& TEST_FILE_EXT@.is_suffix_of(name)
}

/// The name of the test file with number `index`.
pub open spec fn test_file(index: nat) -> Seq<char> {
    TEST_FILE_PREFIX@ + crate::text::decimal(index) + TEST_FILE_EXT@
}

/// Whether a file of `file_size` bytes fits into `space` bytes and still
/// leaves `SPACE_MARGIN` bytes.
pub open spec fn leaves_margin(space: int, file_size: int) -> bool {
    space - file_size >= SPACE_MARGIN
}

fn has_prefix(name: &str, prefix: &str) -> (r: bool)
    ensures
        r == prefix@.is_prefix_of(name@),
{
    let n: usize = prefix.unicode_len();
    if n > name.unicode_len() {
        return false;
    }
    let mut i: usize = 0;
    while i < n
        invariant
            i <= n,
            n == prefix@.len(),
            n <= name@.len(),
            forall|j: int| 0 <= j < i ==> prefix@[j] == name@[j],
        decreases n - i,
    {
        if prefix.get_char(i) != name.get_char(i) {
            assert(name@.subrange(0, n as int)[i as int] != prefix@[i as int]);
            return false;
        }
        i = i + 1;
    }
    assert(prefix@ =~= name@.subrange(0, n as int));
    true
}

fn has_suffix(name: &str, suffix: &str) -> (r: bool)
    ensures
        r == suffix@.is_suffix_of(name@),
{
    let n: usize = suffix.unicode_len();
    let m: usize = name.unicode_len();
    if n > m {
        return false;
    }
    let mut i: usize = 0;
    while i < n
        invariant
            i <= n,
            n == suffix@.len(),
            m == name@.len(),
            n <= m,
            forall|j: int| 0 <= j < i ==> suffix@[j] == name@[m - n + j],
        decreases n - i,
    {
        if suffix.get_char(i) != name.get_char(m - n + i) {
            assert(name@.subrange(m - n, m as int)[i as int] != suffix@[i as int]);
            return false;
        }
        i = i + 1;
    }
    assert(suffix@ =~= name@.subrange(m - n, m as int));
    true
}

/// Whether a file of this name was left by a test.
pub fn is_test_file(name: &str) -> (r: bool)
    ensures
        r == names_test_file(name@),
{
    has_prefix(name, TEST_FILE_PREFIX) && has_suffix(name, TEST_FILE_EXT)
}

/// The positions of the test files among `names`, in increasing order.
pub fn select_test_files(names: &Vec<String>) -> (r: Vec<usize>)
    ensures
        forall|i: int, j: int| 0 <= i < j < r@.len() ==> r@[i] < r@[j],
        forall|k: usize|
            #[trigger] r@.contains(k) <==> k < names@.len() && names_test_file(names@[k as int]@),
{
    let mut r: Vec<usize> = Vec::new();
    let mut i: usize = 0;
    while i < names.len()
        invariant
            i <= names@.len(),
            forall|a: int| 0 <= a < r@.len() ==> r@[a] < i,
            forall|a: int, b: int| 0 <= a < b < r@.len() ==> r@[a] < r@[b],
            forall|k: usize|
                #[trigger] r@.contains(k) <==> k < i && names_test_file(names@[k as int]@),
        decreases names@.len() - i,
    {
        let ghost before = r@;
        if is_test_file(names[i].as_str()) {
            r.push(i);
            proof {
                assert(r@.last() == i);
                assert forall|k: usize| #[trigger] r@.contains(k) <==> before.contains(k) || k
                    == i by {
                    if before.contains(k) {
                        let a = choose|a: int| 0 <= a < before.len() && before[a] == k;
                        assert(r@[a] == k);
                    }
                }
            }
        }
        i = i + 1;
    }
    r
}

/// The name of the test file with number `index`.
pub fn test_file_name(index: u64) -> (r: String)
    ensures
        r@ == test_file(index as nat),
{
    let mut r = TEST_FILE_PREFIX.to_owned();
    r.append(decimal_text(index).as_str());
    r.append(TEST_FILE_EXT);
    r
}

/// The name of the test file with number `index`, between double quotes.
pub fn quoted_test_file_name(index: u64) -> (r: String)
    ensures
        r@ == crate::text::quoted(test_file(index as nat)),
{
    quoted_text(test_file_name(index).as_str())
}

/// Whether one more file of `file_size` bytes may be written where `space`
/// bytes are free.
pub fn has_enough_space(space: u64, file_size: u64) -> (r: bool)
    ensures
        r == leaves_margin(space as int, file_size as int),
{
    space >= SPACE_MARGIN && space - SPACE_MARGIN >= file_size
}

/// The free bytes of a drive, from what the system call that asks for them
/// returned: `ok` is zero where it failed.
pub fn free_space_bytes(ok: i32, free_total: u64) -> (r: Option<u64>)
    ensures
        r == (if ok != 0 {
            Some(free_total)
        } else {
            None
        }),
{
    if ok != 0 {
        Some(free_total)
    } else {
        None
    }
}

/// Every file that a test writes is one that `is_test_file` finds again.
pub proof fn test_files_are_recognised(index: nat)
    ensures
        names_test_file(test_file(index)),
{
    let name = test_file(index);
    let p = TEST_FILE_PREFIX@;
    let e = TEST_FILE_EXT@;
    assert(p =~= name.subrange(0, p.len() as int));
    assert(e =~= name.subrange(name.len() - e.len(), name.len() as int));
}

/// Test files with different numbers have different names.
pub proof fn test_file_names_differ(a: nat, b: nat)
    requires
        a != b,
    ensures
        test_file(a) != test_file(b),
{
    if test_file(a) == test_file(b) {
        let p = TEST_FILE_PREFIX@;
        let e = TEST_FILE_EXT@;
        let da = crate::text::decimal(a);
        let db = crate::text::decimal(b);
        assert(da =~= test_file(a).subrange(p.len() as int, test_file(a).len() - e.len()));
        assert(db =~= test_file(b).subrange(p.len() as int, test_file(b).len() - e.len()));
        crate::text::decimal_injective(a, b);
    }
}

/// The benchmark's file is no test file: cleaning up after a test keeps it.
pub proof fn bench_file_is_no_test_file()
    ensures
        !names_test_file(BENCH_FILE@),
{
    reveal_strlit("test_");
    reveal_strlit("bench_test.tmp");
    assert(TEST_FILE_PREFIX@[0] == 't');
    assert(BENCH_FILE@[0] == 'b');
    if names_test_file(BENCH_FILE@) {
        assert(BENCH_FILE@.subrange(0, TEST_FILE_PREFIX@.len() as int)[0] == 'b');
    }
}

/// The test files are those whose names are `test_`, anything, `.h2w`.
pub proof fn test_files_have_prefix_and_extension(name: Seq<char>)
    ensures
        names_test_file(name) <==> exists|middle: Seq<char>|
            name == #[trigger] ("test_"@ + middle + ".h2w"@),
{
    reveal_strlit("test_");
    reveal_strlit(".h2w");
    let p = "test_"@;
    let e = ".h2w"@;
    if names_test_file(name) {
        assert(name.subrange(0, 5) =~= p);
        assert(name.subrange(name.len() - 4, name.len() as int) =~= e);
        if name.len() < 9 {
            assert(name.subrange(name.len() - 4, name.len() as int)[0] == '.');
            assert(name.subrange(0, 5)[0] == 't');
            assert(name.subrange(0, 5)[name.len() - 4] == name[name.len() - 4]);
            assert(p[1] == 'e' && p[2] == 's' && p[3] == 't' && p[4] == '_');
        }
        let middle = name.subrange(5, name.len() - 4);
        assert(name =~= p + middle + e);
    }
    if exists|middle: Seq<char>| name == #[trigger] ("test_"@ + middle + ".h2w"@) {
        let middle = choose|middle: Seq<char>| name == #[trigger] ("test_"@ + middle + ".h2w"@);
        assert(p =~= name.subrange(0, 5));
        assert(e =~= name.subrange(name.len() - 4, name.len() as int));
    }
}

/// The name of a test file tells its number: between `test_` and `.h2w` stands
/// the number in decimal.
pub proof fn test_file_names_tell_the_number(index: nat)
    ensures
        ({
            let name = test_file(index);
            &&& name.subrange(0, 5) == "test_"@
            &&& name.subrange(name.len() - 4, name.len() as int) == ".h2w"@
            &&& crate::text::value(name.subrange(5, name.len() - 4)) == index
            &&& name == "test_"@ + crate::text::decimal(index) + ".h2w"@
        }),
{
    reveal_strlit("test_");
    reveal_strlit(".h2w");
    let name = test_file(index);
    let d = crate::text::decimal(index);
    crate::text::decimal_reads_back(index);
    assert(name.subrange(0, 5) =~= "test_"@);
    assert(name.subrange(name.len() - 4, name.len() as int) =~= ".h2w"@);
    assert(name.subrange(5, name.len() - 4) =~= d);
}

/// A file may be written if and only if a hundred megabytes are left free after
/// it.
pub proof fn hundred_megabytes_stay_free(space: int, file_size: int)
    ensures
        leaves_margin(space, file_size) <==> space - file_size >= 100 * 1024 * 1024,
{
}

/// The benchmark's file is called `bench_test.tmp`.
pub proof fn bench_file_name()
    ensures
        BENCH_FILE@ == "bench_test.tmp"@,
{
}

} // verus!
