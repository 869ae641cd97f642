//! Where a font with Chinese glyphs may be found.

use vstd::prelude::*;
use vstd::string::*;
use crate::report;

verus! {

/// Where a font may lie: `parts` joined to a path, from the user's home
/// directory on where `in_home` is set.
#[derive(Debug)]
pub struct FontPath {
    pub in_home: bool,
    pub parts: Vec<String>,
}

/// What a look at one place for a font finds.
#[derive(Debug, Clone, Copy, PartialEq, Eq, Structural)]
pub enum FontProbe {
    /// There is no file.
    Missing,
    /// There is a file, but it cannot be read.
    Unreadable,
    /// There is a file that can be read.
    Readable,
}

/// The contents of a `FontPath`.
#[verifier::ext_equal]
pub struct FontPathView {
    pub in_home: bool,
    pub parts: Seq<Seq<char>>,
}

impl View for FontPath {
    type V = FontPathView;

    open spec fn view(&self) -> FontPathView {
        FontPathView { in_home: self.in_home, parts: report::texts(self.parts@) }
    }
}

/// The contents of each path.
pub open spec fn paths(v: Seq<FontPath>) -> Seq<FontPathView> {
    v.map_values(|p: FontPath| p@)
}

/// Fonts of the system, the best first: Windows, macOS, then Linux with the
/// fonts for simplified Chinese ahead.
pub open spec fn system_fonts() -> Seq<Seq<char>> {
    seq![
        "C:\\Windows\\Fonts\\msyh.ttc"@,
        "C:\\Windows\\Fonts\\msyh.ttf"@,
        "C:\\Windows\\Fonts\\simhei.ttf"@,
        "C:\\Windows\\Fonts\\simsun.ttc"@,
        "/System/Library/Fonts/PingFang.ttc"@,
        "/System/Library/Fonts/Hiragino Sans GB.ttc"@,
        "/System/Library/Fonts/STHeiti Light.ttc"@,
        "/Library/Fonts/Arial Unicode.ttf"@,
        "/usr/share/fonts/opentype/noto/NotoSansCJKsc-Regular.otf"@,
        "/usr/share/fonts/opentype/noto/NotoSansCJK-Regular.ttc"@,
        "/usr/share/fonts/noto-cjk/NotoSansCJK-Regular.ttc"@,
        "/usr/share/fonts/google-noto-sans-cjk-ttc/NotoSansCJK-Regular.ttc"@,
        "/usr/share/fonts/truetype/wqy/wqy-microhei.ttc"@,
        "/usr/share/fonts/truetype/wqy/wqy-zenhei.ttc"@,
        "/usr/share/fonts/truetype/droid/DroidSansFallbackFull.ttf"@,
        "/usr/share/fonts/truetype/arphic/uming.ttc"@,
    ]
}

/// Names of font files that users keep in their home directories.
pub open spec fn user_fonts() -> Seq<Seq<char>> {
    seq![
        "NotoSansCJKsc-Regular.otf"@,
        "NotoSansCJK-Regular.ttc"@,
        "wqy-microhei.ttc"@,
        "wqy-zenhei.ttc"@,
        "SourceHanSansSC-Regular.otf"@,
        "msyh.ttc"@,
    ]
}

/// The first `k` fonts of the system.
pub open spec fn system_paths(k: int) -> Seq<FontPathView> {
    Seq::new(k as nat, |i: int| FontPathView { in_home: false, parts: seq![system_fonts()[i]] })
}

/// The places of the first `k` users' fonts: `.fonts`, then
/// `.local/share/fonts`, for each.
pub open spec fn user_paths(k: int) -> Seq<FontPathView>
    decreases k,
{
    if k <= 0 {
        Seq::empty()
    } else {
        user_paths(k - 1) + seq![
            FontPathView { in_home: true, parts: seq![".fonts"@, user_fonts()[k - 1]] },
            FontPathView {
                in_home: true,
                parts: seq![".local"@, "share"@, "fonts"@, user_fonts()[k - 1]],
            },
        ]
    }
}

/// All places to look at, in the order in which they are preferred. Those in
/// the home directory only where there is one.
pub open spec fn candidates(has_home: bool) -> Seq<FontPathView> {
    if has_home {
        system_paths(16) + user_paths(6)
    } else {
        system_paths(16)
    }
}

fn system_font_list() -> (r: Vec<String>)
    ensures
        report::texts(r@) == system_fonts(),
{
    let r: Vec<String> = vec![
        "C:\\Windows\\Fonts\\msyh.ttc".to_owned(),
        "C:\\Windows\\Fonts\\msyh.ttf".to_owned(),
        "C:\\Windows\\Fonts\\simhei.ttf".to_owned(),
        "C:\\Windows\\Fonts\\simsun.ttc".to_owned(),
        "/System/Library/Fonts/PingFang.ttc".to_owned(),
        "/System/Library/Fonts/Hiragino Sans GB.ttc".to_owned(),
        "/System/Library/Fonts/STHeiti Light.ttc".to_owned(),
        "/Library/Fonts/Arial Unicode.ttf".to_owned(),
        "/usr/share/fonts/opentype/noto/NotoSansCJKsc-Regular.otf".to_owned(),
        "/usr/share/fonts/opentype/noto/NotoSansCJK-Regular.ttc".to_owned(),
        "/usr/share/fonts/noto-cjk/NotoSansCJK-Regular.ttc".to_owned(),
        "/usr/share/fonts/google-noto-sans-cjk-ttc/NotoSansCJK-Regular.ttc".to_owned(),
        "/usr/share/fonts/truetype/wqy/wqy-microhei.ttc".to_owned(),
        "/usr/share/fonts/truetype/wqy/wqy-zenhei.ttc".to_owned(),
        "/usr/share/fonts/truetype/droid/DroidSansFallbackFull.ttf".to_owned(),
        "/usr/share/fonts/truetype/arphic/uming.ttc".to_owned(),
    ];
    assert(report::texts(r@) =~= system_fonts());
    r
}

fn user_font_list() -> (r: Vec<String>)
    ensures
        report::texts(r@) == user_fonts(),
{
    let r: Vec<String> = vec![
        "NotoSansCJKsc-Regular.otf".to_owned(),
        "NotoSansCJK-Regular.ttc".to_owned(),
        "wqy-microhei.ttc".to_owned(),
        "wqy-zenhei.ttc".to_owned(),
        "SourceHanSansSC-Regular.otf".to_owned(),
        "msyh.ttc".to_owned(),
    ];
    assert(report::texts(r@) =~= user_fonts());
    r
}

/// All places to look at, in the order in which they are preferred.
pub fn cjk_font_candidates(has_home: bool) -> (r: Vec<FontPath>)
    ensures
        paths(r@) == candidates(has_home),
{
    let mut r: Vec<FontPath> = Vec::new();
    let system = system_font_list();
    let mut i: usize = 0;
    assert(paths(r@) =~= system_paths(0));
    assert(system_fonts().len() == 16 && report::texts(system@).len() == system@.len());
    while i < 16
        invariant
            i <= 16,
            system@.len() == 16,
            report::texts(system@) == system_fonts(),
            paths(r@) == system_paths(i as int),
        decreases 16 - i,
    {
        let ghost before = r@;
        let parts: Vec<String> = vec![system[i].clone()];
        let path = FontPath { in_home: false, parts };
        assert(report::texts(system@)[i as int] == system@[i as int]@);
        assert(path@.parts =~= seq![system_fonts()[i as int]]);
        r.push(path);
        assert(paths(r@) =~= paths(before).push(path@));
        assert(paths(r@) =~= system_paths(i + 1));
        i = i + 1;
    }
    if has_home {
        let user = user_font_list();
        let mut k: usize = 0;
        assert(paths(r@) =~= system_paths(16) + user_paths(0));
        assert(user_fonts().len() == 6 && report::texts(user@).len() == user@.len());
        while k < 6
            invariant
                k <= 6,
                user@.len() == 6,
                report::texts(user@) == user_fonts(),
                paths(r@) == system_paths(16) + user_paths(k as int),
            decreases 6 - k,
        {
            let ghost before = r@;
            assert(report::texts(user@)[k as int] == user@[k as int]@);
            let near: Vec<String> = vec![".fonts".to_owned(), user[k].clone()];
            let a = FontPath { in_home: true, parts: near };
            assert(a@.parts =~= seq![".fonts"@, user_fonts()[k as int]]);
            let far: Vec<String> = vec![
                ".local".to_owned(),
                "share".to_owned(),
                "fonts".to_owned(),
                user[k].clone(),
            ];
            let b = FontPath { in_home: true, parts: far };
            assert(b@.parts =~= seq![".local"@, "share"@, "fonts"@, user_fonts()[k as int]]);
            r.push(a);
            r.push(b);
            assert(paths(r@) =~= paths(before) + seq![a@, b@]);
            assert(paths(r@) =~= system_paths(16) + user_paths(k + 1));
            k = k + 1;
        }
    }
    r
}

/// The place of the first font that can be read, where `found` says of each
/// candidate, in their order, what a look at it found. A file that cannot be
/// read is passed over like one that is missing.
pub fn find_cjk_font(has_home: bool, found: &Vec<FontProbe>) -> (r: Option<FontPath>)
    requires
        found@.len() == candidates(has_home).len(),
    ensures
        match r {
            Some(path) => exists|i: int|
                {
                    &&& 0 <= i < found@.len()
                    &&& #[trigger] found@[i] == FontProbe::Readable
                    &&& forall|j: int| 0 <= j < i ==> found@[j] != FontProbe::Readable
                    &&& path@ == candidates(has_home)[i]
                },
            None => forall|j: int|
                0 <= j < found@.len() ==> found@[j] != FontProbe::Readable,
        },
{
    let mut list = cjk_font_candidates(has_home);
    assert(paths(list@).len() == list@.len());
    let mut i: usize = 0;
    while i < found.len()
        invariant
            i <= found@.len(),
            found@.len() == list@.len(),
            paths(list@) == candidates(has_home),
            forall|j: int| 0 <= j < i ==> found@[j] != FontProbe::Readable,
        decreases found@.len() - i,
    {
        if found[i] == FontProbe::Readable {
            assert(paths(list@)[i as int] == list@[i as int]@);
            return Some(list.swap_remove(i));
        }
        i = i + 1;
    }
    None
}

/// What the font with Chinese glyphs is called among the window's fonts.
pub const FALLBACK_FONT: &'static str = "cjk";

/// The fonts of a family, the preferred ones first, where `names` are those it
/// had: the font with Chinese glyphs comes last, so that it only steps in for
/// glyphs that the others lack.
pub fn with_fallback(names: Vec<String>) -> (r: Vec<String>)
    ensures
        report::texts(r@) == report::texts(names@).push(FALLBACK_FONT@),
{
    let mut r = names;
    r.push(FALLBACK_FONT.to_owned());
    assert(report::texts(r@) =~= report::texts(names@).push(FALLBACK_FONT@));
    r
}

/// The home directory: `home` where it is set, else `profile`.
pub fn home_dir<T>(home: Option<T>, profile: Option<T>) -> (r: Option<T>)
    ensures
        r == (if home is Some {
            home
        } else {
            profile
        }),
{
    match home {
        Some(h) => Some(h),
        None => profile,
    }
}

/// How many places there are to look at.
pub proof fn candidate_count(has_home: bool)
    ensures
        candidates(has_home).len() == if has_home {
            28int
        } else {
            16
        },
{
    reveal_with_fuel(user_paths, 7);
}

/// Where fonts are looked for, in this order: Windows, macOS, Linux with the
/// fonts for simplified Chinese ahead, then the user's own directories where
/// there is a home.
pub proof fn fonts_are_looked_for_in_order(has_home: bool)
    ensures
        candidates(has_home).len() == if has_home {
            28int
        } else {
            16
        },
        forall|i: int|
            0 <= i < candidates(has_home).len() ==> (#[trigger] candidates(has_home)[i].in_home <==> i
                >= 16),
        candidates(has_home)[0].parts == seq!["C:\\Windows\\Fonts\\msyh.ttc"@],
        candidates(has_home)[1].parts == seq!["C:\\Windows\\Fonts\\msyh.ttf"@],
        candidates(has_home)[2].parts == seq!["C:\\Windows\\Fonts\\simhei.ttf"@],
        candidates(has_home)[3].parts == seq!["C:\\Windows\\Fonts\\simsun.ttc"@],
        candidates(has_home)[4].parts == seq!["/System/Library/Fonts/PingFang.ttc"@],
        candidates(has_home)[5].parts == seq!["/System/Library/Fonts/Hiragino Sans GB.ttc"@],
        candidates(has_home)[6].parts == seq!["/System/Library/Fonts/STHeiti Light.ttc"@],
        candidates(has_home)[7].parts == seq!["/Library/Fonts/Arial Unicode.ttf"@],
        candidates(has_home)[8].parts == seq!["/usr/share/fonts/opentype/noto/NotoSansCJKsc-Regular.otf"@],
        candidates(has_home)[9].parts == seq!["/usr/share/fonts/opentype/noto/NotoSansCJK-Regular.ttc"@],
        candidates(has_home)[10].parts == seq!["/usr/share/fonts/noto-cjk/NotoSansCJK-Regular.ttc"@],
        candidates(has_home)[11].parts == seq!["/usr/share/fonts/google-noto-sans-cjk-ttc/NotoSansCJK-Regular.ttc"@],
        candidates(has_home)[12].parts == seq!["/usr/share/fonts/truetype/wqy/wqy-microhei.ttc"@],
        candidates(has_home)[13].parts == seq!["/usr/share/fonts/truetype/wqy/wqy-zenhei.ttc"@],
        candidates(has_home)[14].parts == seq!["/usr/share/fonts/truetype/droid/DroidSansFallbackFull.ttf"@],
        candidates(has_home)[15].parts == seq!["/usr/share/fonts/truetype/arphic/uming.ttc"@],
        has_home ==> candidates(has_home)[16].parts == seq![".fonts"@, "NotoSansCJKsc-Regular.otf"@],
        has_home ==> candidates(has_home)[17].parts == seq![
            ".local"@,
            "share"@,
            "fonts"@,
            "NotoSansCJKsc-Regular.otf"@,
        ],
        has_home ==> candidates(has_home)[18].parts == seq![".fonts"@, "NotoSansCJK-Regular.ttc"@],
        has_home ==> candidates(has_home)[19].parts == seq![
            ".local"@,
            "share"@,
            "fonts"@,
            "NotoSansCJK-Regular.ttc"@,
        ],
        has_home ==> candidates(has_home)[20].parts == seq![".fonts"@, "wqy-microhei.ttc"@],
        has_home ==> candidates(has_home)[21].parts == seq![
            ".local"@,
            "share"@,
            "fonts"@,
            "wqy-microhei.ttc"@,
        ],
        has_home ==> candidates(has_home)[22].parts == seq![".fonts"@, "wqy-zenhei.ttc"@],
        has_home ==> candidates(has_home)[23].parts == seq![
            ".local"@,
            "share"@,
            "fonts"@,
            "wqy-zenhei.ttc"@,
        ],
        has_home ==> candidates(has_home)[24].parts == seq![".fonts"@, "SourceHanSansSC-Regular.otf"@],
        has_home ==> candidates(has_home)[25].parts == seq![
            ".local"@,
            "share"@,
            "fonts"@,
            "SourceHanSansSC-Regular.otf"@,
        ],
        has_home ==> candidates(has_home)[26].parts == seq![".fonts"@, "msyh.ttc"@],
        has_home ==> candidates(has_home)[27].parts == seq![
            ".local"@,
            "share"@,
            "fonts"@,
            "msyh.ttc"@,
        ],
{
    reveal_with_fuel(user_paths, 7);
    candidate_count(has_home);
}

/// A path shows what it holds, and a list of paths each in its place.
pub proof fn paths_show_what_they_hold(p: FontPath, list: Seq<FontPath>)
    ensures
        p@.in_home == p.in_home,
        p@.parts.len() == p.parts@.len(),
        forall|i: int| 0 <= i < p.parts@.len() ==> #[trigger] p@.parts[i] == p.parts@[i]@,
        paths(list).len() == list.len(),
        forall|i: int| 0 <= i < list.len() ==> #[trigger] paths(list)[i] == list[i]@,
{
}

/// The font with Chinese glyphs comes behind all fonts that a family has, which
/// keep their order, and is called `cjk`.
pub proof fn fallback_is_called_cjk()
    ensures
        FALLBACK_FONT@ == "cjk"@,
{
}

} // verus!
