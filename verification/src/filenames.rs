//! Physical file names for selected families: the static special-case
//! table, the CJK naming scheme, and the repository path layout.

use vstd::prelude::*;
use vstd::string::StrSliceExecFns;
use vstd::string::StringExecFns;
use crate::client::NotoizeError;
use crate::strutil::has_substring;
use crate::strutil::lower_seq;
use crate::strutil::push_char;
use crate::strutil::str_eq;
use crate::strutil::str_has_substring;
use crate::strutil::to_lower;
use crate::strutil::views_of;

verus! {

/// One fetched font: its physical file name, its family name, and its
/// bytes.
#[derive(Debug, Clone)]
pub struct Font {
    pub filename: String,
    pub fontname: String,
    pub bytes: Vec<u8>,
}

/// One step of splitting on spaces: words found so far and the word in
/// progress.
pub open spec fn split_step(
    acc: (Seq<Seq<char>>, Seq<char>),
    c: char,
) -> (Seq<Seq<char>>, Seq<char>) {
    if c == ' ' {
        if acc.1.len() > 0 {
            (acc.0.push(acc.1), Seq::empty())
        } else {
            acc
        }
    } else {
        (acc.0, acc.1.push(c))
    }
}

pub open spec fn split_scan(s: Seq<char>) -> (Seq<Seq<char>>, Seq<char>)
    decreases s.len(),
{
    if s.len() == 0 {
        (Seq::empty(), Seq::empty())
    } else {
        split_step(split_scan(s.drop_last()), s.last())
    }
}

/// The space-separated words of `s`.
pub open spec fn split_spaces(s: Seq<char>) -> Seq<Seq<char>> {
    let acc = split_scan(s);
    if acc.1.len() > 0 {
        acc.0.push(acc.1)
    } else {
        acc.0
    }
}

/// Splits a name into its space-separated words.
pub fn split_words(s: &str) -> (r: Vec<String>)
    ensures
        views_of(r@) == split_spaces(s@),
{
    let len = s.unicode_len();
    let mut words: Vec<String> = Vec::new();
    let mut cur = String::new();
    let mut i: usize = 0;
    proof {
        assert(s@.take(0) =~= Seq::<char>::empty());
        assert(views_of(words@) =~= split_scan(s@.take(0)).0);
        assert(cur@ =~= split_scan(s@.take(0)).1);
    }
    while i < len
        invariant
            i <= len,
            len == s@.len(),
            views_of(words@) == split_scan(s@.take(i as int)).0,
            cur@ == split_scan(s@.take(i as int)).1,
        decreases len - i,
    {
        proof {
            assert(s@.take(i as int + 1).drop_last() =~= s@.take(i as int));
            assert(s@.take(i as int + 1).last() == s@[i as int]);
        }
        let c = s.get_char(i);
        let ghost pre = views_of(words@);
        if c == ' ' {
            if !cur.as_str().is_empty() {
                words.push(cur);
                cur = String::new();
                proof {
                    assert(views_of(words@) =~= pre.push(split_scan(s@.take(i as int)).1));
                }
            }
        } else {
            push_char(&mut cur, c);
        }
        i += 1;
    }
    proof {
        assert(s@.take(i as int) =~= s@);
    }
    if !cur.as_str().is_empty() {
        let ghost pre = views_of(words@);
        words.push(cur);
        proof {
            assert(views_of(words@) =~= pre.push(split_scan(s@).1));
        }
    }
    words
}

/// The chars of `s` that are neither spaces nor hyphens.
pub open spec fn strip_spaces_hyphens(s: Seq<char>) -> Seq<char>
    decreases s.len(),
{
    if s.len() == 0 {
        Seq::empty()
    } else {
        let rest = strip_spaces_hyphens(s.drop_last());
        if s.last() == ' ' || s.last() == '-' {
            rest
        } else {
            rest.push(s.last())
        }
    }
}

fn strip_exec(s: &str) -> (r: String)
    ensures
        r@ == strip_spaces_hyphens(s@),
{
    let len = s.unicode_len();
    let mut r = String::new();
    let mut i: usize = 0;
    proof {
        assert(s@.take(0) =~= Seq::<char>::empty());
        assert(r@ =~= strip_spaces_hyphens(s@.take(0)));
    }
    while i < len
        invariant
            i <= len,
            len == s@.len(),
            r@ == strip_spaces_hyphens(s@.take(i as int)),
        decreases len - i,
    {
        proof {
            assert(s@.take(i as int + 1).drop_last() =~= s@.take(i as int));
            assert(s@.take(i as int + 1).last() == s@[i as int]);
        }
        let c = s.get_char(i);
        if c != ' ' && c != '-' {
            push_char(&mut r, c);
        }
        i += 1;
    }
    proof {
        assert(s@.take(i as int) =~= s@);
    }
    r
}

/// The hand-mapped file name of a special family, if it is one.
pub open spec fn spec_special_filename(name: Seq<char>) -> Option<Seq<char>> {
    if name == "Noto Color Emoji"@ {
        Option::Some("NotoColorEmoji.ttf"@)
    } else if name == "Noto Sans ImpAramaic"@ {
        Option::Some("NotoSansImperialAramaic-Regular.ttf"@)
    } else if name == "Noto Sans OldSouArab"@ {
        Option::Some("NotoSansOldSouthArabian-Regular.ttf"@)
    } else if name == "Noto Sans OldNorArab"@ {
        Option::Some("NotoSansOldNorthArabian-Regular.ttf"@)
    } else if name == "Noto Sans InsPahlavi"@ {
        Option::Some("NotoSansInscriptionalPahlavi-Regular.ttf"@)
    } else if name == "Noto Sans PsaPahlavi"@ {
        Option::Some("NotoSansPsalterPahlavi-Regular.ttf"@)
    } else if name == "Noto Sans OldHung"@ {
        Option::Some("NotoSansOldHungarian-Regular.ttf"@)
    } else if name == "Noto Sans Zanabazar"@ {
        Option::Some("NotoSansZanabazarSquare-Regular.ttf"@)
    } else if name == "Noto Sans EgyptHiero"@ {
        Option::Some("NotoSansEgyptianHieroglyphs-Regular.ttf"@)
    } else if name == "Noto Sans AnatoHiero"@ {
        Option::Some("NotoSansAnatolianHieroglyphs-Regular.ttf"@)
    } else {
        Option::None
    }
}

fn special_filename(name: &str) -> (r: Option<String>)
    ensures
        match r {
            Option::Some(f) => spec_special_filename(name@) == Option::Some(f@),
            Option::None => spec_special_filename(name@) is None,
        },
{
    if str_eq(name, "Noto Color Emoji") {
        Option::Some(String::from_str("NotoColorEmoji.ttf"))
    } else if str_eq(name, "Noto Sans ImpAramaic") {
        Option::Some(String::from_str("NotoSansImperialAramaic-Regular.ttf"))
    } else if str_eq(name, "Noto Sans OldSouArab") {
        Option::Some(String::from_str("NotoSansOldSouthArabian-Regular.ttf"))
    } else if str_eq(name, "Noto Sans OldNorArab") {
        Option::Some(String::from_str("NotoSansOldNorthArabian-Regular.ttf"))
    } else if str_eq(name, "Noto Sans InsPahlavi") {
        Option::Some(String::from_str("NotoSansInscriptionalPahlavi-Regular.ttf"))
    } else if str_eq(name, "Noto Sans PsaPahlavi") {
        Option::Some(String::from_str("NotoSansPsalterPahlavi-Regular.ttf"))
    } else if str_eq(name, "Noto Sans OldHung") {
        Option::Some(String::from_str("NotoSansOldHungarian-Regular.ttf"))
    } else if str_eq(name, "Noto Sans Zanabazar") {
        Option::Some(String::from_str("NotoSansZanabazarSquare-Regular.ttf"))
    } else if str_eq(name, "Noto Sans EgyptHiero") {
        Option::Some(String::from_str("NotoSansEgyptianHieroglyphs-Regular.ttf"))
    } else if str_eq(name, "Noto Sans AnatoHiero") {
        Option::Some(String::from_str("NotoSansAnatolianHieroglyphs-Regular.ttf"))
    } else {
        Option::None
    }
}

/// The physical file name of a selected family: the CJK naming scheme for
/// CJK families, the hand-mapped table for special families, else the name
/// without spaces and hyphens with a "-Regular.ttf" suffix.  A CJK family
/// name of fewer than four words is malformed.
pub open spec fn spec_font_filename(name: Seq<char>) -> Option<Seq<char>> {
    if has_substring(name, "CJK"@) {
        let words = split_spaces(name);
        if words.len() > 3 {
            Option::Some("Noto"@ + words[1] + "CJK"@ + lower_seq(words[3]) + "-Regular.otf"@)
        } else {
            Option::None
        }
    } else {
        match spec_special_filename(name) {
            Option::Some(f) => Option::Some(f),
            Option::None => Option::Some(strip_spaces_hyphens(name) + "-Regular.ttf"@),
        }
    }
}

/// Computes the physical file name of a selected family.
pub fn font_filename(name: &str) -> (r: Result<String, NotoizeError>)
    ensures
        match r {
            Result::Ok(f) => spec_font_filename(name@) == Option::Some(f@),
            Result::Err(e) => spec_font_filename(name@) is None && e is MalformedFamilyName,
        },
{
    if str_has_substring(name, "CJK") {
        let words = split_words(name);
        if words.len() > 3 {
            let mut f = String::from_str("Noto");
            f.append(words[1].as_str());
            f.append("CJK");
            let low = to_lower(words[3].as_str());
            f.append(low.as_str());
            f.append("-Regular.otf");
            proof {
                assert(views_of(words@)[1] == words@[1]@);
                assert(views_of(words@)[3] == words@[3]@);
            }
            Result::Ok(f)
        } else {
            Result::Err(NotoizeError::MalformedFamilyName(String::from_str(name)))
        }
    } else {
        match special_filename(name) {
            Option::Some(f) => Result::Ok(f),
            Option::None => {
                let mut f = strip_exec(name);
                f.append("-Regular.ttf");
                Result::Ok(f)
            },
        }
    }
}

/// The directory of the fallback CJK repository for a lower-cased regional
/// suffix; an unlisted suffix is a fatal taxonomy gap.
pub open spec fn spec_cjk_region_dir(region: Seq<char>) -> Option<Seq<char>> {
    if region == "jp"@ {
        Option::Some("Japanese"@)
    } else if region == "kr"@ {
        Option::Some("Korean"@)
    } else if region == "sc"@ {
        Option::Some("SimplifiedChinese"@)
    } else if region == "tc"@ {
        Option::Some("TraditionalChinese"@)
    } else if region == "hk"@ {
        Option::Some("TraditionalChineseHK"@)
    } else {
        Option::None
    }
}

/// Maps a lower-cased CJK regional suffix to its fallback directory.
pub fn cjk_region_dir(region: &str) -> (r: Result<String, NotoizeError>)
    ensures
        match r {
            Result::Ok(d) => spec_cjk_region_dir(region@) == Option::Some(d@),
            Result::Err(e) => spec_cjk_region_dir(region@) is None && e is UnknownCjkVariety,
        },
{
    if str_eq(region, "jp") {
        Result::Ok(String::from_str("Japanese"))
    } else if str_eq(region, "kr") {
        Result::Ok(String::from_str("Korean"))
    } else if str_eq(region, "sc") {
        Result::Ok(String::from_str("SimplifiedChinese"))
    } else if str_eq(region, "tc") {
        Result::Ok(String::from_str("TraditionalChinese"))
    } else if str_eq(region, "hk") {
        Result::Ok(String::from_str("TraditionalChineseHK"))
    } else {
        Result::Err(NotoizeError::UnknownCjkVariety(String::from_str(region)))
    }
}

/// The position of the first hyphen at or after `i`, or the length.
pub open spec fn dash_pos(s: Seq<char>, i: int) -> int
    decreases s.len() - i,
{
    if i < 0 || i >= s.len() {
        s.len() as int
    } else if s[i] == '-' {
        i
    } else {
        dash_pos(s, i + 1)
    }
}

/// The primary repository path of a font file: under its family directory,
/// the hinted TrueType tree.
pub open spec fn spec_font_path(f: Seq<char>) -> Seq<char> {
    "fonts/"@ + f.take(dash_pos(f, 0)) + "/hinted/ttf/"@ + f
}

fn first_dash(s: &str) -> (i: usize)
    ensures
        i as int == dash_pos(s@, 0),
        i <= s@.len(),
{
    let len = s.unicode_len();
    let mut i: usize = 0;
    loop
        invariant
            i <= len,
            len == s@.len(),
            dash_pos(s@, 0) == dash_pos(s@, i as int),
        decreases len - i,
    {
        if i == len {
            return i;
        }
        let c = s.get_char(i);
        if c == '-' {
            return i;
        }
        i += 1;
    }
}

/// Computes the primary repository path of a font file.
pub fn font_path(filename: &str) -> (r: String)
    ensures
        r@ == spec_font_path(filename@),
{
    let i = first_dash(filename);
    let prefix = filename.substring_char(0, i);
    let mut r = String::from_str("fonts/");
    r.append(prefix);
    r.append("/hinted/ttf/");
    r.append(filename);
    proof {
        assert(prefix@ =~= filename@.take(dash_pos(filename@, 0)));
    }
    r
}

} // verus!
