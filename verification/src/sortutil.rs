//! Verified stable sorting and de-duplication for the tie-break orders the
//! selector and the reports use.

use vstd::prelude::*;
use crate::script::all_known;
use crate::script::script;
use crate::script::spec_script;
use crate::strutil::has_substring;
use crate::strutil::lex_le;
use crate::strutil::lower_seq;
use crate::strutil::str_eq;
use crate::strutil::str_has_substring;
use crate::strutil::str_le;
use crate::strutil::to_lower;
use crate::strutil::views_of;

verus! {

/// The sort orders used by the library: the selection tie-break (variants
/// containing the word "Sans" first, then lexicographic), grouping by
/// lower-cased script name, and plain lower-cased lexicographic order.
#[derive(Clone, Copy, Debug)]
pub enum SortKey {
    Selection,
    ScriptLower,
    Lower,
}

/// The grouping key of a variant name: its script name, lower-cased.  A
/// name outside the classifier table keys on its own lower-cased form.
pub open spec fn script_key(v: Seq<char>) -> Seq<char> {
    match spec_script(v) {
        Option::Some(n) => lower_seq(n),
        Option::None => lower_seq(v),
    }
}

/// The order `k` holds between `a` and `b`.
pub open spec fn key_le(k: SortKey, a: Seq<char>, b: Seq<char>) -> bool {
    match k {
        SortKey::Selection => {
            let na = !has_substring(a, "Sans"@);
            let nb = !has_substring(b, "Sans"@);
            if na == nb {
                lex_le(a, b)
            } else {
                !na
            }
        },
        SortKey::ScriptLower => lex_le(script_key(a), script_key(b)),
        SortKey::Lower => lex_le(lower_seq(a), lower_seq(b)),
    }
}

pub(crate) fn script_key_exec(v: &str) -> (r: String)
    ensures
        r@ == script_key(v@),
{
    match script(v) {
        Option::Some(sc) => to_lower(sc.0.as_str()),
        Option::None => to_lower(v),
    }
}

fn key_le_exec(k: SortKey, a: &str, b: &str) -> (r: bool)
    ensures
        r == key_le(k, a@, b@),
{
    match k {
        SortKey::Selection => {
            let na = !str_has_substring(a, "Sans");
            let nb = !str_has_substring(b, "Sans");
            if na == nb {
                str_le(a, b)
            } else {
                !na
            }
        },
        SortKey::ScriptLower => {
            let ka = script_key_exec(a);
            let kb = script_key_exec(b);
            str_le(ka.as_str(), kb.as_str())
        },
        SortKey::Lower => {
            let la = to_lower(a);
            let lb = to_lower(b);
            str_le(la.as_str(), lb.as_str())
        },
    }
}

/// Stable insertion of `x` into `s`: `x` lands after every element that
/// compares at-or-before it.
pub open spec fn spec_insert(k: SortKey, s: Seq<Seq<char>>, x: Seq<char>) -> Seq<Seq<char>>
    decreases s.len(),
{
    if s.len() == 0 {
        seq![x]
    } else if key_le(k, s.last(), x) {
        s.push(x)
    } else {
        spec_insert(k, s.drop_last(), x).push(s.last())
    }
}

/// Stable insertion sort of `s` under the order `k`.
pub open spec fn spec_sort(k: SortKey, s: Seq<Seq<char>>) -> Seq<Seq<char>>
    decreases s.len(),
{
    if s.len() == 0 {
        Seq::empty()
    } else {
        spec_insert(k, spec_sort(k, s.drop_last()), s.last())
    }
}

fn insert_pos(k: SortKey, r: &Vec<String>, x: &str) -> (p: usize)
    ensures
        p <= r@.len(),
        forall|j: int| p <= j < r@.len() ==> !key_le(k, r@[j]@, x@),
        p > 0 ==> key_le(k, r@[p - 1]@, x@),
{
    let mut p = r.len();
    loop
        invariant
            p <= r@.len(),
            forall|j: int| p <= j < r@.len() ==> !key_le(k, r@[j]@, x@),
        decreases p,
    {
        if p == 0 {
            return 0;
        }
        if key_le_exec(k, r[p - 1].as_str(), x) {
            return p;
        }
        p -= 1;
    }
}

proof fn lemma_insert_at(k: SortKey, s: Seq<Seq<char>>, x: Seq<char>, p: int)
    requires
        0 <= p <= s.len(),
        forall|j: int| p <= j < s.len() ==> !key_le(k, s[j], x),
        p > 0 ==> key_le(k, s[p - 1], x),
    ensures
        spec_insert(k, s, x) == s.take(p) + seq![x] + s.skip(p),
    decreases s.len(),
{
    if s.len() == 0 {
        assert(spec_insert(k, s, x) =~= s.take(p) + seq![x] + s.skip(p));
    } else if key_le(k, s.last(), x) {
        assert(p == s.len());
        assert(spec_insert(k, s, x) =~= s.take(p) + seq![x] + s.skip(p));
    } else {
        lemma_insert_at(k, s.drop_last(), x, p);
        assert(spec_insert(k, s, x) =~= s.take(p) + seq![x] + s.skip(p));
    }
}

/// Stable insertion sort of owned strings under the order `k`.
pub fn sort_by_key(k: SortKey, v: &Vec<String>) -> (r: Vec<String>)
    ensures
        views_of(r@) == spec_sort(k, views_of(v@)),
{
    let mut r: Vec<String> = Vec::new();
    let mut i: usize = 0;
    proof {
        assert(views_of(v@).take(0) =~= Seq::<Seq<char>>::empty());
        assert(views_of(r@) =~= Seq::<Seq<char>>::empty());
    }
    loop
        invariant
            i <= v@.len(),
            views_of(r@) == spec_sort(k, views_of(v@).take(i as int)),
        decreases v@.len() - i,
    {
        if i == v.len() {
            proof {
                assert(views_of(v@).take(i as int) =~= views_of(v@));
            }
            return r;
        }
        let x = v[i].clone();
        let p = insert_pos(k, &r, x.as_str());
        let ghost prev = views_of(r@);
        proof {
            lemma_insert_at(k, prev, x@, p as int);
        }
        r.insert(p, x);
        proof {
            assert(views_of(v@).take(i as int + 1).drop_last() =~= views_of(v@).take(i as int));
            assert(views_of(v@).take(i as int + 1).last() == v@[i as int]@);
            assert(views_of(r@) =~= prev.take(p as int) + seq![x@] + prev.skip(p as int));
        }
        i += 1;
    }
}

proof fn lemma_lex_le_refl(a: Seq<char>)
    ensures
        lex_le(a, a),
    decreases a.len(),
{
    if a.len() > 0 {
        lemma_lex_le_refl(a.skip(1));
    }
}

proof fn lemma_lex_le_total(a: Seq<char>, b: Seq<char>)
    ensures
        lex_le(a, b) || lex_le(b, a),
    decreases a.len(),
{
    if a.len() > 0 && b.len() > 0 && (a[0] as u32) == (b[0] as u32) {
        lemma_lex_le_total(a.skip(1), b.skip(1));
    }
}

proof fn lemma_lex_le_trans(a: Seq<char>, b: Seq<char>, c: Seq<char>)
    requires
        lex_le(a, b),
        lex_le(b, c),
    ensures
        lex_le(a, c),
    decreases a.len(),
{
    if a.len() > 0 && b.len() > 0 && c.len() > 0 && (a[0] as u32) == (b[0] as u32) && (b[0]
        as u32) == (c[0] as u32) {
        lemma_lex_le_trans(a.skip(1), b.skip(1), c.skip(1));
    }
}

proof fn lemma_key_le_refl(k: SortKey, a: Seq<char>)
    ensures
        key_le(k, a, a),
{
    match k {
        SortKey::Selection => lemma_lex_le_refl(a),
        SortKey::ScriptLower => lemma_lex_le_refl(script_key(a)),
        SortKey::Lower => lemma_lex_le_refl(lower_seq(a)),
    }
}

proof fn lemma_key_le_total(k: SortKey, a: Seq<char>, b: Seq<char>)
    ensures
        key_le(k, a, b) || key_le(k, b, a),
{
    match k {
        SortKey::Selection => lemma_lex_le_total(a, b),
        SortKey::ScriptLower => lemma_lex_le_total(script_key(a), script_key(b)),
        SortKey::Lower => lemma_lex_le_total(lower_seq(a), lower_seq(b)),
    }
}

proof fn lemma_key_le_trans(k: SortKey, a: Seq<char>, b: Seq<char>, c: Seq<char>)
    requires
        key_le(k, a, b),
        key_le(k, b, c),
    ensures
        key_le(k, a, c),
{
    match k {
        SortKey::Selection => {
            let na = !has_substring(a, "Sans"@);
            let nb = !has_substring(b, "Sans"@);
            let nc = !has_substring(c, "Sans"@);
            if na == nb && nb == nc {
                lemma_lex_le_trans(a, b, c);
            }
        },
        SortKey::ScriptLower => lemma_lex_le_trans(script_key(a), script_key(b), script_key(c)),
        SortKey::Lower => lemma_lex_le_trans(lower_seq(a), lower_seq(b), lower_seq(c)),
    }
}

proof fn lemma_insert_len(k: SortKey, s: Seq<Seq<char>>, x: Seq<char>)
    ensures
        spec_insert(k, s, x).len() == s.len() + 1,
    decreases s.len(),
{
    if s.len() > 0 && !key_le(k, s.last(), x) {
        lemma_insert_len(k, s.drop_last(), x);
    }
}

/// Sorting keeps the length.
pub proof fn lemma_sort_len(k: SortKey, s: Seq<Seq<char>>)
    ensures
        spec_sort(k, s).len() == s.len(),
    decreases s.len(),
{
    if s.len() > 0 {
        lemma_sort_len(k, s.drop_last());
        lemma_insert_len(k, spec_sort(k, s.drop_last()), s.last());
    }
}

proof fn lemma_insert_contains(k: SortKey, s: Seq<Seq<char>>, x: Seq<char>, y: Seq<char>)
    ensures
        spec_insert(k, s, x).contains(y) <==> (s.contains(y) || y == x),
    decreases s.len(),
{
    let r = spec_insert(k, s, x);
    lemma_insert_len(k, s, x);
    if s.len() == 0 {
        assert(r =~= seq![x]);
        if r.contains(y) {
            let i = choose|i: int| 0 <= i < r.len() && r[i] == y;
            assert(y == x);
        }
        if y == x {
            assert(r.contains(y)) by {
                assert(r[0] == y);
            }
        }
        if s.contains(y) {
            let i = choose|i: int| 0 <= i < s.len() && s[i] == y;
            assert(false);
        }
    } else if key_le(k, s.last(), x) {
        if r.contains(y) {
            let i = choose|i: int| 0 <= i < r.len() && r[i] == y;
            if i < s.len() {
                assert(s.contains(y)) by {
                    assert(s[i] == y);
                }
            }
        }
        if s.contains(y) {
            let i = choose|i: int| 0 <= i < s.len() && s[i] == y;
            assert(r.contains(y)) by {
                assert(r[i] == y);
            }
        }
        if y == x {
            assert(r.contains(y)) by {
                assert(r[s.len() as int] == y);
            }
        }
    } else {
        let dl = s.drop_last();
        lemma_insert_contains(k, dl, x, y);
        let inner = spec_insert(k, dl, x);
        lemma_insert_len(k, dl, x);
        if r.contains(y) {
            let i = choose|i: int| 0 <= i < r.len() && r[i] == y;
            if i < inner.len() {
                assert(inner.contains(y)) by {
                    assert(inner[i] == y);
                }
                if dl.contains(y) {
                    let j = choose|j: int| 0 <= j < dl.len() && dl[j] == y;
                    assert(s.contains(y)) by {
                        assert(s[j] == y);
                    }
                }
            } else {
                assert(y == s.last());
                assert(s.contains(y)) by {
                    assert(s[s.len() - 1] == y);
                }
            }
        }
        if s.contains(y) {
            let i = choose|i: int| 0 <= i < s.len() && s[i] == y;
            if i < s.len() - 1 {
                assert(dl.contains(y)) by {
                    assert(dl[i] == y);
                }
                let j = choose|j: int| 0 <= j < inner.len() && inner[j] == y;
                assert(r.contains(y)) by {
                    assert(r[j] == y);
                }
            } else {
                assert(r.contains(y)) by {
                    assert(r[r.len() - 1] == y);
                }
            }
        }
        if y == x {
            let j = choose|j: int| 0 <= j < inner.len() && inner[j] == y;
            assert(r.contains(y)) by {
                assert(r[j] == y);
            }
        }
    }
}

/// Sorting keeps exactly the members.
pub proof fn lemma_sort_contains(k: SortKey, s: Seq<Seq<char>>, y: Seq<char>)
    ensures
        spec_sort(k, s).contains(y) <==> s.contains(y),
    decreases s.len(),
{
    if s.len() > 0 {
        let dl = s.drop_last();
        lemma_sort_contains(k, dl, y);
        lemma_insert_contains(k, spec_sort(k, dl), s.last(), y);
        if s.contains(y) {
            let i = choose|i: int| 0 <= i < s.len() && s[i] == y;
            if i < s.len() - 1 {
                assert(dl.contains(y)) by {
                    assert(dl[i] == y);
                }
            }
        }
        if dl.contains(y) {
            let i = choose|i: int| 0 <= i < dl.len() && dl[i] == y;
            assert(s.contains(y)) by {
                assert(s[i] == y);
            }
        }
        if y == s.last() {
            assert(s.contains(y)) by {
                assert(s[s.len() - 1] == y);
            }
        }
    } else {
        if s.contains(y) {
            let i = choose|i: int| 0 <= i < s.len() && s[i] == y;
            assert(false);
        }
    }
}

/// The first element is at-or-before every element under the order.
pub open spec fn head_min(k: SortKey, t: Seq<Seq<char>>) -> bool {
    forall|i: int| 0 <= i < t.len() ==> key_le(k, t[0], #[trigger] t[i])
}

proof fn lemma_insert_head(k: SortKey, s: Seq<Seq<char>>, x: Seq<char>)
    ensures
        spec_insert(k, s, x).len() > 0,
        spec_insert(k, s, x)[0] == x || (s.len() > 0 && spec_insert(k, s, x)[0] == s[0]),
    decreases s.len(),
{
    lemma_insert_len(k, s, x);
    if s.len() > 0 && !key_le(k, s.last(), x) {
        lemma_insert_head(k, s.drop_last(), x);
        lemma_insert_len(k, s.drop_last(), x);
    }
}

proof fn lemma_insert_head_min(k: SortKey, s: Seq<Seq<char>>, x: Seq<char>)
    requires
        head_min(k, s),
    ensures
        head_min(k, spec_insert(k, s, x)),
    decreases s.len(),
{
    let r = spec_insert(k, s, x);
    lemma_insert_len(k, s, x);
    if s.len() == 0 {
        lemma_key_le_refl(k, x);
        assert(r =~= seq![x]);
    } else if key_le(k, s.last(), x) {
        assert(key_le(k, s[0], s.last())) by {
            assert(key_le(k, s[0], s[s.len() - 1]));
        }
        lemma_key_le_trans(k, s[0], s.last(), x);
        assert forall|i: int| 0 <= i < r.len() implies key_le(k, r[0], r[i]) by {
            if i < s.len() {
                assert(key_le(k, s[0], s[i]));
            }
        }
    } else {
        let dl = s.drop_last();
        let inner = spec_insert(k, dl, x);
        lemma_insert_len(k, dl, x);
        assert(head_min(k, dl)) by {
            assert forall|i: int| 0 <= i < dl.len() implies key_le(k, dl[0], dl[i]) by {
                assert(key_le(k, s[0], s[i]));
            }
        }
        lemma_insert_head_min(k, dl, x);
        lemma_insert_head(k, dl, x);
        lemma_key_le_total(k, s.last(), x);
        assert(key_le(k, inner[0], s.last())) by {
            if inner[0] == x {
                assert(key_le(k, x, s.last()));
            } else {
                assert(inner[0] == s[0]);
                assert(key_le(k, s[0], s[s.len() - 1]));
            }
        }
        assert forall|i: int| 0 <= i < r.len() implies key_le(k, r[0], r[i]) by {
            assert(r[0] == inner[0]);
            if i < inner.len() {
                assert(key_le(k, inner[0], inner[i]));
            }
        }
    }
}

/// The first element of a sorted list is at-or-before every element.
pub proof fn lemma_sort_head_min(k: SortKey, s: Seq<Seq<char>>)
    ensures
        head_min(k, spec_sort(k, s)),
    decreases s.len(),
{
    if s.len() > 0 {
        lemma_sort_head_min(k, s.drop_last());
        lemma_insert_head_min(k, spec_sort(k, s.drop_last()), s.last());
    }
}

/// The selection tie-break prefers variants containing the word "Sans":
/// whenever some candidate contains it, the first element of the sorted
/// list does.
pub proof fn lemma_selection_prefers_sans(s: Seq<Seq<char>>)
    requires
        exists|i: int| 0 <= i < s.len() && has_substring(#[trigger] s[i], "Sans"@),
    ensures
        spec_sort(SortKey::Selection, s).len() > 0,
        has_substring(spec_sort(SortKey::Selection, s)[0], "Sans"@),
{
    let r = spec_sort(SortKey::Selection, s);
    lemma_sort_len(SortKey::Selection, s);
    let i = choose|i: int| 0 <= i < s.len() && has_substring(s[i], "Sans"@);
    let y = s[i];
    assert(s.contains(y)) by {
        assert(s[i] == y);
    }
    lemma_sort_contains(SortKey::Selection, s, y);
    let j = choose|j: int| 0 <= j < r.len() && r[j] == y;
    lemma_sort_head_min(SortKey::Selection, s);
    assert(key_le(SortKey::Selection, r[0], r[j]));
}

proof fn lemma_insert_known(k: SortKey, s: Seq<Seq<char>>, x: Seq<char>)
    requires
        all_known(s),
        spec_script(x) is Some,
    ensures
        all_known(spec_insert(k, s, x)),
    decreases s.len(),
{
    if s.len() == 0 {
        assert(spec_insert(k, s, x) =~= seq![x]);
        assert(forall|i: int|
            0 <= i < spec_insert(k, s, x).len() ==> spec_script(spec_insert(k, s, x)[i]) is Some);
    } else if key_le(k, s.last(), x) {
        assert(forall|i: int|
            0 <= i < spec_insert(k, s, x).len() ==> spec_script(spec_insert(k, s, x)[i]) is Some);
    } else {
        assert(all_known(s.drop_last()));
        lemma_insert_known(k, s.drop_last(), x);
        assert(forall|i: int|
            0 <= i < spec_insert(k, s, x).len() ==> spec_script(spec_insert(k, s, x)[i]) is Some);
    }
}

/// Sorting a list of known variants yields a list of known variants.
pub proof fn lemma_sort_known(k: SortKey, s: Seq<Seq<char>>)
    requires
        all_known(s),
    ensures
        all_known(spec_sort(k, s)),
    decreases s.len(),
{
    if s.len() > 0 {
        assert(all_known(s.drop_last()));
        lemma_sort_known(k, s.drop_last());
        lemma_insert_known(k, spec_sort(k, s.drop_last()), s.last());
    }
}

/// Removal of adjacent duplicates, keeping the first of each run.
pub open spec fn spec_dedup(s: Seq<Seq<char>>) -> Seq<Seq<char>>
    decreases s.len(),
{
    if s.len() == 0 {
        Seq::empty()
    } else {
        let rest = spec_dedup(s.drop_last());
        if rest.len() > 0 && rest.last() == s.last() {
            rest
        } else {
            rest.push(s.last())
        }
    }
}

/// Removes adjacent duplicate strings, keeping the first of each run.
pub fn dedup_strings(v: &Vec<String>) -> (r: Vec<String>)
    ensures
        views_of(r@) == spec_dedup(views_of(v@)),
{
    let mut r: Vec<String> = Vec::new();
    let mut i: usize = 0;
    proof {
        assert(views_of(v@).take(0) =~= Seq::<Seq<char>>::empty());
        assert(views_of(r@) =~= Seq::<Seq<char>>::empty());
    }
    loop
        invariant
            i <= v@.len(),
            views_of(r@) == spec_dedup(views_of(v@).take(i as int)),
        decreases v@.len() - i,
    {
        if i == v.len() {
            proof {
                assert(views_of(v@).take(i as int) =~= views_of(v@));
            }
            return r;
        }
        proof {
            assert(views_of(v@).take(i as int + 1).drop_last() =~= views_of(v@).take(i as int));
            assert(views_of(v@).take(i as int + 1).last() == v@[i as int]@);
        }
        let skip_it = r.len() > 0 && str_eq(r[r.len() - 1].as_str(), v[i].as_str());
        if !skip_it {
            r.push(v[i].clone());
        }
        i += 1;
    }
}

/// Ascending insertion of `x` into `s`.
pub open spec fn spec_insert_u32(s: Seq<u32>, x: u32) -> Seq<u32>
    decreases s.len(),
{
    if s.len() == 0 {
        seq![x]
    } else if s.last() <= x {
        s.push(x)
    } else {
        spec_insert_u32(s.drop_last(), x).push(s.last())
    }
}

/// Ascending insertion sort of codepoints.
pub open spec fn spec_sort_u32(s: Seq<u32>) -> Seq<u32>
    decreases s.len(),
{
    if s.len() == 0 {
        Seq::empty()
    } else {
        spec_insert_u32(spec_sort_u32(s.drop_last()), s.last())
    }
}

/// Removal of adjacent duplicate codepoints.
pub open spec fn spec_dedup_u32(s: Seq<u32>) -> Seq<u32>
    decreases s.len(),
{
    if s.len() == 0 {
        Seq::empty()
    } else {
        let rest = spec_dedup_u32(s.drop_last());
        if rest.len() > 0 && rest.last() == s.last() {
            rest
        } else {
            rest.push(s.last())
        }
    }
}

proof fn lemma_insert_u32_at(s: Seq<u32>, x: u32, p: int)
    requires
        0 <= p <= s.len(),
        forall|j: int| p <= j < s.len() ==> !(s[j] <= x),
        p > 0 ==> s[p - 1] <= x,
    ensures
        spec_insert_u32(s, x) == s.take(p) + seq![x] + s.skip(p),
    decreases s.len(),
{
    if s.len() == 0 {
        assert(spec_insert_u32(s, x) =~= s.take(p) + seq![x] + s.skip(p));
    } else if s.last() <= x {
        assert(p == s.len());
        assert(spec_insert_u32(s, x) =~= s.take(p) + seq![x] + s.skip(p));
    } else {
        lemma_insert_u32_at(s.drop_last(), x, p);
        assert(spec_insert_u32(s, x) =~= s.take(p) + seq![x] + s.skip(p));
    }
}

fn insert_pos_u32(s: &Vec<u32>, x: u32) -> (p: usize)
    ensures
        p <= s@.len(),
        forall|j: int| p <= j < s@.len() ==> !(s@[j] <= x),
        p > 0 ==> s@[p - 1] <= x,
{
    let mut p = s.len();
    loop
        invariant
            p <= s@.len(),
            forall|j: int| p <= j < s@.len() ==> !(s@[j] <= x),
        decreases p,
    {
        if p == 0 {
            return 0;
        }
        if s[p - 1] <= x {
            return p;
        }
        p -= 1;
    }
}

/// Sorts codepoints ascending and removes duplicates.
pub fn sort_dedup_u32(v: &Vec<u32>) -> (r: Vec<u32>)
    ensures
        r@ == spec_dedup_u32(spec_sort_u32(v@)),
{
    let mut s: Vec<u32> = Vec::new();
    let mut i: usize = 0;
    proof {
        assert(v@.take(0) =~= Seq::<u32>::empty());
    }
    while i < v.len()
        invariant
            i <= v@.len(),
            s@ == spec_sort_u32(v@.take(i as int)),
        decreases v@.len() - i,
    {
        let x = v[i];
        let p = insert_pos_u32(&s, x);
        let ghost prev = s@;
        proof {
            lemma_insert_u32_at(prev, x, p as int);
        }
        s.insert(p, x);
        proof {
            assert(v@.take(i as int + 1).drop_last() =~= v@.take(i as int));
            assert(s@ =~= prev.take(p as int) + seq![x] + prev.skip(p as int));
        }
        i += 1;
    }
    proof {
        assert(v@.take(i as int) =~= v@);
    }
    let mut r: Vec<u32> = Vec::new();
    let mut j: usize = 0;
    proof {
        assert(s@.take(0) =~= Seq::<u32>::empty());
    }
    while j < s.len()
        invariant
            j <= s@.len(),
            s@ == spec_sort_u32(v@),
            r@ == spec_dedup_u32(s@.take(j as int)),
        decreases s@.len() - j,
    {
        proof {
            assert(s@.take(j as int + 1).drop_last() =~= s@.take(j as int));
        }
        let skip_it = r.len() > 0 && r[r.len() - 1] == s[j];
        if !skip_it {
            r.push(s[j]);
        }
        j += 1;
    }
    proof {
        assert(s@.take(j as int) =~= s@);
    }
    r
}

} // verus!
