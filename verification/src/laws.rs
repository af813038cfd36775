//! The library-wide laws: statements that relate several functions, proved
//! once over the specification functions the contracts use.

use vstd::prelude::*;
use crate::client::BlockData;
use crate::client::NotoizeClient;
use crate::client::in_block;
use crate::client::sm_at;
use crate::client::sm_has;
use crate::client::sm_known;
use crate::client::sm_view;
use crate::client::spec_block_of;
use crate::client::spec_blocks_needed;
use crate::client::spec_cp_fonts;
use crate::client::spec_filtered;
use crate::client::spec_select_names;
use crate::report::spec_entry_conflicted;
use crate::report::spec_entry_reported;
use crate::script::spec_missing_from;
use crate::script::spec_missing_variants;
use crate::script::spec_script;
use crate::script::spec_scripts;
use crate::sortutil::lemma_selection_prefers_sans;
use crate::strutil::has_substring;

verus! {

/// Resolution is deterministic: two clients with equal block indexes, equal
/// materialized block sets and equal caches need the same fetches and
/// select the same stack for the same codepoints.
pub proof fn lemma_resolution_deterministic(a: &NotoizeClient, b: &NotoizeClient, cps: Seq<u32>)
    requires
        a.blocks@ == b.blocks@,
        a.ingested@ == b.ingested@,
        sm_view(a.support@) == sm_view(b.support@),
    ensures
        spec_blocks_needed(a.blocks@, a.ingested@, cps) == spec_blocks_needed(
            b.blocks@,
            b.ingested@,
            cps,
        ),
        spec_select_names(cps, sm_view(a.support@)) == spec_select_names(
            cps,
            sm_view(b.support@),
        ),
{
}

/// The selected stack never holds the same family name twice.
pub proof fn lemma_select_no_duplicates(cps: Seq<u32>, m: Seq<(u32, Seq<Seq<char>>)>)
    ensures
        forall|i: int, j: int|
            0 <= i < j < spec_select_names(cps, m).len() ==> spec_select_names(cps, m)[i]
                != spec_select_names(cps, m)[j],
    decreases cps.len(),
{
    if cps.len() > 0 {
        lemma_select_no_duplicates(cps.drop_last(), m);
        let pre = spec_select_names(cps.drop_last(), m);
        let r = spec_select_names(cps, m);
        if r != pre {
            let fam = r.last();
            assert(!pre.contains(fam));
            assert forall|i: int, j: int| 0 <= i < j < r.len() implies r[i] != r[j] by {
                if j < r.len() - 1 {
                    assert(pre[i] != pre[j]);
                } else {
                    if pre.contains(r[i]) == false {
                        assert(pre[i] == r[i]);
                        assert(pre.contains(pre[i]));
                    }
                }
            }
        }
    }
}

/// The name is "Noto " followed by a variant the classifier table knows.
pub open spec fn is_noto_of_known(name: Seq<char>) -> bool {
    exists|v: Seq<char>| name == #[trigger] ("Noto "@ + v) && spec_script(v) is Some
}

/// Every name of the selected stack is "Noto " followed by a variant that
/// the classifier table knows.
pub proof fn lemma_select_names_form(cps: Seq<u32>, m: Seq<(u32, Seq<Seq<char>>)>)
    requires
        sm_known(m),
    ensures
        forall|i: int|
            0 <= i < spec_select_names(cps, m).len() ==> is_noto_of_known(
                #[trigger] spec_select_names(cps, m)[i],
            ),
    decreases cps.len(),
{
    if cps.len() > 0 {
        lemma_select_names_form(cps.drop_last(), m);
        let pre = spec_select_names(cps.drop_last(), m);
        let r = spec_select_names(cps, m);
        let c = cps.last();
        if r != pre {
            assert(sm_has(m, c) && sm_at(m, c).len() > 0);
            crate::client::lemma_sm_at_known(m, c);
            let v = sm_at(m, c)[0];
            assert(spec_script(v) is Some);
            assert(r.last() == "Noto "@ + v);
            assert forall|i: int| 0 <= i < r.len() implies is_noto_of_known(r[i]) by {
                if i < r.len() - 1 {
                    assert(pre[i] == r[i]);
                    assert(is_noto_of_known(pre[i]));
                } else {
                    assert(r[i] == "Noto "@ + v && spec_script(v) is Some);
                }
            }
        }
    }
}

/// A codepoint outside every block of the index never appears in the
/// support map of a well-formed client.
pub proof fn lemma_uncovered_absent(cl: &NotoizeClient, c: u32)
    requires
        cl.wf(),
        forall|j: int| 0 <= j < cl.blocks@.len() ==> !in_block(cl.blocks@[j], c),
    ensures
        !sm_has(sm_view(cl.support@), c),
        spec_block_of(cl.blocks@, c) is None,
{
    if sm_has(sm_view(cl.support@), c) {
        let i = choose|i: int|
            0 <= i < sm_view(cl.support@).len() && sm_view(cl.support@)[i].0 == c;
        assert(cl.support@[i].codepoint == c);
        assert(cl.covered_by_ingested(c));
        let p = choose|p: int|
            #![trigger cl.ingested@[p]]
            0 <= p < cl.ingested@.len() && in_block(cl.blocks@[cl.ingested@[p] as int], c);
        assert(false);
    }
    crate::client::lemma_block_of_props(cl.blocks@, c);
    if let Option::Some(p) = spec_block_of(cl.blocks@, c) {
        assert(in_block(cl.blocks@[p], c));
        assert(false);
    }
}

/// A codepoint absent from the support map never influences the stack:
/// selection over a codepoint list with it inserted anywhere equals
/// selection without it.
pub proof fn lemma_absent_no_influence(
    pre: Seq<u32>,
    c: u32,
    post: Seq<u32>,
    m: Seq<(u32, Seq<Seq<char>>)>,
)
    requires
        !sm_has(m, c),
    ensures
        spec_select_names(pre + seq![c] + post, m) == spec_select_names(pre + post, m),
    decreases post.len(),
{
    if post.len() == 0 {
        assert(pre + seq![c] + post =~= (pre + post).push(c));
        assert((pre + post).push(c).drop_last() =~= pre + post);
    } else {
        lemma_absent_no_influence(pre, c, post.drop_last(), m);
        let a = pre + seq![c] + post;
        let b = pre + post;
        assert(a.drop_last() =~= pre + seq![c] + post.drop_last());
        assert(b.drop_last() =~= pre + post.drop_last());
        assert(a.last() == post.last());
        assert(b.last() == post.last());
    }
}

/// The tie-break favours Sans: whenever a codepoint's filtered support
/// list holds a variant containing the word "Sans", the variant its cache
/// entry stores first - the one selection picks - contains "Sans" too.
pub proof fn lemma_tie_break_prefers_sans(data: BlockData, c: u32)
    requires
        exists|i: int|
            0 <= i < spec_filtered(data, c).len() && has_substring(
                #[trigger] spec_filtered(data, c)[i],
                "Sans"@,
            ),
    ensures
        spec_cp_fonts(data, c).len() > 0,
        has_substring(spec_cp_fonts(data, c)[0], "Sans"@),
{
    lemma_selection_prefers_sans(spec_filtered(data, c));
}

/// The conflict listing renders a subset of the codepoints of the full
/// listing, and each of them is supported by at least two distinct scripts.
pub proof fn lemma_conflicts_subset(m: Seq<(u32, Seq<Seq<char>>)>)
    ensures
        forall|i: int|
            0 <= i < m.len() && spec_entry_conflicted(#[trigger] m[i]) ==> spec_entry_reported(
                m[i],
            ),
        forall|i: int|
            0 <= i < m.len() && spec_entry_conflicted(#[trigger] m[i]) ==> spec_scripts(
                m[i].1,
            ).len() >= 2,
{
}

/// The missing-sibling list of a support list never names a variant that
/// the support list already holds.
pub proof fn lemma_missing_excludes_present(fonts: Seq<Seq<char>>)
    ensures
        forall|i: int|
            0 <= i < spec_missing_variants(fonts).len() ==> !fonts.contains(
                spec_missing_variants(fonts)[i],
            ),
{
    lemma_missing_from_excludes(fonts, crate::script::spec_all_variants());
}

proof fn lemma_missing_from_excludes(fonts: Seq<Seq<char>>, vars: Seq<Seq<char>>)
    ensures
        forall|i: int|
            0 <= i < spec_missing_from(fonts, vars).len() ==> !fonts.contains(
                spec_missing_from(fonts, vars)[i],
            ),
    decreases vars.len(),
{
    if vars.len() > 0 {
        lemma_missing_from_excludes(fonts, vars.drop_last());
        let r = spec_missing_from(fonts, vars);
        let rest = spec_missing_from(fonts, vars.drop_last());
        assert forall|i: int| 0 <= i < r.len() implies !fonts.contains(r[i]) by {
            if i < rest.len() {
                assert(r[i] == rest[i]);
            } else {
                assert(r == rest.push(vars.last()));
                assert(crate::script::is_missing_sibling(fonts, vars.last()));
            }
        }
    }
}

/// A client whose cache already covers the block of every requested
/// codepoint triggers no further fetches; by determinism, re-running the
/// resolution then yields identical stacks and reports.
pub proof fn lemma_idempotent(cl: &NotoizeClient, cps: Seq<u32>)
    requires
        forall|i: int|
            0 <= i < cps.len() ==> match spec_block_of(cl.blocks@, #[trigger] cps[i]) {
                Option::Some(p) => cl.ingested@.contains(p as usize),
                Option::None => true,
            },
    ensures
        spec_blocks_needed(cl.blocks@, cl.ingested@, cps) == Seq::<usize>::empty(),
    decreases cps.len(),
{
    if cps.len() > 0 {
        assert(forall|i: int| 0 <= i < cps.drop_last().len() ==> cps.drop_last()[i] == cps[i]);
        lemma_idempotent(cl, cps.drop_last());
        assert(cps.last() == cps[cps.len() - 1]);
    }
}

} // verus!
