//! The resolution client: the block index, the lazily filled per-codepoint
//! coverage cache, and the stack selector.

use vstd::prelude::*;
use vstd::string::StrSliceExecFns;
use vstd::string::StringExecFns;
use crate::script::all_known;
use crate::script::script;
use crate::script::spec_script;
use crate::sortutil::SortKey;
use crate::sortutil::lemma_sort_known;
use crate::sortutil::sort_by_key;
use crate::sortutil::sort_dedup_u32;
use crate::sortutil::spec_dedup_u32;
use crate::sortutil::spec_sort;
use crate::sortutil::spec_sort_u32;
use crate::strutil::dec_val;
use crate::strutil::ends_with;
use crate::strutil::is_dec_string;
use crate::strutil::parse_u32;
use crate::strutil::str_ends_with;
use crate::strutil::views_of;

verus! {

/// A fatal resolution error: a taxonomy gap or a malformed metadata
/// document.
#[derive(Debug)]
pub enum NotoizeError {
    /// External metadata named a variant absent from the classifier table.
    UnknownVariant(String),
    /// A per-codepoint key of a block document is not a decimal codepoint.
    BadCodepointKey(String),
    /// The block list is not sorted into disjoint ranges.
    BadBlockList,
    /// A CJK family name has too few words to name a file.
    MalformedFamilyName(String),
    /// A CJK regional suffix outside the region table.
    UnknownCjkVariety(String),
}

/// One block of the block index: a contiguous codepoint range with its
/// document index and human name.
#[derive(Debug, Clone)]
pub struct BlockEndpoints {
    pub ix: usize,
    pub start: u32,
    pub end: u32,
    pub name: String,
}

/// The per-codepoint part of a block coverage document: the supporting
/// variants, or none to inherit the block default.
#[derive(Debug, Clone)]
pub struct CodepointFontSupport {
    pub fonts: Option<Vec<String>>,
}

/// A block coverage document: a map from stringified codepoint to its
/// support entry, and an optional block-wide list overriding every entry.
#[derive(Debug, Clone)]
pub struct BlockData {
    pub cps: Vec<(String, CodepointFontSupport)>,
    pub fonts: Option<Vec<String>>,
}

/// One materialized cache entry: a codepoint and its filtered, tie-break
/// sorted list of supporting variants.
#[derive(Debug)]
pub struct SupportEntry {
    pub codepoint: u32,
    pub fonts: Vec<String>,
}

impl View for SupportEntry {
    type V = (u32, Seq<Seq<char>>);

    open spec fn view(&self) -> (u32, Seq<Seq<char>>) {
        (self.codepoint, views_of(self.fonts@))
    }
}

/// The abstract contents of a sequence of cache entries.
pub open spec fn sm_view(entries: Seq<SupportEntry>) -> Seq<(u32, Seq<Seq<char>>)> {
    entries.map(|i: int, e: SupportEntry| e@)
}

/// The support map holds codepoint `c`.
pub open spec fn sm_has(s: Seq<(u32, Seq<Seq<char>>)>, c: u32) -> bool {
    exists|i: int| 0 <= i < s.len() && s[i].0 == c
}

/// The support list of codepoint `c` (under unique keys).
pub open spec fn sm_at(s: Seq<(u32, Seq<Seq<char>>)>, c: u32) -> Seq<Seq<char>> {
    let i = choose|i: int| 0 <= i < s.len() && s[i].0 == c;
    s[i].1
}

/// Entry keys are strictly ascending.
pub open spec fn sm_sorted(s: Seq<(u32, Seq<Seq<char>>)>) -> bool {
    forall|i: int, j: int| 0 <= i < j < s.len() ==> s[i].0 < s[j].0
}

/// Every stored variant name is in the classifier table.
pub open spec fn sm_known(s: Seq<(u32, Seq<Seq<char>>)>) -> bool {
    forall|i: int| 0 <= i < s.len() ==> all_known(s[i].1)
}

proof fn lemma_sm_lookup(s: Seq<(u32, Seq<Seq<char>>)>, i: int)
    requires
        sm_sorted(s),
        0 <= i < s.len(),
    ensures
        sm_has(s, s[i].0),
        sm_at(s, s[i].0) == s[i].1,
{
    assert(sm_has(s, s[i].0));
    let j = choose|j: int| 0 <= j < s.len() && s[j].0 == s[i].0;
    if i < j {
        assert(s[i].0 < s[j].0);
    } else if j < i {
        assert(s[j].0 < s[i].0);
    }
}

/// The support list of a present key of a known map holds only known
/// variants.
pub proof fn lemma_sm_at_known(m: Seq<(u32, Seq<Seq<char>>)>, c: u32)
    requires
        sm_known(m),
        sm_has(m, c),
    ensures
        all_known(sm_at(m, c)),
{
    let i = choose|i: int| 0 <= i < m.len() && m[i].0 == c;
    assert(all_known(m[i].1));
}

/// `c` lies inside block `b`.
pub open spec fn in_block(b: BlockEndpoints, c: u32) -> bool {
    b.start <= c && c <= b.end
}

/// The block index is sorted by start into mutually disjoint valid ranges.
pub open spec fn blocks_wf(blocks: Seq<BlockEndpoints>) -> bool {
    (forall|i: int| 0 <= i < blocks.len() ==> blocks[i].start <= blocks[i].end) && (forall|
        i: int,
        j: int,
    |
        0 <= i < j < blocks.len() ==> blocks[i].end < blocks[j].start)
}

/// The first block at or after position `k` containing `c`.
pub open spec fn spec_block_from(blocks: Seq<BlockEndpoints>, c: u32, k: int) -> Option<int>
    decreases blocks.len() - k,
{
    if k < 0 || k >= blocks.len() {
        Option::None
    } else if in_block(blocks[k], c) {
        Option::Some(k)
    } else {
        spec_block_from(blocks, c, k + 1)
    }
}

/// The position of the first block containing `c`, if any.
pub open spec fn spec_block_of(blocks: Seq<BlockEndpoints>, c: u32) -> Option<int> {
    spec_block_from(blocks, c, 0)
}

proof fn lemma_block_from_props(blocks: Seq<BlockEndpoints>, c: u32, k: int)
    requires
        0 <= k <= blocks.len(),
    ensures
        match spec_block_from(blocks, c, k) {
            Option::Some(p) => k <= p < blocks.len() && in_block(blocks[p], c),
            Option::None => forall|j: int| k <= j < blocks.len() ==> !in_block(blocks[j], c),
        },
    decreases blocks.len() - k,
{
    if k < blocks.len() && !in_block(blocks[k], c) {
        lemma_block_from_props(blocks, c, k + 1);
    }
}

/// A codepoint outside every block is found by no lookup; one inside some
/// block is found in a block that contains it.
pub proof fn lemma_block_of_props(blocks: Seq<BlockEndpoints>, c: u32)
    ensures
        match spec_block_of(blocks, c) {
            Option::Some(p) => 0 <= p < blocks.len() && in_block(blocks[p], c),
            Option::None => forall|j: int| 0 <= j < blocks.len() ==> !in_block(blocks[j], c),
        },
{
    lemma_block_from_props(blocks, c, 0);
}

/// The coverage-resolution client: the block index, the set of block
/// positions whose documents are materialized, and the coverage cache.
#[derive(Debug)]
pub struct NotoizeClient {
    pub blocks: Vec<BlockEndpoints>,
    pub ingested: Vec<usize>,
    pub support: Vec<SupportEntry>,
}

impl NotoizeClient {
    /// Some materialized block's range holds `c`.
    pub open spec fn covered_by_ingested(&self, c: u32) -> bool {
        exists|p: int|
            #![trigger self.ingested@[p]]
            0 <= p < self.ingested@.len() && in_block(self.blocks@[self.ingested@[p] as int], c)
    }

    /// The client invariant: a well-formed block index; a cache with
    /// strictly ascending keys, only known variants, exactly the codepoints
    /// of the materialized blocks; and materialized positions that are valid
    /// and distinct.
    pub open spec fn wf(&self) -> bool {
        &&& blocks_wf(self.blocks@)
        &&& sm_sorted(sm_view(self.support@))
        &&& sm_known(sm_view(self.support@))
        &&& forall|i: int| 0 <= i < self.ingested@.len() ==> self.ingested@[i] < self.blocks@.len()
        &&& forall|i: int, j: int|
            0 <= i < j < self.ingested@.len() ==> self.ingested@[i] != self.ingested@[j]
        &&& forall|i: int|
            0 <= i < self.support@.len() ==> self.covered_by_ingested(
                #[trigger] self.support@[i].codepoint,
            )
        &&& forall|c: u32| #[trigger] self.covered_by_ingested(c) ==> sm_has(sm_view(self.support@), c)
    }

    /// Builds a client over a block index, rejecting one whose ranges are
    /// not sorted and mutually disjoint.
    pub fn from_blocks(blocks: Vec<BlockEndpoints>) -> (r: Result<NotoizeClient, NotoizeError>)
        ensures
            match r {
                Result::Ok(cl) => blocks_wf(blocks@) && cl.wf() && cl.blocks@ == blocks@
                    && cl.ingested@.len() == 0 && cl.support@.len() == 0,
                Result::Err(e) => !blocks_wf(blocks@) && e is BadBlockList,
            },
    {
        let n = blocks.len();
        let mut i: usize = 0;
        while i < n
            invariant
                i <= n,
                n == blocks@.len(),
                forall|k: int| 0 <= k < i ==> blocks@[k].start <= blocks@[k].end,
            decreases n - i,
        {
            if blocks[i].start > blocks[i].end {
                return Result::Err(NotoizeError::BadBlockList);
            }
            i += 1;
        }
        let mut j: usize = 1;
        while j < n
            invariant
                1 <= j || n == 0,
                j <= n || (n == 0 && j == 1),
                n == blocks@.len(),
                forall|k: int| 0 <= k < n ==> blocks@[k].start <= blocks@[k].end,
                forall|k: int| 0 <= k < j - 1 ==> blocks@[k].end < blocks@[k + 1].start,
            decreases n - j,
        {
            if blocks[j - 1].end >= blocks[j].start {
                return Result::Err(NotoizeError::BadBlockList);
            }
            j += 1;
        }
        proof {
            lemma_adjacent_sorted(blocks@);
        }
        Result::Ok(
            NotoizeClient { blocks, ingested: Vec::new(), support: Vec::new() },
        )
    }

    /// The position of the first block of the index containing `c`.
    pub fn find_block(&self, c: u32) -> (r: Option<usize>)
        ensures
            match r {
                Option::Some(p) => spec_block_of(self.blocks@, c) == Option::Some(p as int),
                Option::None => spec_block_of(self.blocks@, c) is None,
            },
    {
        let n = self.blocks.len();
        let mut i: usize = 0;
        while i < n
            invariant
                i <= n,
                n == self.blocks@.len(),
                spec_block_of(self.blocks@, c) == spec_block_from(self.blocks@, c, i as int),
            decreases n - i,
        {
            if self.blocks[i].start <= c && c <= self.blocks[i].end {
                return Option::Some(i);
            }
            i += 1;
        }
        Option::None
    }

    /// The positions of the blocks that contain some requested codepoint
    /// and are not yet materialized, first-needed order, no duplicates.
    pub fn blocks_needed(&self, cps: &Vec<u32>) -> (r: Vec<usize>)
        ensures
            r@ == spec_blocks_needed(self.blocks@, self.ingested@, cps@),
    {
        let mut r: Vec<usize> = Vec::new();
        let mut i: usize = 0;
        proof {
            assert(cps@.take(0) =~= Seq::<u32>::empty());
        }
        while i < cps.len()
            invariant
                i <= cps@.len(),
                r@ == spec_blocks_needed(self.blocks@, self.ingested@, cps@.take(i as int)),
            decreases cps@.len() - i,
        {
            proof {
                assert(cps@.take(i as int + 1).drop_last() =~= cps@.take(i as int));
            }
            let c = cps[i];
            match self.find_block(c) {
                Option::Some(p) => {
                    if !list_contains_usize(&self.ingested, p) && !list_contains_usize(&r, p) {
                        r.push(p);
                    }
                },
                Option::None => {},
            }
            i += 1;
        }
        proof {
            assert(cps@.take(i as int) =~= cps@);
        }
        r
    }
}

proof fn lemma_chain(blocks: Seq<BlockEndpoints>, i: int, j: int)
    requires
        forall|k: int| 0 <= k < blocks.len() ==> blocks[k].start <= blocks[k].end,
        forall|k: int| 0 <= k < blocks.len() - 1 ==> blocks[k].end < blocks[k + 1].start,
        0 <= i < j < blocks.len(),
    ensures
        blocks[i].end < blocks[j].start,
    decreases j - i,
{
    if j > i + 1 {
        lemma_chain(blocks, i, j - 1);
    }
}

proof fn lemma_adjacent_sorted(blocks: Seq<BlockEndpoints>)
    requires
        forall|k: int| 0 <= k < blocks.len() ==> blocks[k].start <= blocks[k].end,
        forall|k: int| 0 <= k < blocks.len() - 1 ==> blocks[k].end < blocks[k + 1].start,
    ensures
        blocks_wf(blocks),
{
    assert forall|i: int, j: int| 0 <= i < j < blocks.len() implies blocks[i].end
        < blocks[j].start by {
        lemma_chain(blocks, i, j);
    }
}

/// The blocks a resolution over `cps` still has to fetch, in first-needed
/// order without duplicates.
pub open spec fn spec_blocks_needed(
    blocks: Seq<BlockEndpoints>,
    ingested: Seq<usize>,
    cps: Seq<u32>,
) -> Seq<usize>
    decreases cps.len(),
{
    if cps.len() == 0 {
        Seq::empty()
    } else {
        let pre = spec_blocks_needed(blocks, ingested, cps.drop_last());
        match spec_block_of(blocks, cps.last()) {
            Option::Some(p) => if ingested.contains(p as usize) || pre.contains(p as usize) {
                pre
            } else {
                pre.push(p as usize)
            },
            Option::None => pre,
        }
    }
}

fn list_contains_usize(v: &Vec<usize>, x: usize) -> (r: bool)
    ensures
        r == v@.contains(x),
{
    let mut i: usize = 0;
    while i < v.len()
        invariant
            i <= v@.len(),
            forall|j: int| 0 <= j < i ==> v@[j] != x,
        decreases v@.len() - i,
    {
        if v[i] == x {
            return true;
        }
        i += 1;
    }
    proof {
        if v@.contains(x) {
            let j = choose|j: int| 0 <= j < v@.len() && v@[j] == x;
            assert(v@[j] == x);
        }
    }
    false
}

/// The key parses as a decimal codepoint.
pub open spec fn good_key(k: Seq<char>) -> bool {
    is_dec_string(k) && dec_val(k) <= u32::MAX
}

/// Every per-codepoint key of the document is a decimal codepoint.
pub open spec fn keys_good(cps: Seq<(String, CodepointFontSupport)>) -> bool {
    forall|i: int| 0 <= i < cps.len() ==> good_key(#[trigger] (cps[i].0)@)
}

/// The last document entry whose key denotes `c`.
pub open spec fn spec_cp_lookup(cps: Seq<(String, CodepointFontSupport)>, c: u32) -> Option<int>
    decreases cps.len(),
{
    if cps.len() == 0 {
        Option::None
    } else if is_dec_string(cps.last().0@) && dec_val(cps.last().0@) == c {
        Option::Some(cps.len() - 1)
    } else {
        spec_cp_lookup(cps.drop_last(), c)
    }
}

/// The variants of one per-codepoint entry; an absent list means none.
pub open spec fn entry_fonts_view(e: CodepointFontSupport) -> Seq<Seq<char>> {
    match e.fonts {
        Option::Some(v) => views_of(v@),
        Option::None => Seq::empty(),
    }
}

/// The raw support list the document gives codepoint `c`: the block-wide
/// list when present, else the codepoint's own list; absent codepoints get
/// an empty list.
pub open spec fn spec_chosen(data: BlockData, c: u32) -> Seq<Seq<char>> {
    match spec_cp_lookup(data.cps@, c) {
        Option::None => Seq::empty(),
        Option::Some(k) => match data.fonts {
            Option::Some(f) => views_of(f@),
            Option::None => entry_fonts_view(data.cps@[k].1),
        },
    }
}

/// Layout-tuned faces (names ending in "UI" or "Display") are never
/// selected.
pub open spec fn spec_keeps(f: Seq<char>) -> bool {
    !ends_with(f, "UI"@) && !ends_with(f, "Display"@)
}

/// The support list with layout-tuned faces removed.
pub open spec fn filter_variants(l: Seq<Seq<char>>) -> Seq<Seq<char>>
    decreases l.len(),
{
    if l.len() == 0 {
        Seq::empty()
    } else {
        let rest = filter_variants(l.drop_last());
        if spec_keeps(l.last()) {
            rest.push(l.last())
        } else {
            rest
        }
    }
}

/// The filtered support list the document gives codepoint `c`.
pub open spec fn spec_filtered(data: BlockData, c: u32) -> Seq<Seq<char>> {
    filter_variants(spec_chosen(data, c))
}

/// The cache entry a block document yields for `c`: filtered, then sorted
/// by the selection tie-break.
pub open spec fn spec_cp_fonts(data: BlockData, c: u32) -> Seq<Seq<char>> {
    spec_sort(SortKey::Selection, spec_filtered(data, c))
}

fn clone_string_vec(v: &Vec<String>) -> (r: Vec<String>)
    ensures
        r@ == v@,
{
    let mut r: Vec<String> = Vec::new();
    let mut i: usize = 0;
    while i < v.len()
        invariant
            i <= v@.len(),
            r@ == v@.take(i as int),
        decreases v@.len() - i,
    {
        r.push(v[i].clone());
        proof {
            assert(v@.take(i as int + 1) =~= v@.take(i as int).push(v@[i as int]));
        }
        i += 1;
    }
    proof {
        assert(v@.take(i as int) =~= v@);
    }
    r
}

fn clone_entry(e: &SupportEntry) -> (r: SupportEntry)
    ensures
        r@ == e@,
{
    SupportEntry { codepoint: e.codepoint, fonts: clone_string_vec(&e.fonts) }
}

fn cp_lookup_exec(cps: &Vec<(String, CodepointFontSupport)>, c: u32) -> (r: Option<usize>)
    requires
        keys_good(cps@),
    ensures
        match r {
            Option::Some(k) => k < cps@.len() && spec_cp_lookup(cps@, c) == Option::Some(
                k as int,
            ),
            Option::None => spec_cp_lookup(cps@, c) is None,
        },
{
    let mut j = cps.len();
    proof {
        assert(cps@.take(cps@.len() as int) =~= cps@);
    }
    while j > 0
        invariant
            j <= cps@.len(),
            keys_good(cps@),
            spec_cp_lookup(cps@, c) == spec_cp_lookup(cps@.take(j as int), c),
        decreases j,
    {
        j -= 1;
        let kv = &cps[j];
        proof {
            assert(cps@.take(j as int + 1).last() == cps@[j as int]);
            assert(cps@.take(j as int + 1).drop_last() =~= cps@.take(j as int));
        }
        match parse_u32(kv.0.as_str()) {
            Option::Some(v) => {
                if v == c {
                    return Option::Some(j);
                }
            },
            Option::None => {
                proof {
                    assert(good_key(cps@[j as int].0@));
                }
            },
        }
    }
    proof {
        assert(cps@.take(0) =~= Seq::<(String, CodepointFontSupport)>::empty());
    }
    Option::None
}

fn cp_fonts_exec(data: &BlockData, c: u32) -> (r: Result<Vec<String>, NotoizeError>)
    requires
        keys_good(data.cps@),
    ensures
        match r {
            Result::Ok(l) => views_of(l@) == spec_cp_fonts(*data, c) && all_known(
                spec_filtered(*data, c),
            ),
            Result::Err(e) => match e {
                NotoizeError::UnknownVariant(v) => spec_script(v@) is None && spec_filtered(
                    *data,
                    c,
                ).contains(v@),
                _ => false,
            },
        },
{
    let chosen: Vec<String> = match cp_lookup_exec(&data.cps, c) {
        Option::None => Vec::new(),
        Option::Some(k) => match &data.fonts {
            Option::Some(f) => clone_string_vec(f),
            Option::None => match &data.cps[k].1.fonts {
                Option::Some(v) => clone_string_vec(v),
                Option::None => Vec::new(),
            },
        },
    };
    proof {
        assert(views_of(Seq::<String>::empty()) =~= Seq::<Seq<char>>::empty());
        assert(views_of(chosen@) == spec_chosen(*data, c));
    }
    let mut filtered: Vec<String> = Vec::new();
    let mut i: usize = 0;
    proof {
        assert(views_of(filtered@) =~= filter_variants(views_of(chosen@).take(0)));
    }
    while i < chosen.len()
        invariant
            i <= chosen@.len(),
            views_of(chosen@) == spec_chosen(*data, c),
            views_of(filtered@) == filter_variants(views_of(chosen@).take(i as int)),
        decreases chosen@.len() - i,
    {
        proof {
            assert(views_of(chosen@).take(i as int + 1).drop_last() =~= views_of(chosen@).take(
                i as int,
            ));
            assert(views_of(chosen@).take(i as int + 1).last() == chosen@[i as int]@);
        }
        let ghost pre = views_of(filtered@);
        let f = &chosen[i];
        if !str_ends_with(f.as_str(), "UI") && !str_ends_with(f.as_str(), "Display") {
            filtered.push(f.clone());
            proof {
                assert(views_of(filtered@) =~= pre.push(chosen@[i as int]@));
            }
        }
        i += 1;
    }
    proof {
        assert(views_of(chosen@).take(i as int) =~= views_of(chosen@));
    }
    let mut k: usize = 0;
    while k < filtered.len()
        invariant
            k <= filtered@.len(),
            views_of(filtered@) == spec_filtered(*data, c),
            forall|j: int| 0 <= j < k ==> spec_script(#[trigger] views_of(filtered@)[j]) is Some,
        decreases filtered@.len() - k,
    {
        proof {
            assert(views_of(filtered@)[k as int] == filtered@[k as int]@);
        }
        match script(filtered[k].as_str()) {
            Option::None => {
                proof {
                    assert(spec_filtered(*data, c).contains(filtered@[k as int]@)) by {
                        assert(spec_filtered(*data, c)[k as int] == filtered@[k as int]@);
                    }
                }
                return Result::Err(NotoizeError::UnknownVariant(filtered[k].clone()));
            },
            Option::Some(_) => {},
        }
        k += 1;
    }
    proof {
        assert(all_known(spec_filtered(*data, c)));
    }
    let sorted = sort_by_key(SortKey::Selection, &filtered);
    Result::Ok(sorted)
}

fn build_filled(data: &BlockData, b_start: u32, b_end: u32) -> (r: Result<
    Vec<SupportEntry>,
    NotoizeError,
>)
    requires
        keys_good(data.cps@),
        b_start <= b_end,
    ensures
        match r {
            Result::Ok(f) => {
                &&& f@.len() == b_end - b_start + 1
                &&& forall|k: int|
                    0 <= k < f@.len() ==> (#[trigger] f@[k]).codepoint == b_start + k
                &&& forall|k: int|
                    0 <= k < f@.len() ==> views_of((#[trigger] f@[k]).fonts@) == spec_cp_fonts(
                        *data,
                        (b_start + k) as u32,
                    )
                &&& forall|k: int|
                    0 <= k < f@.len() ==> all_known(
                        spec_filtered(*data, #[trigger] ((b_start + k) as u32)),
                    )
                &&& forall|k: int|
                    0 <= k < f@.len() ==> all_known(views_of((#[trigger] f@[k]).fonts@))
            },
            Result::Err(e) => match e {
                NotoizeError::UnknownVariant(v) => spec_script(v@) is None && (exists|c: u32|
                    b_start <= c <= b_end && spec_filtered(*data, c).contains(v@)),
                _ => false,
            },
        },
{
    let mut filled: Vec<SupportEntry> = Vec::new();
    let span: u64 = (b_end - b_start) as u64 + 1;
    let mut n: u64 = 0;
    while n < span
        invariant
            n <= span,
            span == b_end - b_start + 1,
            b_start <= b_end,
            keys_good(data.cps@),
            filled@.len() == n,
            forall|k: int| 0 <= k < n ==> (#[trigger] filled@[k]).codepoint == b_start + k,
            forall|k: int|
                0 <= k < n ==> views_of((#[trigger] filled@[k]).fonts@) == spec_cp_fonts(
                    *data,
                    (b_start + k) as u32,
                ),
            forall|k: int|
                0 <= k < n ==> all_known(spec_filtered(*data, #[trigger] ((b_start + k) as u32))),
            forall|k: int| 0 <= k < n ==> all_known(views_of((#[trigger] filled@[k]).fonts@)),
        decreases span - n,
    {
        let c: u32 = b_start + (n as u32);
        match cp_fonts_exec(data, c) {
            Result::Ok(lst) => {
                proof {
                    lemma_sort_known(SortKey::Selection, spec_filtered(*data, c));
                }
                filled.push(SupportEntry { codepoint: c, fonts: lst });
            },
            Result::Err(e) => {
                proof {
                    if let NotoizeError::UnknownVariant(v) = &e {
                        assert(b_start <= c <= b_end && spec_filtered(*data, c).contains(v@));
                    }
                }
                return Result::Err(e);
            },
        }
        n += 1;
    }
    Result::Ok(filled)
}

fn validate_keys(data: &BlockData) -> (r: Result<(), NotoizeError>)
    ensures
        match r {
            Result::Ok(u) => keys_good(data.cps@),
            Result::Err(e) => match e {
                NotoizeError::BadCodepointKey(kk) => !good_key(kk@) && (exists|i: int|
                    0 <= i < data.cps@.len() && (#[trigger] data.cps@[i].0)@ == kk@),
                _ => false,
            },
        },
{
    let mut vi: usize = 0;
    while vi < data.cps.len()
        invariant
            vi <= data.cps@.len(),
            forall|k: int| 0 <= k < vi ==> good_key(#[trigger] (data.cps@[k].0)@),
        decreases data.cps@.len() - vi,
    {
        let kv = &data.cps[vi];
        match parse_u32(kv.0.as_str()) {
            Option::None => {
                proof {
                    assert(exists|i: int|
                        0 <= i < data.cps@.len() && (#[trigger] data.cps@[i].0)@ == kv.0@) by {
                        assert((data.cps@[vi as int].0)@ == kv.0@);
                    }
                }
                return Result::Err(NotoizeError::BadCodepointKey(kv.0.clone()));
            },
            Option::Some(u) => {},
        }
        vi += 1;
    }
    Result::Ok(())
}

impl NotoizeClient {
    /// Materializes one block's coverage document into the cache: every
    /// codepoint of the block's range gets its filtered, tie-break sorted
    /// support list (absent codepoints an empty one).  A block already
    /// materialized is left untouched.  A malformed key or a variant outside
    /// the classifier table is a fatal error and leaves the client unchanged.
    #[verifier::rlimit(60)]
    pub fn ingest_block(&mut self, pos: usize, data: &BlockData) -> (r: Result<(), NotoizeError>)
        requires
            old(self).wf(),
            pos < old(self).blocks@.len(),
        ensures
            final(self).wf(),
            final(self).blocks@ == old(self).blocks@,
            match r {
                Result::Ok(u) => if old(self).ingested@.contains(pos) {
                    final(self).ingested@ == old(self).ingested@ && sm_view(final(self).support@) == sm_view(
                        old(self).support@,
                    )
                } else {
                    &&& keys_good(data.cps@)
                    &&& final(self).ingested@ == old(self).ingested@.push(pos)
                    &&& forall|c: u32|
                        in_block(old(self).blocks@[pos as int], c) ==> sm_has(
                            sm_view(final(self).support@),
                            c,
                        ) && sm_at(sm_view(final(self).support@), c) == spec_cp_fonts(*data, c)
                    &&& forall|c: u32|
                        in_block(old(self).blocks@[pos as int], c) ==> all_known(
                            spec_filtered(*data, c),
                        )
                    &&& forall|c: u32|
                        !in_block(old(self).blocks@[pos as int], c) ==> (sm_has(
                            sm_view(final(self).support@),
                            c,
                        ) == sm_has(sm_view(old(self).support@), c)) && (sm_has(
                            sm_view(final(self).support@),
                            c,
                        ) ==> sm_at(sm_view(final(self).support@), c) == sm_at(
                            sm_view(old(self).support@),
                            c,
                        ))
                },
                Result::Err(e) => {
                    &&& final(self).ingested@ == old(self).ingested@
                    &&& sm_view(final(self).support@) == sm_view(old(self).support@)
                    &&& !old(self).ingested@.contains(pos)
                    &&& match e {
                        NotoizeError::UnknownVariant(v) => keys_good(data.cps@) && spec_script(
                            v@,
                        ) is None && (exists|c: u32|
                            in_block(old(self).blocks@[pos as int], c) && spec_filtered(
                                *data,
                                c,
                            ).contains(v@)),
                        NotoizeError::BadCodepointKey(kk) => !good_key(kk@) && (exists|i: int|
                            0 <= i < data.cps@.len() && (#[trigger] data.cps@[i].0)@ == kk@),
                        _ => false,
                    }
                },
            },
    {
        if list_contains_usize(&self.ingested, pos) {
            return Result::Ok(());
        }
        match validate_keys(data) {
            Result::Ok(u) => {},
            Result::Err(e) => {
                proof {
                    assert(!old(self).ingested@.contains(pos));
                    assert(sm_view(self.support@) == sm_view(old(self).support@));
                }
                return Result::Err(e);
            },
        }
        let b_start = self.blocks[pos].start;
        let b_end = self.blocks[pos].end;
        let filled = match build_filled(data, b_start, b_end) {
            Result::Ok(f) => f,
            Result::Err(e) => {
                proof {
                    if let NotoizeError::UnknownVariant(v) = &e {
                        let c = choose|c: u32|
                            b_start <= c <= b_end && spec_filtered(*data, c).contains(v@);
                        assert(in_block(old(self).blocks@[pos as int], c) && spec_filtered(
                            *data,
                            c,
                        ).contains(v@));
                    }
                }
                return Result::Err(e);
            },
        };
        let ghost old_sm = sm_view(self.support@);
        let ghost fill_sm = sm_view(filled@);
        let ghost span = b_end - b_start + 1;
        let n = self.support.len();
        let mut p: usize = 0;
        while p < n && self.support[p].codepoint < b_start
            invariant
                p <= n,
                n == self.support@.len(),
                forall|k: int| 0 <= k < p ==> (#[trigger] self.support@[k]).codepoint < b_start,
            decreases n - p,
        {
            p += 1;
        }
        proof {
            assert forall|k: int| p <= k < n implies (#[trigger] self.support@[k]).codepoint
                > b_end by {
                let cpk = self.support@[k].codepoint;
                assert(self.covered_by_ingested(cpk));
                let q = choose|q: int|
                    #![trigger self.ingested@[q]]
                    0 <= q < self.ingested@.len() && in_block(
                        self.blocks@[self.ingested@[q] as int],
                        cpk,
                    );
                let bq = self.ingested@[q] as int;
                if bq == pos {
                    assert(self.ingested@.contains(pos)) by {
                        assert(self.ingested@[q] == pos);
                    }
                }
                if k > p {
                    assert(sm_view(self.support@)[p as int].0
                        == self.support@[p as int].codepoint);
                    assert(sm_view(self.support@)[k].0 == cpk);
                    assert(sm_view(self.support@)[p as int].0 < sm_view(self.support@)[k].0);
                }
                assert(cpk >= b_start);
                if bq < pos {
                    assert(self.blocks@[bq].end < self.blocks@[pos as int].start);
                    assert(cpk < b_start);
                    assert(false);
                } else {
                    assert(self.blocks@[pos as int].end < self.blocks@[bq].start);
                }
            }
        }
        let mut ns: Vec<SupportEntry> = Vec::new();
        let mut a: usize = 0;
        proof {
            assert(sm_view(ns@) =~= old_sm.take(0));
        }
        while a < p
            invariant
                a <= p,
                p <= n,
                n == self.support@.len(),
                old_sm == sm_view(self.support@),
                sm_view(ns@) == old_sm.take(a as int),
            decreases p - a,
        {
            let ghost pre = sm_view(ns@);
            ns.push(clone_entry(&self.support[a]));
            proof {
                assert(sm_view(ns@) =~= pre.push(self.support@[a as int]@));
                assert(old_sm.take(a as int + 1) =~= old_sm.take(a as int).push(
                    old_sm[a as int],
                ));
            }
            a += 1;
        }
        let mut bi: usize = 0;
        proof {
            assert(sm_view(ns@) =~= old_sm.take(p as int) + fill_sm.take(0));
        }
        while bi < filled.len()
            invariant
                bi <= filled@.len(),
                p <= n,
                n == self.support@.len(),
                old_sm == sm_view(self.support@),
                fill_sm == sm_view(filled@),
                sm_view(ns@) == old_sm.take(p as int) + fill_sm.take(bi as int),
            decreases filled@.len() - bi,
        {
            let ghost pre = sm_view(ns@);
            ns.push(clone_entry(&filled[bi]));
            proof {
                assert(sm_view(ns@) =~= pre.push(filled@[bi as int]@));
                assert(old_sm.take(p as int) + fill_sm.take(bi as int + 1) =~= (old_sm.take(
                    p as int,
                ) + fill_sm.take(bi as int)).push(fill_sm[bi as int]));
            }
            bi += 1;
        }
        proof {
            assert(fill_sm.take(filled@.len() as int) =~= fill_sm);
        }
        let mut d: usize = p;
        proof {
            assert(old_sm.subrange(p as int, p as int) =~= Seq::<(u32, Seq<Seq<char>>)>::empty());
            assert(sm_view(ns@) =~= old_sm.take(p as int) + fill_sm + old_sm.subrange(
                p as int,
                p as int,
            ));
        }
        while d < n
            invariant
                p <= d <= n,
                n == self.support@.len(),
                old_sm == sm_view(self.support@),
                fill_sm == sm_view(filled@),
                sm_view(ns@) == old_sm.take(p as int) + fill_sm + old_sm.subrange(
                    p as int,
                    d as int,
                ),
            decreases n - d,
        {
            let ghost pre = sm_view(ns@);
            ns.push(clone_entry(&self.support[d]));
            proof {
                assert(sm_view(ns@) =~= pre.push(self.support@[d as int]@));
                assert(old_sm.take(p as int) + fill_sm + old_sm.subrange(p as int, d as int + 1)
                    =~= (old_sm.take(p as int) + fill_sm + old_sm.subrange(p as int, d as int)).push(
                    old_sm[d as int],
                ));
            }
            d += 1;
        }
        let ghost old_ingested = self.ingested@;
        let ghost old_blocks = self.blocks@;
        self.support = ns;
        self.ingested.push(pos);
        proof {
            assert(old_sm.subrange(p as int, n as int) =~= old_sm.skip(p as int));
            lemma_ingest_post(
                old_sm,
                fill_sm,
                sm_view(self.support@),
                p as int,
                b_start,
                b_end,
            );
            let s = *self;
            assert forall|i: int| 0 <= i < s.support@.len() implies s.covered_by_ingested(
                #[trigger] s.support@[i].codepoint,
            ) by {
                let cpi = s.support@[i].codepoint;
                assert(sm_view(s.support@)[i].0 == cpi);
                if i < p {
                    assert(old_sm[i].0 == cpi);
                    assert(old(self).covered_by_ingested(cpi));
                    let q = choose|q: int|
                        #![trigger old_ingested[q]]
                        0 <= q < old_ingested.len() && in_block(
                            old_blocks[old_ingested[q] as int],
                            cpi,
                        );
                    assert(s.ingested@[q] == old_ingested[q]);
                } else if i < p + span {
                    assert(in_block(s.blocks@[pos as int], cpi));
                    assert(s.ingested@[old_ingested.len() as int] == pos);
                } else {
                    assert(old_sm[i - span].0 == cpi);
                    assert(old(self).covered_by_ingested(cpi));
                    let q = choose|q: int|
                        #![trigger old_ingested[q]]
                        0 <= q < old_ingested.len() && in_block(
                            old_blocks[old_ingested[q] as int],
                            cpi,
                        );
                    assert(s.ingested@[q] == old_ingested[q]);
                }
            }
            assert forall|c: u32| #[trigger] s.covered_by_ingested(c) implies sm_has(
                sm_view(s.support@),
                c,
            ) by {
                let q = choose|q: int|
                    #![trigger s.ingested@[q]]
                    0 <= q < s.ingested@.len() && in_block(s.blocks@[s.ingested@[q] as int], c);
                if q < old_ingested.len() {
                    assert(old(self).covered_by_ingested(c)) by {
                        assert(old_ingested[q] == s.ingested@[q]);
                    }
                    assert(sm_has(old_sm, c));
                    let bq = old_ingested[q] as int;
                    if in_block(old_blocks[pos as int], c) {
                        assert(old_ingested[q] != pos);
                        if bq < pos {
                            assert(old_blocks[bq].end < old_blocks[pos as int].start);
                        } else {
                            assert(old_blocks[pos as int].end < old_blocks[bq].start);
                        }
                        assert(false);
                    }
                } else {
                    assert(s.ingested@[q] == pos);
                    assert(in_block(s.blocks@[pos as int], c));
                }
            }
        }
        proof {
            let s = *self;
            let b = old(self).blocks@[pos as int];
            assert forall|c: u32| in_block(b, c) implies sm_has(sm_view(s.support@), c) && sm_at(
                sm_view(s.support@),
                c,
            ) == spec_cp_fonts(*data, c) by {
                let k: int = c - b_start;
                assert(fill_sm[k] == filled@[k]@);
                assert(fill_sm[k].1 == views_of(filled@[k].fonts@));
                assert(views_of(filled@[k].fonts@) == spec_cp_fonts(*data, (b_start + k) as u32));
                assert((b_start + k) as u32 == c);
            }
            assert forall|c: u32| in_block(b, c) implies all_known(spec_filtered(*data, c)) by {
                let k: int = c - b_start;
                assert(all_known(spec_filtered(*data, (b_start + k) as u32)));
                assert((b_start + k) as u32 == c);
            }
        }
        Result::Ok(())
    }
}

proof fn lemma_ingest_post(
    old_sm: Seq<(u32, Seq<Seq<char>>)>,
    fill_sm: Seq<(u32, Seq<Seq<char>>)>,
    new_sm: Seq<(u32, Seq<Seq<char>>)>,
    p: int,
    b_start: u32,
    b_end: u32,
)
    requires
        b_start <= b_end,
        sm_sorted(old_sm),
        sm_known(old_sm),
        sm_known(fill_sm),
        0 <= p <= old_sm.len(),
        forall|k: int| 0 <= k < p ==> (#[trigger] old_sm[k]).0 < b_start,
        forall|k: int| p <= k < old_sm.len() ==> (#[trigger] old_sm[k]).0 > b_end,
        fill_sm.len() == b_end - b_start + 1,
        forall|k: int| 0 <= k < fill_sm.len() ==> (#[trigger] fill_sm[k]).0 == b_start + k,
        new_sm == old_sm.take(p) + fill_sm + old_sm.skip(p),
    ensures
        sm_sorted(new_sm),
        sm_known(new_sm),
        forall|c: u32|
            b_start <= c <= b_end ==> sm_has(new_sm, c) && sm_at(new_sm, c) == fill_sm[c
                - b_start].1,
        forall|c: u32|
            !(b_start <= c <= b_end) ==> (sm_has(new_sm, c) == sm_has(old_sm, c)) && (sm_has(
                new_sm,
                c,
            ) ==> sm_at(new_sm, c) == sm_at(old_sm, c)),
{
    let span = b_end - b_start + 1;
    assert(new_sm.len() == old_sm.len() + span);
    assert forall|i: int| 0 <= i < new_sm.len() implies (#[trigger] new_sm[i]) == (if i < p {
        old_sm[i]
    } else if i < p + span {
        fill_sm[i - p]
    } else {
        old_sm[i - span]
    }) by {
        assert(old_sm.skip(p).len() == old_sm.len() - p);
        if i >= p + span {
            assert(new_sm[i] == old_sm.skip(p)[i - p - span]);
            assert(old_sm.skip(p)[i - p - span] == old_sm[i - span]);
        }
    }
    assert(sm_sorted(new_sm)) by {
        assert forall|i: int, j: int| 0 <= i < j < new_sm.len() implies new_sm[i].0
            < new_sm[j].0 by {}
    }
    assert(sm_known(new_sm)) by {
        assert forall|i: int| 0 <= i < new_sm.len() implies all_known(#[trigger] new_sm[i].1) by {}
    }
    assert forall|c: u32| b_start <= c <= b_end implies sm_has(new_sm, c) && sm_at(new_sm, c)
        == fill_sm[c - b_start].1 by {
        let i = p + (c - b_start);
        assert(new_sm[i].0 == c);
        lemma_sm_lookup(new_sm, i);
    }
    assert forall|c: u32| !(b_start <= c <= b_end) implies (sm_has(new_sm, c) == sm_has(
        old_sm,
        c,
    )) && (sm_has(new_sm, c) ==> sm_at(new_sm, c) == sm_at(old_sm, c)) by {
        if sm_has(old_sm, c) {
            let k = choose|k: int| 0 <= k < old_sm.len() && old_sm[k].0 == c;
            let i = if k < p {
                k
            } else {
                k + span
            };
            assert(new_sm[i].0 == c);
            lemma_sm_lookup(new_sm, i);
            lemma_sm_lookup(old_sm, k);
        }
        if sm_has(new_sm, c) {
            let i = choose|i: int| 0 <= i < new_sm.len() && new_sm[i].0 == c;
            assert(!(p <= i < p + span));
            let k = if i < p {
                i
            } else {
                i - span
            };
            assert(old_sm[k].0 == c);
            lemma_sm_lookup(new_sm, i);
            lemma_sm_lookup(old_sm, k);
        }
    }
}

/// The entries of `m` whose codepoint is among `cps`, in order.
pub open spec fn sm_restrict(m: Seq<(u32, Seq<Seq<char>>)>, cps: Seq<u32>) -> Seq<
    (u32, Seq<Seq<char>>),
>
    decreases m.len(),
{
    if m.len() == 0 {
        Seq::empty()
    } else {
        let rest = sm_restrict(m.drop_last(), cps);
        if cps.contains(m.last().0) {
            rest.push(m.last())
        } else {
            rest
        }
    }
}

/// Restriction keeps order, keys and knownness: every kept entry is an
/// entry of `m`, and the result is sorted and known when `m` is.
pub proof fn lemma_restrict_props(m: Seq<(u32, Seq<Seq<char>>)>, cps: Seq<u32>)
    requires
        sm_sorted(m),
        sm_known(m),
    ensures
        sm_sorted(sm_restrict(m, cps)),
        sm_known(sm_restrict(m, cps)),
        forall|i: int|
            0 <= i < sm_restrict(m, cps).len() ==> exists|j: int|
                0 <= j < m.len() && #[trigger] sm_restrict(m, cps)[i] == m[j],
    decreases m.len(),
{
    if m.len() > 0 {
        let dl = m.drop_last();
        assert(sm_sorted(dl));
        assert(sm_known(dl));
        lemma_restrict_props(dl, cps);
        let r = sm_restrict(m, cps);
        let rest = sm_restrict(dl, cps);
        assert forall|i: int| 0 <= i < r.len() implies exists|j: int|
            0 <= j < m.len() && #[trigger] r[i] == m[j] by {
            if i < rest.len() {
                assert(r[i] == rest[i]);
                let j = choose|j: int| 0 <= j < dl.len() && rest[i] == dl[j];
                assert(m[j] == dl[j]);
                assert(r[i] == m[j]);
            } else {
                assert(r[i] == m[m.len() - 1]);
            }
        }
        assert forall|i: int, j: int| 0 <= i < j < r.len() implies r[i].0 < r[j].0 by {
            if j < rest.len() {
                assert(rest[i].0 < rest[j].0);
            } else {
                assert(r[i] == rest[i]);
                let k = choose|k: int| 0 <= k < dl.len() && rest[i] == dl[k];
                assert(m[k].0 < m[m.len() - 1].0);
            }
        }
        assert forall|i: int| 0 <= i < r.len() implies all_known(#[trigger] r[i].1) by {
            let j = choose|j: int| 0 <= j < m.len() && r[i] == m[j];
            assert(all_known(m[j].1));
        }
    }
}

fn vec_u32_contains(v: &Vec<u32>, x: u32) -> (r: bool)
    ensures
        r == v@.contains(x),
{
    let mut i: usize = 0;
    while i < v.len()
        invariant
            i <= v@.len(),
            forall|j: int| 0 <= j < i ==> v@[j] != x,
        decreases v@.len() - i,
    {
        if v[i] == x {
            return true;
        }
        i += 1;
    }
    proof {
        if v@.contains(x) {
            let j = choose|j: int| 0 <= j < v@.len() && v@[j] == x;
            assert(v@[j] == x);
        }
    }
    false
}

/// The resolved font stack: the chosen family names in first-needed order,
/// paired with the support map of the requested codepoints for reporting.
#[derive(Debug)]
pub struct FontStack {
    pub names: Vec<String>,
    pub map: Vec<SupportEntry>,
}

impl FontStack {
    /// The support map has strictly ascending keys and only known variants.
    pub open spec fn wf(&self) -> bool {
        sm_sorted(sm_view(self.map@)) && sm_known(sm_view(self.map@))
    }
}

/// The family names a selection over `cps` yields from support map `m`: the
/// first stored variant of each covered codepoint, prefixed with "Noto ",
/// first-needed order, no duplicates.
pub open spec fn spec_select_names(cps: Seq<u32>, m: Seq<(u32, Seq<Seq<char>>)>) -> Seq<Seq<char>>
    decreases cps.len(),
{
    if cps.len() == 0 {
        Seq::empty()
    } else {
        let pre = spec_select_names(cps.drop_last(), m);
        let c = cps.last();
        if sm_has(m, c) && sm_at(m, c).len() > 0 {
            let fam = "Noto "@ + sm_at(m, c)[0];
            if pre.contains(fam) {
                pre
            } else {
                pre.push(fam)
            }
        } else {
            pre
        }
    }
}

fn support_lookup(entries: &Vec<SupportEntry>, c: u32) -> (r: Option<usize>)
    requires
        sm_sorted(sm_view(entries@)),
    ensures
        match r {
            Option::Some(i) => i < entries@.len() && entries@[i as int].codepoint == c && sm_has(
                sm_view(entries@),
                c,
            ) && sm_at(sm_view(entries@), c) == views_of(entries@[i as int].fonts@),
            Option::None => !sm_has(sm_view(entries@), c),
        },
{
    let mut i: usize = 0;
    while i < entries.len()
        invariant
            i <= entries@.len(),
            sm_sorted(sm_view(entries@)),
            forall|j: int| 0 <= j < i ==> (#[trigger] entries@[j]).codepoint != c,
        decreases entries@.len() - i,
    {
        if entries[i].codepoint == c {
            proof {
                assert(sm_view(entries@)[i as int].0 == c);
                lemma_sm_lookup(sm_view(entries@), i as int);
            }
            return Option::Some(i);
        }
        i += 1;
    }
    proof {
        if sm_has(sm_view(entries@), c) {
            let j = choose|j: int|
                0 <= j < sm_view(entries@).len() && sm_view(entries@)[j].0 == c;
            assert(entries@[j].codepoint == c);
        }
    }
    Option::None
}

impl NotoizeClient {
    /// Chooses, for the codepoints `cps` in order, the first stored variant
    /// of each covered codepoint, accumulating "Noto "-prefixed family names
    /// in first-needed order without duplicates, paired with the support-map
    /// entries of the requested codepoints.
    pub fn select(&self, cps: &Vec<u32>) -> (r: FontStack)
        requires
            self.wf(),
        ensures
            views_of(r.names@) == spec_select_names(cps@, sm_view(self.support@)),
            sm_view(r.map@) == sm_restrict(sm_view(self.support@), cps@),
            r.wf(),
    {
        let mut names: Vec<String> = Vec::new();
        let mut i: usize = 0;
        proof {
            assert(cps@.take(0) =~= Seq::<u32>::empty());
            assert(views_of(names@) =~= spec_select_names(cps@.take(0), sm_view(self.support@)));
        }
        while i < cps.len()
            invariant
                i <= cps@.len(),
                self.wf(),
                views_of(names@) == spec_select_names(cps@.take(i as int), sm_view(self.support@)),
            decreases cps@.len() - i,
        {
            proof {
                assert(cps@.take(i as int + 1).drop_last() =~= cps@.take(i as int));
                assert(cps@.take(i as int + 1).last() == cps@[i as int]);
            }
            let c = cps[i];
            let ghost pre = views_of(names@);
            match support_lookup(&self.support, c) {
                Option::Some(idx) => {
                    if self.support[idx].fonts.len() > 0 {
                        let mut fam = String::from_str("Noto ");
                        fam.append(self.support[idx].fonts[0].as_str());
                        proof {
                            assert(views_of(self.support@[idx as int].fonts@)[0]
                                == self.support@[idx as int].fonts@[0]@);
                            assert(fam@ == "Noto "@ + sm_at(sm_view(self.support@), c)[0]);
                        }
                        if !crate::script::names_contain(names.as_slice(), fam.as_str()) {
                            names.push(fam);
                            proof {
                                assert(views_of(names@) =~= pre.push(
                                    "Noto "@ + sm_at(sm_view(self.support@), c)[0],
                                ));
                            }
                        }
                    } else {
                        proof {
                            assert(sm_at(sm_view(self.support@), c).len() == 0);
                        }
                    }
                },
                Option::None => {},
            }
            i += 1;
        }
        proof {
            assert(cps@.take(i as int) =~= cps@);
        }
        let mut map: Vec<SupportEntry> = Vec::new();
        let mut k: usize = 0;
        proof {
            assert(sm_view(map@) =~= sm_restrict(sm_view(self.support@).take(0), cps@));
        }
        while k < self.support.len()
            invariant
                k <= self.support@.len(),
                self.wf(),
                sm_view(map@) == sm_restrict(sm_view(self.support@).take(k as int), cps@),
            decreases self.support@.len() - k,
        {
            proof {
                assert(sm_view(self.support@).take(k as int + 1).drop_last() =~= sm_view(
                    self.support@,
                ).take(k as int));
                assert(sm_view(self.support@).take(k as int + 1).last() == sm_view(
                    self.support@,
                )[k as int]);
                assert(sm_view(self.support@)[k as int] == self.support@[k as int]@);
            }
            let ghost prev = sm_view(map@);
            if vec_u32_contains(cps, self.support[k].codepoint) {
                map.push(clone_entry(&self.support[k]));
                proof {
                    assert(sm_view(map@) =~= prev.push(self.support@[k as int]@));
                }
            }
            k += 1;
        }
        proof {
            assert(sm_view(self.support@).take(k as int) =~= sm_view(self.support@));
            lemma_restrict_props(sm_view(self.support@), cps@);
        }
        FontStack { names, map }
    }
}

/// The codepoints of a piece of text, ascending and without duplicates.
pub open spec fn cps_of(s: Seq<char>) -> Seq<u32> {
    s.map(|i: int, c: char| c as u32)
}

/// The sorted, de-duplicated codepoints of `text`.
pub fn codepoints_of(text: &str) -> (r: Vec<u32>)
    ensures
        r@ == spec_dedup_u32(spec_sort_u32(cps_of(text@))),
{
    let len = text.unicode_len();
    let mut v: Vec<u32> = Vec::new();
    let mut i: usize = 0;
    proof {
        assert(v@ =~= cps_of(text@.take(0)));
    }
    while i < len
        invariant
            i <= len,
            len == text@.len(),
            v@ == cps_of(text@.take(i as int)),
        decreases len - i,
    {
        let c = text.get_char(i);
        v.push(c as u32);
        proof {
            assert(v@ =~= cps_of(text@.take(i as int + 1)));
        }
        i += 1;
    }
    proof {
        assert(text@.take(i as int) =~= text@);
    }
    sort_dedup_u32(&v)
}

} // verus!
