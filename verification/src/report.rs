//! The coverage reporter: renders the support map into the full listing,
//! the script-conflict listing and the missing-sibling listing.

use vstd::prelude::*;
use vstd::string::StringExecFns;
use crate::client::FontStack;
use crate::client::sm_view;
use crate::script::missing_variants;
use crate::script::scripts;
use crate::script::spec_missing_variants;
use crate::script::spec_scripts;
use crate::sortutil::SortKey;
use crate::sortutil::script_key;
use crate::sortutil::script_key_exec;
use crate::sortutil::sort_by_key;
use crate::sortutil::spec_sort;
use crate::strutil::hex04;
use crate::strutil::hex04_of;
use crate::strutil::str_eq;
use crate::strutil::views_of;

verus! {

/// The three coverage reports, each a formatted text block.
#[derive(Debug)]
pub struct MapString {
    pub all: String,
    pub conflicts: String,
    pub missing: String,
}

/// Joins a script-sorted variant list: members of one script by ", ",
/// script groups by a line separator.
pub open spec fn spec_join_groups(s: Seq<Seq<char>>) -> Seq<char>
    decreases s.len(),
{
    if s.len() == 0 {
        Seq::empty()
    } else if s.len() == 1 {
        s[0]
    } else {
        spec_join_groups(s.drop_last()) + (if script_key(s[s.len() - 2]) == script_key(s.last()) {
            ", "@
        } else {
            "\r\n    "@
        }) + s.last()
    }
}

/// The grouped rendering of a support list: sorted by lower-cased script
/// name, then joined group-wise.
pub open spec fn spec_stringify(fonts: Seq<Seq<char>>) -> Seq<char> {
    spec_join_groups(spec_sort(SortKey::ScriptLower, fonts))
}

/// Renders a support list grouped by script.  A name outside the
/// classifier table is a fatal taxonomy gap and is excluded by the
/// precondition.
pub fn render_grouped(fonts: &Vec<String>) -> (r: String)
    requires
        crate::script::all_known(views_of(fonts@)),
    ensures
        r@ == spec_stringify(views_of(fonts@)),
{
    let sorted = sort_by_key(SortKey::ScriptLower, fonts);
    let mut r = String::new();
    let mut i: usize = 0;
    proof {
        assert(views_of(sorted@).take(0) =~= Seq::<Seq<char>>::empty());
        assert(r@ =~= spec_join_groups(views_of(sorted@).take(0)));
    }
    while i < sorted.len()
        invariant
            i <= sorted@.len(),
            views_of(sorted@) == spec_sort(SortKey::ScriptLower, views_of(fonts@)),
            r@ == spec_join_groups(views_of(sorted@).take(i as int)),
        decreases sorted@.len() - i,
    {
        let ghost s = views_of(sorted@);
        proof {
            assert(s.take(i as int + 1).drop_last() =~= s.take(i as int));
            assert(s.take(i as int + 1).last() == sorted@[i as int]@);
        }
        if i == 0 {
            r.append(sorted[0].as_str());
            proof {
                assert(r@ =~= spec_join_groups(s.take(1)));
            }
        } else {
            let kprev = script_key_exec(sorted[i - 1].as_str());
            let kcur = script_key_exec(sorted[i].as_str());
            proof {
                assert(s.take(i as int + 1)[i as int - 1] == sorted@[i as int - 1]@);
            }
            if str_eq(kprev.as_str(), kcur.as_str()) {
                r.append(", ");
            } else {
                r.append("\r\n    ");
            }
            r.append(sorted[i].as_str());
        }
        i += 1;
    }
    proof {
        assert(views_of(sorted@).take(i as int) =~= views_of(sorted@));
    }
    r
}

/// The codepoint is rendered in the full listing: it has support.
pub open spec fn spec_entry_reported(e: (u32, Seq<Seq<char>>)) -> bool {
    e.1.len() > 0
}

/// The codepoint is rendered in the conflict listing: it has support from
/// more than one script.
pub open spec fn spec_entry_conflicted(e: (u32, Seq<Seq<char>>)) -> bool {
    e.1.len() > 0 && spec_scripts(e.1).len() > 1
}

/// The codepoint is rendered in the missing listing: it has support and
/// some sibling variant is missing.
pub open spec fn spec_entry_missing(e: (u32, Seq<Seq<char>>)) -> bool {
    e.1.len() > 0 && spec_missing_variants(e.1).len() > 0
}

/// One rendered line pair of a report.
pub open spec fn spec_render(c: u32, body: Seq<char>) -> Seq<char> {
    hex04(c as int) + "\r\n    "@ + body + "\r\n"@
}

/// The full listing over the support map, ascending codepoints.
pub open spec fn spec_report_all(m: Seq<(u32, Seq<Seq<char>>)>) -> Seq<char>
    decreases m.len(),
{
    if m.len() == 0 {
        Seq::empty()
    } else {
        spec_report_all(m.drop_last()) + (if spec_entry_reported(m.last()) {
            spec_render(m.last().0, spec_stringify(m.last().1))
        } else {
            Seq::empty()
        })
    }
}

/// The conflict listing over the support map.
pub open spec fn spec_report_conflicts(m: Seq<(u32, Seq<Seq<char>>)>) -> Seq<char>
    decreases m.len(),
{
    if m.len() == 0 {
        Seq::empty()
    } else {
        spec_report_conflicts(m.drop_last()) + (if spec_entry_conflicted(m.last()) {
            spec_render(m.last().0, spec_stringify(m.last().1))
        } else {
            Seq::empty()
        })
    }
}

/// The missing-sibling listing over the support map.
pub open spec fn spec_report_missing(m: Seq<(u32, Seq<Seq<char>>)>) -> Seq<char>
    decreases m.len(),
{
    if m.len() == 0 {
        Seq::empty()
    } else {
        spec_report_missing(m.drop_last()) + (if spec_entry_missing(m.last()) {
            spec_render(m.last().0, spec_stringify(spec_missing_variants(m.last().1)))
        } else {
            Seq::empty()
        })
    }
}

impl FontStack {
    /// Derives the three reports from the support map, in ascending
    /// codepoint order: the full grouped listing, the codepoints whose
    /// variants span several scripts, and the codepoints with missing
    /// sibling variants.
    pub fn map_string(self) -> (r: MapString)
        requires
            self.wf(),
        ensures
            r.all@ == spec_report_all(sm_view(self.map@)),
            r.conflicts@ == spec_report_conflicts(sm_view(self.map@)),
            r.missing@ == spec_report_missing(sm_view(self.map@)),
    {
        let mut all = String::new();
        let mut conflicts = String::new();
        let mut missing = String::new();
        let mut i: usize = 0;
        let ghost m = sm_view(self.map@);
        proof {
            assert(m.take(0) =~= Seq::<(u32, Seq<Seq<char>>)>::empty());
            assert(all@ =~= spec_report_all(m.take(0)));
            assert(conflicts@ =~= spec_report_conflicts(m.take(0)));
            assert(missing@ =~= spec_report_missing(m.take(0)));
        }
        while i < self.map.len()
            invariant
                i <= self.map@.len(),
                self.wf(),
                m == sm_view(self.map@),
                all@ == spec_report_all(m.take(i as int)),
                conflicts@ == spec_report_conflicts(m.take(i as int)),
                missing@ == spec_report_missing(m.take(i as int)),
            decreases self.map@.len() - i,
        {
            proof {
                assert(m.take(i as int + 1).drop_last() =~= m.take(i as int));
                assert(m.take(i as int + 1).last() == m[i as int]);
                assert(m[i as int] == self.map@[i as int]@);
            }
            let e = &self.map[i];
            if e.fonts.len() > 0 {
                proof {
                    assert(all_known_entry(m, i as int));
                }
                let hexs = hex04_of(e.codepoint);
                let fonts_str = render_grouped(&e.fonts);
                let ghost pre_all = all@;
                all.append(hexs.as_str());
                all.append("\r\n    ");
                all.append(fonts_str.as_str());
                all.append("\r\n");
                proof {
                    assert(all@ =~= pre_all + spec_render(m[i as int].0, spec_stringify(
                        m[i as int].1,
                    )));
                }
                let scr = scripts(e.fonts.as_slice());
                if scr.len() > 1 {
                    let ghost pre_c = conflicts@;
                    conflicts.append(hexs.as_str());
                    conflicts.append("\r\n    ");
                    conflicts.append(fonts_str.as_str());
                    conflicts.append("\r\n");
                    proof {
                        assert(conflicts@ =~= pre_c + spec_render(m[i as int].0, spec_stringify(
                            m[i as int].1,
                        )));
                    }
                }
                let bad = missing_variants(e.fonts.as_slice());
                if bad.len() > 0 {
                    proof {
                        crate::script::lemma_missing_all_known(m[i as int].1);
                    }
                    let bad_str = render_grouped(&bad);
                    let ghost pre_m = missing@;
                    missing.append(hexs.as_str());
                    missing.append("\r\n    ");
                    missing.append(bad_str.as_str());
                    missing.append("\r\n");
                    proof {
                        assert(missing@ =~= pre_m + spec_render(m[i as int].0, spec_stringify(
                            spec_missing_variants(m[i as int].1),
                        )));
                    }
                }
            }
            i += 1;
        }
        proof {
            assert(m.take(i as int) =~= m);
        }
        MapString { all, conflicts, missing }
    }
}

/// The variants of entry `i` are all known.
pub open spec fn all_known_entry(m: Seq<(u32, Seq<Seq<char>>)>, i: int) -> bool {
    0 <= i < m.len() && crate::script::all_known(m[i].1)
}

} // verus!
