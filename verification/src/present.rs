//! What the library decides about presentation: the one-line description of
//! a conversion's source, and the label order in which target options are
//! offered for interactive choice.

use vstd::prelude::*;

use crate::converter::TargetOption;
use crate::result::ConversionResult;
use crate::text::lex_lt;
use vstd::multiset::Multiset;

verus! {

broadcast use {vstd::seq_lib::group_to_multiset_ensures, vstd::multiset::group_multiset_axioms};

/// The one-line description of a conversion's source: platform, title and
/// artist where known, with a fixed word for whatever is missing.
pub open spec fn spec_source_line(result: ConversionResult) -> Seq<char> {
    let platform = match result.source_platform {
        Some(p) => p@,
        None => "Unknown"@,
    };
    match result.source_info {
        Some(info) => {
            let title = match info.title {
                Some(t) => t@,
                None => "Unknown title"@,
            };
            let artist = match info.artist {
                Some(a) => a@,
                None => "Unknown artist"@,
            };
            platform + " - "@ + title + " / "@ + artist
        },
        None => platform,
    }
}

/// Describes a conversion's source in one line.
pub fn format_source_line(result: &ConversionResult) -> (r: String)
    ensures
        r@ == spec_source_line(*result),
{
    let mut line = match &result.source_platform {
        Some(p) => p.clone(),
        None => "Unknown".to_owned(),
    };
    match &result.source_info {
        Some(info) => {
            line.append(" - ");
            match &info.title {
                Some(t) => line.append(t.as_str()),
                None => line.append("Unknown title"),
            }
            line.append(" / ");
            match &info.artist {
                Some(a) => line.append(a.as_str()),
                None => line.append("Unknown artist"),
            }
            line
        },
        None => line,
    }
}

/// Labels never decrease along the sequence.
pub open spec fn sorted_by_label(ts: Seq<TargetOption>) -> bool {
    forall|a: int, b: int|
        0 <= a < b < ts.len() ==> !lex_lt(#[trigger] ts[b].label@, #[trigger] ts[a].label@)
}

/// Reorders target options by display label, keeping exactly the same
/// options, so an interactive menu lists them alphabetically.
pub fn sort_targets_by_label(targets: Vec<TargetOption>) -> (r: Vec<TargetOption>)
    ensures
        sorted_by_label(r@),
        r@.to_multiset() == targets@.to_multiset(),
{
    let mut rest = targets;
    let mut out: Vec<TargetOption> = Vec::new();
    proof {
        assert(out@.to_multiset() =~= Multiset::<TargetOption>::empty());
        assert(out@.to_multiset().add(rest@.to_multiset()) =~= targets@.to_multiset());
    }
    while rest.len() > 0
        invariant
            out@.to_multiset().add(rest@.to_multiset()) == targets@.to_multiset(),
            sorted_by_label(out@),
            forall|a: int, b: int|
                0 <= a < out@.len() && 0 <= b < rest@.len() ==> !lex_lt(
                    #[trigger] rest@[b].label@,
                    #[trigger] out@[a].label@,
                ),
        decreases rest@.len(),
    {
        let n = rest.len();
        let mut m: usize = 0;
        let mut i: usize = 1;
        proof {
            crate::text::lemma_lex_lt_irrefl(rest@[0].label@);
        }
        while i < n
            invariant
                n == rest@.len(),
                m < i <= n,
                forall|j: int|
                    0 <= j < i ==> !lex_lt(#[trigger] rest@[j].label@, rest@[m as int].label@),
            decreases n - i,
        {
            let (a, b) = (&rest[i], &rest[m]);
            if crate::text::str_lt(a.label.as_str(), b.label.as_str()) {
                proof {
                    assert forall|j: int| 0 <= j < i + 1 implies !lex_lt(
                        #[trigger] rest@[j].label@,
                        rest@[i as int].label@,
                    ) by {
                        if j < i && lex_lt(rest@[j].label@, rest@[i as int].label@) {
                            crate::text::lemma_lex_lt_trans(
                                rest@[j].label@,
                                rest@[i as int].label@,
                                rest@[m as int].label@,
                            );
                        }
                        if j == i {
                            crate::text::lemma_lex_lt_irrefl(rest@[i as int].label@);
                        }
                    }
                }
                m = i;
            } else {
                proof {
                    assert forall|j: int| 0 <= j < i + 1 implies !lex_lt(
                        #[trigger] rest@[j].label@,
                        rest@[m as int].label@,
                    ) by {}
                }
            }
            i += 1;
        }
        let ghost old_out = out@;
        let ghost old_rest = rest@;
        let picked = rest.remove(m);
        out.push(picked);
        proof {
            assert(old_rest.contains(picked));
            assert(old_rest.to_multiset().count(picked) > 0);
            assert(old_out.push(picked).to_multiset() =~= old_out.to_multiset().insert(picked));
            assert(old_rest.remove(m as int).to_multiset() =~= old_rest.to_multiset().remove(
                picked,
            ));
            assert(out@.to_multiset() =~= old_out.to_multiset().insert(picked));
            assert(rest@.to_multiset() =~= old_rest.to_multiset().remove(picked));
            assert(out@.to_multiset().add(rest@.to_multiset()) =~= old_out.to_multiset().add(
                old_rest.to_multiset(),
            ));
            assert forall|a: int, b: int|
                0 <= a < out@.len() && 0 <= b < rest@.len() implies !lex_lt(
                #[trigger] rest@[b].label@,
                #[trigger] out@[a].label@,
            ) by {
                let src = if b < m {
                    b
                } else {
                    b + 1
                };
                assert(rest@[b] == old_rest[src]);
                if a < old_out.len() {
                    assert(out@[a] == old_out[a]);
                } else {
                    assert(out@[a] == picked);
                    assert(!lex_lt(old_rest[src].label@, old_rest[m as int].label@));
                }
            }
            assert forall|a: int, b: int| 0 <= a < b < out@.len() implies !lex_lt(
                #[trigger] out@[b].label@,
                #[trigger] out@[a].label@,
            ) by {
                if b == out@.len() - 1 {
                    assert(out@[b] == picked);
                    assert(out@[a] == old_out[a]);
                }
            }
        }
    }
    proof {
        assert(rest@.to_multiset() =~= Multiset::<TargetOption>::empty());
        assert(out@.to_multiset() =~= out@.to_multiset().add(rest@.to_multiset()));
    }
    out
}

} // verus!
