//! Which rule wins: what the order of a sorted rule list means for the
//! variant that is picked.

use crate::hangul::{syllable_offset, valid_triple};
use crate::workspace::{
    all_ranked, comes_before, is_first_match, is_stable_sort, lemma_resolve_first_match,
    matched_below, matching_triples, pattern_matches, resolve, sorted_by_priority, specificity,
    Condition, ConditionEntry,
};
use vstd::prelude::*;
use vstd::set_lib::{lemma_int_range, lemma_subset_equality, set_int_range};

verus! {

/// A picked variant is the variant of a rule of the list whose condition
/// holds of the triple, and nothing is picked for a triple outside the tables.
pub proof fn lemma_resolved_variant_matches(
    rules: Seq<ConditionEntry>,
    ini: int,
    mid: int,
    fin: int,
)
    ensures
        resolve(rules, ini, mid, fin) matches Some(v) ==> exists|i: int|
            0 <= i < rules.len() && (#[trigger] rules[i]).condition.spec_matches(ini, mid, fin)
                && rules[i].variant == Some(v),
        !valid_triple(ini, mid, fin) ==> resolve(rules, ini, mid, fin) is None,
{
    if exists|i: int| is_first_match(rules, i, ini, mid, fin) {
        let k = choose|k: int| is_first_match(rules, k, ini, mid, fin);
        assert(rules[k].condition.spec_matches(ini, mid, fin));
    }
}

/// An empty rule list picks nothing.
pub proof fn lemma_resolve_empty(ini: int, mid: int, fin: int)
    ensures
        resolve(Seq::<ConditionEntry>::empty(), ini, mid, fin) is None,
{
    lemma_resolved_variant_matches(Seq::<ConditionEntry>::empty(), ini, mid, fin);
}

proof fn lemma_matched_below_finite(pattern: Seq<char>, k: int)
    requires
        0 <= k,
    ensures
        matched_below(pattern, k).finite(),
        matched_below(pattern, k).len() <= k,
    decreases k,
{
    if k == 0 {
        assert(matched_below(pattern, 0) =~= Set::empty());
    } else {
        lemma_matched_below_finite(pattern, k - 1);
        let q = k - 1;
        let t = (q / 588, (q % 588) / 28, q % 28);
        let smaller = matched_below(pattern, k - 1);
        let grown = smaller.insert(t);
        assert(matched_below(pattern, k).subset_of(grown)) by {
            assert forall|u: (int, int, int)| matched_below(pattern, k).contains(u) implies grown.contains(
                u,
            ) by {
                if syllable_offset(u.0, u.1, u.2) == q {
                    assert(u.0 == t.0 && u.1 == t.1 && u.2 == t.2);
                }
            }
        }
        vstd::set_lib::lemma_len_subset(matched_below(pattern, k), grown);
    }
}

/// A pattern matches finitely many triples, at most all 11172, and a pattern
/// of specificity 0 matches none.
pub proof fn lemma_specificity_bounds(pattern: Seq<char>)
    ensures
        matching_triples(pattern).finite(),
        specificity(pattern) <= 11172,
        specificity(pattern) == 0 <==> forall|ini: int, mid: int, fin: int|
            !pattern_matches(pattern, ini, mid, fin),
{
    lemma_matched_below_finite(pattern, 11172);
    assert(matched_below(pattern, 11172) =~= matching_triples(pattern));
    if specificity(pattern) == 0 {
        assert forall|ini: int, mid: int, fin: int| !pattern_matches(pattern, ini, mid, fin) by {
            if pattern_matches(pattern, ini, mid, fin) {
                assert(matching_triples(pattern).contains((ini, mid, fin)));
            }
        }
    }
    if forall|ini: int, mid: int, fin: int| !pattern_matches(pattern, ini, mid, fin) {
        assert(matching_triples(pattern) =~= Set::empty());
    }
}

/// Sorting keeps every rule and its rank, and leaves the priorities rising.
pub proof fn lemma_stable_sort_is_sorted(
    perm: Seq<int>,
    source: Seq<ConditionEntry>,
    sorted: Seq<ConditionEntry>,
)
    requires
        is_stable_sort(perm, source, sorted),
    ensures
        sorted_by_priority(sorted),
        all_ranked(source) ==> all_ranked(sorted),
{
    assert forall|i: int, j: int| 0 <= i < j < sorted.len() implies (#[trigger] sorted[i]).priority
        <= (#[trigger] sorted[j]).priority by {
        assert(comes_before(source, perm[i], perm[j]));
    }
    if all_ranked(source) {
        assert forall|i: int| 0 <= i < sorted.len() implies (#[trigger] sorted[i]).ranked() by {
            assert(source[perm[i]].ranked());
        }
    }
}

/// Every rule of the source list has a place in the sorted list.
pub proof fn lemma_stable_sort_place(
    perm: Seq<int>,
    source: Seq<ConditionEntry>,
    sorted: Seq<ConditionEntry>,
    a: int,
) -> (i: int)
    requires
        is_stable_sort(perm, source, sorted),
        0 <= a < source.len(),
    ensures
        0 <= i < sorted.len(),
        perm[i] == a,
        sorted[i] == source[a],
{
    let n = source.len() as int;
    assert(perm.no_duplicates()) by {
        assert forall|i: int, j: int| 0 <= i < perm.len() && 0 <= j < perm.len() && i != j implies perm[i]
            != perm[j] by {
            if i < j {
                assert(comes_before(source, perm[i], perm[j]));
            } else {
                assert(comes_before(source, perm[j], perm[i]));
            }
        }
    }
    perm.unique_seq_to_set();
    lemma_int_range(0, n);
    assert(perm.to_set().subset_of(set_int_range(0, n))) by {
        assert forall|v: int| perm.to_set().contains(v) implies set_int_range(0, n).contains(v) by {
            let i = choose|i: int| 0 <= i < perm.len() && perm[i] == v;
            assert(0 <= perm[i] < n);
        }
    }
    vstd::seq_lib::seq_to_set_is_finite(perm);
    lemma_subset_equality(perm.to_set(), set_int_range(0, n));
    assert(set_int_range(0, n).contains(a));
    assert(perm.to_set().contains(a));
    let i = choose|i: int| 0 <= i < perm.len() && perm[i] == a;
    i
}

/// Specificity decides, and declaration order breaks ties: where rule `a` of
/// the source list matches a triple and comes before every other rule that
/// matches it, the sorted list picks the variant of `a`.
pub proof fn lemma_most_specific_wins(
    perm: Seq<int>,
    source: Seq<ConditionEntry>,
    sorted: Seq<ConditionEntry>,
    a: int,
    ini: int,
    mid: int,
    fin: int,
)
    requires
        is_stable_sort(perm, source, sorted),
        0 <= a < source.len(),
        source[a].condition.spec_matches(ini, mid, fin),
        forall|b: int|
            0 <= b < source.len() && b != a && (#[trigger] source[b]).condition.spec_matches(
                ini,
                mid,
                fin,
            ) ==> comes_before(source, a, b),
    ensures
        resolve(sorted, ini, mid, fin) == source[a].variant,
{
    let i = lemma_stable_sort_place(perm, source, sorted, a);
    assert forall|j: int| 0 <= j < i implies !(#[trigger] sorted[j]).condition.spec_matches(
        ini,
        mid,
        fin,
    ) by {
        let b = perm[j];
        assert(comes_before(source, perm[j], perm[i]));
        assert(sorted[j] == source[b]);
        if source[b].condition.spec_matches(ini, mid, fin) {
            assert(comes_before(source, a, b));
        }
    }
    lemma_resolve_first_match(sorted, i, ini, mid, fin);
}

/// Of two matching rules of one priority the later declared never decides:
/// the rule that the sorted list picks from is not `b` when an earlier rule
/// `a` of the same priority matches too.
pub proof fn lemma_earlier_rule_wins_tie(
    perm: Seq<int>,
    source: Seq<ConditionEntry>,
    sorted: Seq<ConditionEntry>,
    a: int,
    b: int,
    i: int,
    ini: int,
    mid: int,
    fin: int,
)
    requires
        is_stable_sort(perm, source, sorted),
        0 <= a < b < source.len(),
        source[a].priority == source[b].priority,
        source[a].condition.spec_matches(ini, mid, fin),
        is_first_match(sorted, i, ini, mid, fin),
    ensures
        perm[i] != b,
{
    let ia = lemma_stable_sort_place(perm, source, sorted, a);
    if perm[i] == b {
        if i < ia {
            assert(comes_before(source, perm[i], perm[ia]));
        } else if ia < i {
            assert(sorted[ia].condition.spec_matches(ini, mid, fin));
        }
    }
}

/// Specificity strictly decides: in a sorted list the rule that is picked
/// from is never less specific than another rule that matches the triple.
pub proof fn lemma_picked_rule_is_most_specific(
    rules: Seq<ConditionEntry>,
    i: int,
    j: int,
    ini: int,
    mid: int,
    fin: int,
)
    requires
        sorted_by_priority(rules),
        is_first_match(rules, i, ini, mid, fin),
        0 <= j < rules.len(),
        rules[j].condition.spec_matches(ini, mid, fin),
    ensures
        i <= j,
        rules[i].priority <= rules[j].priority,
{
}

/// A rule that always applies has priority 0, so in a ranked and sorted list
/// only rules that match nothing stand before the first of them: it decides
/// for every triple.
pub proof fn lemma_always_decides(
    rules: Seq<ConditionEntry>,
    i: int,
    ini: int,
    mid: int,
    fin: int,
)
    requires
        all_ranked(rules),
        sorted_by_priority(rules),
        0 <= i < rules.len(),
        rules[i].condition is Always,
        forall|j: int| 0 <= j < i ==> !((#[trigger] rules[j]).condition is Always),
        valid_triple(ini, mid, fin),
    ensures
        resolve(rules, ini, mid, fin) == rules[i].variant,
{
    assert(rules[i].ranked());
    assert forall|j: int| 0 <= j < i implies !(#[trigger] rules[j]).condition.spec_matches(
        ini,
        mid,
        fin,
    ) by {
        assert(rules[j].ranked());
        assert(rules[j].priority <= rules[i].priority);
        match rules[j].condition {
            Condition::Regex(p) => {
                lemma_specificity_bounds(p@);
            },
            Condition::Always => {},
        }
    }
    lemma_resolve_first_match(rules, i, ini, mid, fin);
}

} // verus!
