//! The rule that keeps session names unique: the first holder of a name keeps
//! it bare, later ones get `(2)`, `(3)`, ... appended.

use crate::text::{decimal, decimal_text, lemma_decimal_injective, lemma_decimal_value};
use vstd::string::StringExecFns;
use vstd::prelude::*;

verus! {

/// `base` followed by `k` in decimal between round brackets.
pub open spec fn suffixed(base: Seq<char>, k: nat) -> Seq<char> {
    base + seq!['('] + decimal(k) + seq![')']
}

/// The `k`-th name tried for `base`: the bare name first, then `base(2)`, `base(3)`, ...
pub open spec fn candidate(base: Seq<char>, k: nat) -> Seq<char> {
    if k <= 1 {
        base
    } else {
        suffixed(base, k)
    }
}

/// The first `k` at or after `from` whose candidate is not among `names`,
/// giving up after `budget` occupied candidates.
pub open spec fn first_free(names: Seq<Seq<char>>, base: Seq<char>, from: nat, budget: nat) -> nat
    decreases budget,
{
    if budget == 0 || !names.contains(candidate(base, from)) {
        from
    } else {
        first_free(names, base, from + 1, (budget - 1) as nat)
    }
}

/// How many names for `base` are tried before one is free among `names`,
/// the free one included.
pub open spec fn rank(names: Seq<Seq<char>>, base: Seq<char>) -> nat {
    first_free(names, base, 1, names.len())
}

/// The name under which `base` is registered next to `names`.
pub open spec fn unique_name(names: Seq<Seq<char>>, base: Seq<char>) -> Seq<char> {
    candidate(base, rank(names, base))
}

/// No two entries of `names` are equal.
pub open spec fn distinct(names: Seq<Seq<char>>) -> bool {
    forall|i: int, j: int| 0 <= i < j < names.len() ==> names[i] != names[j]
}

/// Different counters give different candidates.
pub proof fn lemma_candidate_injective(base: Seq<char>, j: nat, k: nat)
    requires
        1 <= j,
        1 <= k,
        candidate(base, j) == candidate(base, k),
    ensures
        j == k,
{
    lemma_decimal_value(j);
    lemma_decimal_value(k);
    if j >= 2 && k >= 2 {
        let a = suffixed(base, j);
        let b = suffixed(base, k);
        let dj = decimal(j);
        let dk = decimal(k);
        assert(a.len() == base.len() + dj.len() + 2);
        assert(b.len() == base.len() + dk.len() + 2);
        assert forall|i: int| 0 <= i < dj.len() implies dj[i] == dk[i] by {
            assert(a[base.len() + 1 + i] == dj[i]);
            assert(b[base.len() + 1 + i] == dk[i]);
        }
        assert(dj =~= dk);
        lemma_decimal_injective(j, k);
    } else if j >= 2 {
        assert(suffixed(base, j).len() == base.len() + decimal(j).len() + 2);
    } else if k >= 2 {
        assert(suffixed(base, k).len() == base.len() + decimal(k).len() + 2);
    }
}

/// If the first `k` candidates for `base` all occur in `names`, then `names`
/// has at least `k` entries.
pub proof fn lemma_occupied_run_bounded(names: Seq<Seq<char>>, base: Seq<char>, k: nat)
    requires
        forall|j: nat| 1 <= j <= k ==> names.contains(#[trigger] candidate(base, j)),
    ensures
        k <= names.len(),
    decreases k,
{
    if k > 0 {
        let last = candidate(base, k);
        assert(names.contains(last));
        let at = choose|i: int| 0 <= i < names.len() && names[i] == last;
        let rest = names.remove(at);
        assert forall|j: nat| 1 <= j <= (k - 1) as nat implies rest.contains(
            #[trigger] candidate(base, j),
        ) by {
            let other = candidate(base, j);
            assert(names.contains(other));
            let pos = choose|i: int| 0 <= i < names.len() && names[i] == other;
            if other == last {
                lemma_candidate_injective(base, j, k);
            }
            if pos < at {
                assert(rest[pos] == other);
            } else {
                assert(rest[pos - 1] == other);
            }
        }
        lemma_occupied_run_bounded(rest, base, (k - 1) as nat);
    }
}

proof fn lemma_first_free_from(names: Seq<Seq<char>>, base: Seq<char>, from: nat, budget: nat)
    requires
        1 <= from,
        from + budget == names.len() + 1,
        forall|j: nat| 1 <= j < from ==> names.contains(#[trigger] candidate(base, j)),
    ensures
        from <= first_free(names, base, from, budget) <= names.len() + 1,
        !names.contains(candidate(base, first_free(names, base, from, budget))),
        forall|j: nat|
            1 <= j < first_free(names, base, from, budget) ==> names.contains(
                #[trigger] candidate(base, j),
            ),
    decreases budget,
{
    if names.contains(candidate(base, from)) {
        if budget == 0 {
            assert forall|j: nat| 1 <= j <= from implies names.contains(
                #[trigger] candidate(base, j),
            ) by {}
            lemma_occupied_run_bounded(names, base, from);
        } else {
            lemma_first_free_from(names, base, from + 1, (budget - 1) as nat);
        }
    }
}

/// The rank of `base` is the least counter whose candidate is free, and it is
/// at most one more than the number of names.
pub proof fn lemma_rank(names: Seq<Seq<char>>, base: Seq<char>)
    ensures
        1 <= rank(names, base) <= names.len() + 1,
        !names.contains(unique_name(names, base)),
        forall|j: nat| 1 <= j < rank(names, base) ==> names.contains(#[trigger] candidate(base, j)),
{
    lemma_first_free_from(names, base, 1, names.len());
}

/// A free candidate below which every candidate is occupied is the one chosen.
pub proof fn lemma_rank_is(names: Seq<Seq<char>>, base: Seq<char>, k: nat)
    requires
        1 <= k,
        !names.contains(candidate(base, k)),
        forall|j: nat| 1 <= j < k ==> names.contains(#[trigger] candidate(base, j)),
    ensures
        rank(names, base) == k,
        unique_name(names, base) == candidate(base, k),
{
    lemma_rank(names, base);
    let r = rank(names, base);
    if r < k {
        assert(names.contains(candidate(base, r)));
    } else if k < r {
        assert(names.contains(candidate(base, k)));
    }
}

/// A name that nobody holds is registered as it is.
pub proof fn lemma_unused_name_is_kept(names: Seq<Seq<char>>, base: Seq<char>)
    requires
        !names.contains(base),
    ensures
        unique_name(names, base) == base,
{
    lemma_rank_is(names, base, 1);
}

/// Registering under the chosen name keeps a list of distinct names distinct.
pub proof fn lemma_unique_name_keeps_distinct(names: Seq<Seq<char>>, base: Seq<char>)
    requires
        distinct(names),
    ensures
        distinct(names.push(unique_name(names, base))),
{
    lemma_rank(names, base);
    let chosen = unique_name(names, base);
    let grown = names.push(chosen);
    assert forall|i: int, j: int| 0 <= i < j < grown.len() implies grown[i] != grown[j] by {
        if j == names.len() {
            if grown[i] == chosen {
                assert(names[i] == chosen);
                assert(names.contains(chosen));
            }
        } else {
            assert(grown[i] == names[i]);
            assert(grown[j] == names[j]);
        }
    }
}

/// Writes `base` followed by `counter` in decimal between round brackets.
pub fn suffixed_name(base: &String, counter: u128) -> (name: String)
    ensures
        name@ == suffixed(base@, counter as nat),
{
    let mut name = base.clone();
    name.append("(");
    let digits = decimal_text(counter);
    name.append(digits.as_str());
    name.append(")");
    proof {
        reveal_strlit("(");
        reveal_strlit(")");
        assert("("@ =~= seq!['(']);
        assert(")"@ =~= seq![')']);
        assert(name@ =~= suffixed(base@, counter as nat));
    }
    name
}

} // verus!
