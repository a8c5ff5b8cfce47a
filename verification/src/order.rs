//! Facts about the order of strings and about decimal numerals, used by the
//! status tables that keep their records sorted by id.

use vstd::prelude::*;
use crate::text::{decimal, digit_char, seq_lt};

verus! {

pub proof fn lemma_seq_lt_irreflexive(a: Seq<char>)
    ensures
        !seq_lt(a, a),
    decreases a.len(),
{
    if a.len() > 0 {
        lemma_seq_lt_irreflexive(a.drop_first());
    }
}

pub proof fn lemma_seq_lt_total(a: Seq<char>, b: Seq<char>)
    ensures
        a == b || seq_lt(a, b) || seq_lt(b, a),
    decreases a.len(),
{
    if a.len() > 0 && b.len() > 0 && a[0] == b[0] {
        lemma_seq_lt_total(a.drop_first(), b.drop_first());
        if a.drop_first() == b.drop_first() {
            assert(a =~= seq![a[0]] + a.drop_first());
            assert(b =~= seq![b[0]] + b.drop_first());
        }
    } else if a.len() == 0 && b.len() == 0 {
        assert(a =~= b);
    } else if a.len() > 0 && b.len() > 0 {

    }
}

pub proof fn lemma_seq_lt_asymmetric(a: Seq<char>, b: Seq<char>)
    ensures
        !(seq_lt(a, b) && seq_lt(b, a)),
    decreases a.len(),
{
    if a.len() > 0 && b.len() > 0 && a[0] == b[0] {
        lemma_seq_lt_asymmetric(a.drop_first(), b.drop_first());
    }
}

pub proof fn lemma_seq_lt_transitive(a: Seq<char>, b: Seq<char>, c: Seq<char>)
    requires
        seq_lt(a, b),
        seq_lt(b, c),
    ensures
        seq_lt(a, c),
    decreases a.len(),
{
    if a.len() > 0 && b.len() > 0 && c.len() > 0 && a[0] == b[0] && b[0] == c[0] {
        lemma_seq_lt_transitive(a.drop_first(), b.drop_first(), c.drop_first());
    }
}

/// `ids` is strictly increasing, hence without repetition.
pub open spec fn sorted_ids(ids: Seq<Seq<char>>) -> bool {
    forall|i: int, j: int| 0 <= i < j < ids.len() ==> seq_lt(#[trigger] ids[i], #[trigger] ids[j])
}

/// In a strictly increasing sequence, equal entries sit at equal indices.
pub proof fn lemma_sorted_ids_unique(ids: Seq<Seq<char>>, i: int, j: int)
    requires
        sorted_ids(ids),
        0 <= i < ids.len(),
        0 <= j < ids.len(),
        ids[i] == ids[j],
    ensures
        i == j,
{
    if i < j {
        lemma_seq_lt_irreflexive(ids[i]);
    } else if j < i {
        lemma_seq_lt_irreflexive(ids[i]);
    }
}

/// Inserting an absent id before the first larger one keeps the order.
pub proof fn lemma_sorted_insert(ids: Seq<Seq<char>>, x: Seq<char>, p: int)
    requires
        sorted_ids(ids),
        0 <= p <= ids.len(),
        forall|j: int| 0 <= j < ids.len() ==> ids[j] != x,
        forall|j: int| 0 <= j < p ==> !seq_lt(x, #[trigger] ids[j]),
        p < ids.len() ==> seq_lt(x, ids[p]),
    ensures
        sorted_ids(ids.insert(p, x)),
{
    let r = ids.insert(p, x);
    assert forall|j: int| 0 <= j < p implies seq_lt(#[trigger] ids[j], x) by {
        lemma_seq_lt_total(ids[j], x);
    }
    assert forall|j: int| p <= j < ids.len() implies seq_lt(x, #[trigger] ids[j]) by {
        if j > p {
            lemma_seq_lt_transitive(x, ids[p], ids[j]);
        }
    }
    assert forall|i: int, j: int| 0 <= i < j < r.len() implies seq_lt(#[trigger] r[i], #[trigger] r[j]) by {
        if j < p {
        } else if j == p {
            assert(r[i] == ids[i]);
        } else if i < p {
            assert(r[i] == ids[i]);
            assert(r[j] == ids[j - 1]);
            lemma_seq_lt_transitive(ids[i], x, ids[j - 1]);
        } else if i == p {
            assert(r[j] == ids[j - 1]);
        } else {
            assert(r[i] == ids[i - 1]);
            assert(r[j] == ids[j - 1]);
        }
    }
}

pub proof fn lemma_decimal_len(n: nat)
    ensures
        decimal(n).len() >= 1,
        n >= 10 ==> decimal(n).len() >= 2,
    decreases n,
{
    if n >= 10 {
        lemma_decimal_len(n / 10);
    }
}

proof fn lemma_digit_injective(a: int, b: int)
    requires
        0 <= a < 10,
        0 <= b < 10,
        digit_char(a) == digit_char(b),
    ensures
        a == b,
{
}

/// Distinct numbers have distinct decimal numerals.
pub proof fn lemma_decimal_injective(a: nat, b: nat)
    requires
        decimal(a) == decimal(b),
    ensures
        a == b,
    decreases a,
{
    lemma_decimal_len(a);
    lemma_decimal_len(b);
    if a < 10 && b < 10 {
        assert(decimal(a)[0] == digit_char(a as int));
        assert(decimal(b)[0] == digit_char(b as int));
        lemma_digit_injective(a as int, b as int);
    } else if a >= 10 && b >= 10 {
        assert(decimal(a).last() == digit_char((a % 10) as int));
        assert(decimal(b).last() == digit_char((b % 10) as int));
        lemma_digit_injective((a % 10) as int, (b % 10) as int);
        assert(decimal(a).drop_last() =~= decimal(a / 10));
        assert(decimal(b).drop_last() =~= decimal(b / 10));
        lemma_decimal_injective(a / 10, b / 10);
    }
}

/// Equal prefixes followed by distinct numerals give distinct strings.
pub proof fn lemma_prefixed_decimal_injective(prefix: Seq<char>, a: nat, b: nat)
    requires
        prefix + decimal(a) == prefix + decimal(b),
    ensures
        a == b,
{
    assert((prefix + decimal(a)).skip(prefix.len() as int) =~= decimal(a));
    assert((prefix + decimal(b)).skip(prefix.len() as int) =~= decimal(b));
    lemma_decimal_injective(a, b);
}


/// Index of the first entry at or after `i` equal to `id`.
pub open spec fn index_of_id_from(ids: Seq<Seq<char>>, id: Seq<char>, i: int) -> Option<int>
    decreases ids.len() - i,
{
    if i < 0 || i >= ids.len() {
        None
    } else if ids[i] == id {
        Some(i)
    } else {
        index_of_id_from(ids, id, i + 1)
    }
}

/// Index of the entry equal to `id`, if any.
pub open spec fn index_of_id(ids: Seq<Seq<char>>, id: Seq<char>) -> Option<int> {
    index_of_id_from(ids, id, 0)
}

proof fn lemma_index_of_id_from(ids: Seq<Seq<char>>, id: Seq<char>, i: int)
    requires
        0 <= i <= ids.len(),
    ensures
        match index_of_id_from(ids, id, i) {
            Some(k) => i <= k < ids.len() && ids[k] == id && forall|j: int| i <= j < k ==> ids[j] != id,
            None => forall|j: int| i <= j < ids.len() ==> ids[j] != id,
        },
    decreases ids.len() - i,
{
    if i < ids.len() && ids[i] != id {
        lemma_index_of_id_from(ids, id, i + 1);
    }
}

/// What `index_of_id` means.
pub proof fn lemma_index_of_id(ids: Seq<Seq<char>>, id: Seq<char>)
    ensures
        match index_of_id(ids, id) {
            Some(k) => 0 <= k < ids.len() && ids[k] == id && forall|j: int| 0 <= j < k ==> ids[j] != id,
            None => forall|j: int| 0 <= j < ids.len() ==> ids[j] != id,
        },
{
    lemma_index_of_id_from(ids, id, 0);
}

/// In a sorted sequence, the entry at `k` is the one found under its id.
pub proof fn lemma_index_of_sorted(ids: Seq<Seq<char>>, k: int)
    requires
        sorted_ids(ids),
        0 <= k < ids.len(),
    ensures
        index_of_id(ids, ids[k]) == Some(k),
{
    lemma_index_of_id(ids, ids[k]);
    let r = index_of_id(ids, ids[k]);
    if r is None {
        assert(ids[k] != ids[k]);
    } else {
        lemma_sorted_ids_unique(ids, r->0, k);
    }
}

} // verus!
