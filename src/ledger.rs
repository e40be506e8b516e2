//! The mathematical model of a balance table: a sequence of (address, amount)
//! rows with pairwise distinct addresses, read as a map that sends every
//! address without a row to zero.
use vstd::prelude::*;

verus! {

/// Rows of a balance table: an address and the amount it holds.
pub type Rows = Seq<(Seq<u8>, nat)>;

/// No address has two rows.
pub open spec fn keys_unique(s: Rows) -> bool {
    forall|i: int, j: int|
        0 <= i < s.len() && 0 <= j < s.len() && #[trigger] s[i].0 == #[trigger] s[j].0 ==> i == j
}

/// Whether `a` has a row.
pub open spec fn has_row(s: Rows, a: Seq<u8>) -> bool {
    exists|i: int| 0 <= i < s.len() && #[trigger] s[i].0 == a
}

/// The amount that `a` holds: that of its row, or zero where it has none.
pub open spec fn balance_in(s: Rows, a: Seq<u8>) -> nat {
    if has_row(s, a) {
        s[choose|i: int| 0 <= i < s.len() && #[trigger] s[i].0 == a].1
    } else {
        0
    }
}

/// The sum of all amounts in the table.
pub open spec fn sum_of(s: Rows) -> nat
    decreases s.len(),
{
    if s.len() == 0 {
        0
    } else {
        sum_of(s.drop_last()) + s.last().1
    }
}

/// The amount held by the address of row `i` is that row's amount.
pub proof fn lemma_balance_at(s: Rows, i: int)
    requires
        keys_unique(s),
        0 <= i < s.len(),
    ensures
        balance_in(s, s[i].0) == s[i].1,
{
    assert(has_row(s, s[i].0));
}

/// Replacing the amount of row `i` by `v` changes what its address holds to
/// `v`, leaves every other address as it was, and moves the sum accordingly.
pub proof fn lemma_update(s: Rows, i: int, v: nat)
    requires
        keys_unique(s),
        0 <= i < s.len(),
    ensures
        keys_unique(s.update(i, (s[i].0, v))),
        forall|a: Seq<u8>|
            #[trigger] balance_in(s.update(i, (s[i].0, v)), a) == if a == s[i].0 {
                v
            } else {
                balance_in(s, a)
            },
        sum_of(s.update(i, (s[i].0, v))) + s[i].1 == sum_of(s) + v,
{
    let t = s.update(i, (s[i].0, v));
    assert forall|k: int| 0 <= k < t.len() implies #[trigger] t[k].0 == s[k].0 by {}
    assert(keys_unique(t));
    assert forall|a: Seq<u8>| #[trigger] balance_in(t, a) == if a == s[i].0 {
        v
    } else {
        balance_in(s, a)
    } by {
        if a == s[i].0 {
            lemma_balance_at(t, i);
        } else if has_row(s, a) {
            let k = choose|k: int| 0 <= k < s.len() && #[trigger] s[k].0 == a;
            assert(t[k].0 == a);
            lemma_balance_at(t, k);
            lemma_balance_at(s, k);
        } else {
            if has_row(t, a) {
                let k = choose|k: int| 0 <= k < t.len() && #[trigger] t[k].0 == a;
                assert(s[k].0 == a);
            }
        }
    }
    lemma_sum_update(s, i, v);
}

/// Appending a row for an address that has none gives it that row's amount,
/// leaves every other address as it was, and adds the amount to the sum.
pub proof fn lemma_push(s: Rows, a: Seq<u8>, v: nat)
    requires
        keys_unique(s),
        !has_row(s, a),
    ensures
        keys_unique(s.push((a, v))),
        forall|x: Seq<u8>|
            #[trigger] balance_in(s.push((a, v)), x) == if x == a {
                v
            } else {
                balance_in(s, x)
            },
        sum_of(s.push((a, v))) == sum_of(s) + v,
{
    let t = s.push((a, v));
    assert forall|k: int| 0 <= k < s.len() implies #[trigger] t[k] == s[k] by {}
    assert forall|i: int, j: int|
        0 <= i < t.len() && 0 <= j < t.len() && #[trigger] t[i].0 == #[trigger] t[j].0 implies i
        == j by {
        if i < s.len() && j == s.len() {
            assert(s[i].0 == a);
        } else if j < s.len() && i == s.len() {
            assert(s[j].0 == a);
        }
    }
    assert forall|x: Seq<u8>| #[trigger] balance_in(t, x) == if x == a {
        v
    } else {
        balance_in(s, x)
    } by {
        if x == a {
            lemma_balance_at(t, s.len() as int);
        } else if has_row(s, x) {
            let k = choose|k: int| 0 <= k < s.len() && #[trigger] s[k].0 == x;
            assert(t[k].0 == x);
            lemma_balance_at(t, k);
            lemma_balance_at(s, k);
        } else {
            if has_row(t, x) {
                let k = choose|k: int| 0 <= k < t.len() && #[trigger] t[k].0 == x;
                assert(s[k].0 == x);
            }
        }
    }
    assert(t.drop_last() =~= s);
}

/// What one address holds is at most the sum of the table.
pub proof fn lemma_balance_le_sum(s: Rows, a: Seq<u8>)
    requires
        keys_unique(s),
    ensures
        balance_in(s, a) <= sum_of(s),
{
    if has_row(s, a) {
        let i = choose|i: int| 0 <= i < s.len() && #[trigger] s[i].0 == a;
        lemma_balance_at(s, i);
        lemma_row_le_sum(s, i);
    }
}

proof fn lemma_row_le_sum(s: Rows, i: int)
    requires
        0 <= i < s.len(),
    ensures
        s[i].1 <= sum_of(s),
    decreases s.len(),
{
    if i < s.len() - 1 {
        lemma_row_le_sum(s.drop_last(), i);
    }
}

proof fn lemma_sum_update(s: Rows, i: int, v: nat)
    requires
        0 <= i < s.len(),
    ensures
        sum_of(s.update(i, (s[i].0, v))) + s[i].1 == sum_of(s) + v,
    decreases s.len(),
{
    let t = s.update(i, (s[i].0, v));
    if i == s.len() - 1 {
        assert(t.drop_last() =~= s.drop_last());
    } else {
        lemma_sum_update(s.drop_last(), i, v);
        assert(t.drop_last() =~= s.drop_last().update(i, (s[i].0, v)));
    }
}

} // verus!
