//! Facts about sequences of rows that several tables share: rows found by a
//! key, keys that occur once, and what filtering and appending keep.

use vstd::prelude::*;

verus! {

/// The views of a sequence of rows.
pub open spec fn views<T: View>(rows: Seq<T>) -> Seq<T::V> {
    rows.map_values(|t: T| t@)
}

/// The view of a row that may be absent.
pub open spec fn view_of<T: View>(row: Option<T>) -> Option<T::V> {
    match row {
        Some(t) => Some(t@),
        None => None,
    }
}

/// The characters of a string that may be absent.
pub open spec fn text_of(s: Option<String>) -> Option<Seq<char>> {
    match s {
        Some(t) => Some(t@),
        None => None,
    }
}

/// A copy of a string that may be absent.
pub fn clone_text(s: &Option<String>) -> (r: Option<String>)
    ensures
        r == *s,
{
    match s {
        Some(t) => Some(t.clone()),
        None => None,
    }
}

/// Whether `id` occurs in `ids`.
pub fn id_in(ids: &Vec<u128>, id: u128) -> (r: bool)
    ensures
        r == ids@.contains(id),
{
    let mut i: usize = 0;
    while i < ids.len()
        invariant
            i <= ids.len(),
            forall|j: int| 0 <= j < i ==> ids[j] != id,
        decreases ids.len() - i,
    {
        if ids[i] == id {
            return true;
        }
        i += 1;
    }
    false
}

/// Some row has key `k`.
pub open spec fn holds_key<A, K>(rows: Seq<A>, key: spec_fn(A) -> K, k: K) -> bool {
    exists|i: int| 0 <= i < rows.len() && #[trigger] key(rows[i]) == k
}

/// No two rows have the same key.
pub open spec fn distinct_by<A, K>(rows: Seq<A>, key: spec_fn(A) -> K) -> bool {
    forall|i: int, j: int|
        0 <= i < j < rows.len() ==> #[trigger] key(rows[i]) != #[trigger] key(rows[j])
}

/// The row with key `k`, if there is one.
pub open spec fn row_with<A, K>(rows: Seq<A>, key: spec_fn(A) -> K, k: K) -> Option<A> {
    if holds_key(rows, key, k) {
        Some(rows[choose|i: int| 0 <= i < rows.len() && #[trigger] key(rows[i]) == k])
    } else {
        None
    }
}

/// The row found under a key holds that key; no row is found under a key
/// that none holds.
pub proof fn lemma_row_with_holds<A, K>(rows: Seq<A>, key: spec_fn(A) -> K, k: K)
    ensures
        row_with(rows, key, k) is Some <==> holds_key(rows, key, k),
        row_with(rows, key, k) matches Some(row) ==> key(row) == k && rows.contains(row),
{
}

/// Where keys are distinct, a row found under a key is the row with that key.
pub proof fn lemma_row_with_at<A, K>(rows: Seq<A>, key: spec_fn(A) -> K, i: int)
    requires
        distinct_by(rows, key),
        0 <= i < rows.len(),
    ensures
        row_with(rows, key, key(rows[i])) == Some(rows[i]),
        holds_key(rows, key, key(rows[i])),
{
    let k = key(rows[i]);
    let j = choose|j: int| 0 <= j < rows.len() && #[trigger] key(rows[j]) == k;
    if j < i {
        assert(key(rows[j]) != key(rows[i]));
    } else if i < j {
        assert(key(rows[i]) != key(rows[j]));
    }
}

/// Appending a row under a new key keeps keys distinct.
pub proof fn lemma_distinct_push<A, K>(rows: Seq<A>, key: spec_fn(A) -> K, row: A)
    requires
        distinct_by(rows, key),
        !holds_key(rows, key, key(row)),
    ensures
        distinct_by(rows.push(row), key),
{
    let after = rows.push(row);
    assert forall|i: int, j: int| 0 <= i < j < after.len() implies #[trigger] key(after[i])
        != #[trigger] key(after[j]) by {
        assert(after[i] == rows[i]);
        if j < rows.len() {
            assert(after[j] == rows[j]);
        } else {
            assert(key(rows[i]) != key(row));
        }
    }
}

/// A key is held after an append if it was held before or is the new row's.
pub proof fn lemma_holds_key_push<A, K>(rows: Seq<A>, key: spec_fn(A) -> K, row: A, k: K)
    ensures
        holds_key(rows.push(row), key, k) <==> (holds_key(rows, key, k) || key(row) == k),
{
    let after = rows.push(row);
    if holds_key(after, key, k) {
        let i = choose|i: int| 0 <= i < after.len() && #[trigger] key(after[i]) == k;
        if i < rows.len() {
            assert(after[i] == rows[i]);
            assert(key(rows[i]) == k);
        }
    }
    if holds_key(rows, key, k) {
        let i = choose|i: int| 0 <= i < rows.len() && #[trigger] key(rows[i]) == k;
        assert(after[i] == rows[i]);
        assert(key(after[i]) == k);
    }
    if key(row) == k {
        assert(after[rows.len() as int] == row);
        assert(key(after[rows.len() as int]) == k);
    }
}

/// A filtered sequence holds exactly the rows that pass the filter.
pub proof fn lemma_filter_members<A>(rows: Seq<A>, pred: spec_fn(A) -> bool)
    ensures
        forall|i: int|
            0 <= i < rows.filter(pred).len() ==> rows.contains(#[trigger] rows.filter(pred)[i])
                && pred(rows.filter(pred)[i]),
        forall|i: int|
            0 <= i < rows.len() && pred(rows[i]) ==> rows.filter(pred).contains(#[trigger] rows[i]),
    decreases rows.len(),
{
    reveal(Seq::filter);
    if rows.len() > 0 {
        let front = rows.drop_last();
        let kept = rows.filter(pred);
        lemma_filter_members(front, pred);
        assert forall|i: int| 0 <= i < kept.len() implies rows.contains(#[trigger] kept[i])
            && pred(kept[i]) by {
            if i < front.filter(pred).len() {
                assert(kept[i] == front.filter(pred)[i]);
                let j = choose|j: int| 0 <= j < front.len() && front[j] == kept[i];
                assert(rows[j] == kept[i]);
            } else {
                assert(kept[i] == rows.last());
                assert(rows[rows.len() - 1] == kept[i]);
            }
        }
        assert forall|i: int| 0 <= i < rows.len() && pred(rows[i]) implies kept.contains(
            #[trigger] rows[i],
        ) by {
            if i < front.len() {
                assert(front[i] == rows[i]);
                assert(front.filter(pred).contains(front[i]));
                let j = choose|j: int|
                    0 <= j < front.filter(pred).len() && front.filter(pred)[j] == rows[i];
                assert(kept[j] == rows[i]);
            } else {
                assert(kept[kept.len() - 1] == rows[i]);
            }
        }
    }
}

/// Filtering keeps keys distinct.
pub proof fn lemma_distinct_filter<A, K>(
    rows: Seq<A>,
    key: spec_fn(A) -> K,
    pred: spec_fn(A) -> bool,
)
    requires
        distinct_by(rows, key),
    ensures
        distinct_by(rows.filter(pred), key),
    decreases rows.len(),
{
    reveal(Seq::filter);
    if rows.len() > 0 {
        let front = rows.drop_last();
        let kept = rows.filter(pred);
        assert(distinct_by(front, key)) by {
            assert forall|i: int, j: int| 0 <= i < j < front.len() implies #[trigger] key(
                front[i],
            ) != #[trigger] key(front[j]) by {
                assert(front[i] == rows[i] && front[j] == rows[j]);
                assert(key(rows[i]) != key(rows[j]));
            }
        }
        lemma_distinct_filter(front, key, pred);
        lemma_filter_members(front, pred);
        if pred(rows.last()) {
            assert(!holds_key(front.filter(pred), key, key(rows.last()))) by {
                if holds_key(front.filter(pred), key, key(rows.last())) {
                    let i = choose|i: int|
                        0 <= i < front.filter(pred).len() && #[trigger] key(
                            front.filter(pred)[i],
                        ) == key(rows.last());
                    let j = choose|j: int|
                        0 <= j < front.len() && front[j] == front.filter(pred)[i];
                    assert(front[j] == rows[j]);
                    assert(key(rows[j]) != key(rows[rows.len() - 1]));
                }
            }
            lemma_distinct_push(front.filter(pred), key, rows.last());
        }
    }
}

/// A key is held after filtering exactly if a row that passes holds it.
pub proof fn lemma_holds_key_filter<A, K>(
    rows: Seq<A>,
    key: spec_fn(A) -> K,
    pred: spec_fn(A) -> bool,
    k: K,
)
    ensures
        holds_key(rows.filter(pred), key, k) <==> exists|i: int|
            0 <= i < rows.len() && #[trigger] key(rows[i]) == k && pred(rows[i]),
{
    lemma_filter_members(rows, pred);
    let kept = rows.filter(pred);
    if holds_key(kept, key, k) {
        let i = choose|i: int| 0 <= i < kept.len() && #[trigger] key(kept[i]) == k;
        assert(rows.contains(kept[i]));
        let j = choose|j: int| 0 <= j < rows.len() && rows[j] == kept[i];
        assert(key(rows[j]) == k && pred(rows[j]));
    }
    if exists|i: int| 0 <= i < rows.len() && #[trigger] key(rows[i]) == k && pred(rows[i]) {
        let i = choose|i: int| 0 <= i < rows.len() && #[trigger] key(rows[i]) == k && pred(rows[i]);
        assert(kept.contains(rows[i]));
        let j = choose|j: int| 0 <= j < kept.len() && kept[j] == rows[i];
        assert(key(kept[j]) == k);
    }
}

/// A filter that every row passes changes nothing.
pub proof fn lemma_filter_keeps_all<A>(rows: Seq<A>, pred: spec_fn(A) -> bool)
    requires
        forall|i: int| 0 <= i < rows.len() ==> pred(#[trigger] rows[i]),
    ensures
        rows.filter(pred) == rows,
    decreases rows.len(),
{
    reveal(Seq::filter);
    if rows.len() > 0 {
        let front = rows.drop_last();
        assert forall|i: int| 0 <= i < front.len() implies pred(#[trigger] front[i]) by {
            assert(front[i] == rows[i]);
        }
        lemma_filter_keeps_all(front, pred);
        assert(pred(rows[rows.len() - 1]));
        assert(front.push(rows.last()) =~= rows);
    } else {
        assert(rows.filter(pred) =~= rows);
    }
}

/// Where keys are distinct, filtering out a key removes the one row that
/// holds it.
pub proof fn lemma_filter_is_remove<A, K>(
    rows: Seq<A>,
    key: spec_fn(A) -> K,
    pred: spec_fn(A) -> bool,
    at: int,
)
    requires
        distinct_by(rows, key),
        0 <= at < rows.len(),
        forall|a: A| #[trigger] pred(a) <==> key(a) != key(rows[at]),
    ensures
        rows.filter(pred) == rows.remove(at),
    decreases rows.len(),
{
    reveal(Seq::filter);
    let front = rows.drop_last();
    let last = rows.len() - 1;
    if at == last {
        assert forall|i: int| 0 <= i < front.len() implies pred(#[trigger] front[i]) by {
            assert(front[i] == rows[i]);
            assert(key(rows[i]) != key(rows[last]));
        }
        lemma_filter_keeps_all(front, pred);
        assert(!pred(rows.last()));
        assert(front =~= rows.remove(at));
    } else {
        assert(distinct_by(front, key)) by {
            assert forall|i: int, j: int| 0 <= i < j < front.len() implies #[trigger] key(
                front[i],
            ) != #[trigger] key(front[j]) by {
                assert(front[i] == rows[i] && front[j] == rows[j]);
                assert(key(rows[i]) != key(rows[j]));
            }
        }
        assert(front[at] == rows[at]);
        lemma_filter_is_remove(front, key, pred, at);
        assert(key(rows[at]) != key(rows[last]));
        assert(pred(rows.last()));
        assert(front.remove(at).push(rows.last()) =~= rows.remove(at));
    }
}

/// Replacing a row by one with the same key keeps keys distinct and held.
pub proof fn lemma_distinct_update<A, K>(rows: Seq<A>, key: spec_fn(A) -> K, at: int, row: A)
    requires
        distinct_by(rows, key),
        0 <= at < rows.len(),
        key(row) == key(rows[at]),
    ensures
        distinct_by(rows.update(at, row), key),
        forall|k: K| holds_key(rows.update(at, row), key, k) <==> holds_key(rows, key, k),
{
    let after = rows.update(at, row);
    assert forall|i: int, j: int| 0 <= i < j < after.len() implies #[trigger] key(after[i])
        != #[trigger] key(after[j]) by {
        assert(key(after[i]) == key(rows[i]));
        assert(key(after[j]) == key(rows[j]));
    }
    assert forall|k: K| holds_key(after, key, k) <==> holds_key(rows, key, k) by {
        if holds_key(after, key, k) {
            let i = choose|i: int| 0 <= i < after.len() && #[trigger] key(after[i]) == k;
            assert(key(rows[i]) == k);
        }
        if holds_key(rows, key, k) {
            let i = choose|i: int| 0 <= i < rows.len() && #[trigger] key(rows[i]) == k;
            assert(key(after[i]) == k);
        }
    }
}

} // verus!
