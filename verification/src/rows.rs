//! Tables as sequences of rows that are found by a key, and what looking a
//! key up gives after a row was added, replaced or taken out.

use vstd::prelude::*;

verus! {

/// Row `i` bears the key.
pub open spec fn row_at<T, K>(rows: Seq<T>, key_of: spec_fn(T) -> K, key: K, i: int) -> bool {
    0 <= i < rows.len() && key_of(rows[i]) == key
}

/// Some row bears the key.
pub open spec fn has_row<T, K>(rows: Seq<T>, key_of: spec_fn(T) -> K, key: K) -> bool {
    exists|i: int| row_at(rows, key_of, key, i)
}

/// The row that bears the key.
pub open spec fn find_row<T, K>(rows: Seq<T>, key_of: spec_fn(T) -> K, key: K) -> Option<T> {
    if has_row(rows, key_of, key) {
        Some(rows[choose|i: int| row_at(rows, key_of, key, i)])
    } else {
        None
    }
}

/// No two rows bear one key.
pub open spec fn unique_rows<T, K>(rows: Seq<T>, key_of: spec_fn(T) -> K) -> bool {
    forall|i: int, j: int|
        0 <= i < rows.len() && 0 <= j < rows.len() && key_of(#[trigger] rows[i]) == key_of(
            #[trigger] rows[j],
        ) ==> i == j
}

/// In a table with unique keys, a row that bears a key is the row found
/// under it.
pub proof fn lemma_found<T, K>(rows: Seq<T>, key_of: spec_fn(T) -> K, key: K, i: int)
    requires
        unique_rows(rows, key_of),
        row_at(rows, key_of, key, i),
    ensures
        find_row(rows, key_of, key) == Some(rows[i]),
{
    let j = choose|j: int| row_at(rows, key_of, key, j);
    assert(key_of(rows[i]) == key_of(rows[j]));
}

/// A row found under a key stands in the table and bears the key.
pub proof fn lemma_find_is_row<T, K>(rows: Seq<T>, key_of: spec_fn(T) -> K, key: K) -> (i: int)
    requires
        find_row(rows, key_of, key) is Some,
    ensures
        row_at(rows, key_of, key, i),
        find_row(rows, key_of, key) == Some(rows[i]),
{
    choose|i: int| row_at(rows, key_of, key, i)
}

/// A row under a key that the table did not hold: it is found under that
/// key, and every other key gives what it gave.
pub proof fn lemma_push<T, K>(rows: Seq<T>, key_of: spec_fn(T) -> K, x: T)
    requires
        unique_rows(rows, key_of),
        !has_row(rows, key_of, key_of(x)),
    ensures
        unique_rows(rows.push(x), key_of),
        forall|key: K| #[trigger]
            find_row(rows.push(x), key_of, key) == if key == key_of(x) {
                Some(x)
            } else {
                find_row(rows, key_of, key)
            },
{
    let after = rows.push(x);
    assert forall|i: int, j: int|
        0 <= i < after.len() && 0 <= j < after.len() && key_of(#[trigger] after[i]) == key_of(
            #[trigger] after[j],
        ) implies i == j by {
        if i < rows.len() {
            assert(row_at(rows, key_of, key_of(rows[i]), i));
        }
        if j < rows.len() {
            assert(row_at(rows, key_of, key_of(rows[j]), j));
        }
    }
    assert forall|key: K| #[trigger]
        find_row(after, key_of, key) == if key == key_of(x) {
            Some(x)
        } else {
            find_row(rows, key_of, key)
        } by {
        if key == key_of(x) {
            assert(row_at(after, key_of, key, rows.len() as int));
            lemma_found(after, key_of, key, rows.len() as int);
        } else if has_row(rows, key_of, key) {
            let i = choose|i: int| row_at(rows, key_of, key, i);
            assert(row_at(after, key_of, key, i));
            lemma_found(after, key_of, key, i);
        } else if has_row(after, key_of, key) {
            let j = choose|j: int| row_at(after, key_of, key, j);
            assert(row_at(rows, key_of, key, j));
        }
    }
}

/// A row put in the place of row `i`, under a key that no other row bears:
/// it is found under its key, the key it drove out gives nothing, and every
/// other key gives what it gave.
pub proof fn lemma_replace<T, K>(rows: Seq<T>, key_of: spec_fn(T) -> K, i: int, x: T)
    requires
        unique_rows(rows, key_of),
        0 <= i < rows.len(),
        forall|j: int| 0 <= j < rows.len() && j != i ==> key_of(#[trigger] rows[j]) != key_of(x),
    ensures
        unique_rows(rows.update(i, x), key_of),
        forall|key: K| #[trigger]
            find_row(rows.update(i, x), key_of, key) == if key == key_of(x) {
                Some(x)
            } else if key == key_of(rows[i]) {
                None
            } else {
                find_row(rows, key_of, key)
            },
{
    let after = rows.update(i, x);
    assert forall|a: int, b: int|
        0 <= a < after.len() && 0 <= b < after.len() && key_of(#[trigger] after[a]) == key_of(
            #[trigger] after[b],
        ) implies a == b by {
        if a != i && b != i {
            assert(key_of(rows[a]) == key_of(rows[b]));
        } else if a != i {
            assert(key_of(rows[a]) != key_of(x));
        } else if b != i {
            assert(key_of(rows[b]) != key_of(x));
        }
    }
    assert forall|key: K| #[trigger]
        find_row(after, key_of, key) == if key == key_of(x) {
            Some(x)
        } else if key == key_of(rows[i]) {
            None
        } else {
            find_row(rows, key_of, key)
        } by {
        if key == key_of(x) {
            assert(row_at(after, key_of, key, i));
            lemma_found(after, key_of, key, i);
        } else if key == key_of(rows[i]) {
            if has_row(after, key_of, key) {
                let j = choose|j: int| row_at(after, key_of, key, j);
                assert(j != i);
                assert(key_of(rows[j]) == key_of(rows[i]));
            }
        } else if has_row(rows, key_of, key) {
            let j = choose|j: int| row_at(rows, key_of, key, j);
            assert(row_at(after, key_of, key, j));
            lemma_found(after, key_of, key, j);
        } else if has_row(after, key_of, key) {
            let j = choose|j: int| row_at(after, key_of, key, j);
            assert(row_at(rows, key_of, key, j));
        }
    }
}

/// Row `i` taken out: its key gives nothing, and every other key gives what
/// it gave.
pub proof fn lemma_remove<T, K>(rows: Seq<T>, key_of: spec_fn(T) -> K, i: int)
    requires
        unique_rows(rows, key_of),
        0 <= i < rows.len(),
    ensures
        unique_rows(rows.remove(i), key_of),
        forall|key: K| #[trigger]
            find_row(rows.remove(i), key_of, key) == if key == key_of(rows[i]) {
                None
            } else {
                find_row(rows, key_of, key)
            },
{
    let after = rows.remove(i);
    assert forall|a: int, b: int|
        0 <= a < after.len() && 0 <= b < after.len() && key_of(#[trigger] after[a]) == key_of(
            #[trigger] after[b],
        ) implies a == b by {
        let a0 = if a < i { a } else { a + 1 };
        let b0 = if b < i { b } else { b + 1 };
        assert(key_of(rows[a0]) == key_of(rows[b0]));
    }
    assert forall|key: K| #[trigger]
        find_row(after, key_of, key) == if key == key_of(rows[i]) {
            None
        } else {
            find_row(rows, key_of, key)
        } by {
        if has_row(after, key_of, key) {
            let j = choose|j: int| row_at(after, key_of, key, j);
            let j0 = if j < i { j } else { j + 1 };
            assert(row_at(rows, key_of, key, j0));
            lemma_found(rows, key_of, key, j0);
            lemma_found(after, key_of, key, j);
            if key == key_of(rows[i]) {
                assert(key_of(rows[j0]) == key_of(rows[i]));
            }
        } else if key != key_of(rows[i]) && has_row(rows, key_of, key) {
            let j0 = choose|j: int| row_at(rows, key_of, key, j);
            let j = if j0 < i { j0 } else { j0 - 1 };
            assert(row_at(after, key_of, key, j));
        }
    }
}

/// The rows that pass a test: a key gives the row it gave where that row
/// passes, and nothing where it does not.
pub proof fn lemma_filter<T, K>(rows: Seq<T>, key_of: spec_fn(T) -> K, keep: spec_fn(T) -> bool)
    requires
        unique_rows(rows, key_of),
    ensures
        unique_rows(rows.filter(keep), key_of),
        forall|key: K| #[trigger]
            find_row(rows.filter(keep), key_of, key) == match find_row(rows, key_of, key) {
                Some(r) => if keep(r) {
                    Some(r)
                } else {
                    None
                },
                None => None,
            },
    decreases rows.len(),
{
    reveal(Seq::filter);
    let after = rows.filter(keep);
    if rows.len() == 0 {
        assert forall|key: K| #[trigger] find_row(after, key_of, key) is None by {}
    } else {
        let front = rows.drop_last();
        let x = rows.last();
        assert forall|i: int, j: int|
            0 <= i < front.len() && 0 <= j < front.len() && key_of(#[trigger] front[i]) == key_of(
                #[trigger] front[j],
            ) implies i == j by {
            assert(key_of(rows[i]) == key_of(rows[j]));
        }
        lemma_filter(front, key_of, keep);
        assert(rows =~= front.push(x));
        let kx = key_of(x);
        assert(!has_row(front, key_of, kx)) by {
            if has_row(front, key_of, kx) {
                let j = choose|j: int| row_at(front, key_of, kx, j);
                assert(key_of(rows[j]) == key_of(rows[rows.len() - 1]));
            }
        }
        lemma_push(front, key_of, x);
        let kept = front.filter(keep);
        assert(find_row(kept, key_of, key_of(x)) is None);
        if keep(x) {
            assert(after == kept.push(x));
            lemma_push(kept, key_of, x);
        } else {
            assert(after == kept);
        }
        assert forall|key: K| #[trigger]
            find_row(after, key_of, key) == match find_row(rows, key_of, key) {
                Some(r) => if keep(r) {
                    Some(r)
                } else {
                    None
                },
                None => None,
            } by {
            let _ = find_row(front.push(x), key_of, key);
            let _ = find_row(kept, key_of, key);
            if keep(x) {
                let _ = find_row(kept.push(x), key_of, key);
            }
        }
    }
}

/// A row that fails a test, added at the end, does not show among the rows
/// that pass it; one that passes shows last.
pub proof fn lemma_filter_push<T>(rows: Seq<T>, keep: spec_fn(T) -> bool, x: T)
    ensures
        rows.push(x).filter(keep) == if keep(x) {
            rows.filter(keep).push(x)
        } else {
            rows.filter(keep)
        },
{
    reveal(Seq::filter);
    assert(rows.push(x).drop_last() =~= rows);
}

/// A row that fails a test, put in the place of one that fails it, leaves the
/// rows that pass it as they were.
pub proof fn lemma_filter_replace<T>(rows: Seq<T>, keep: spec_fn(T) -> bool, i: int, x: T)
    requires
        0 <= i < rows.len(),
        !keep(rows[i]),
        !keep(x),
    ensures
        rows.update(i, x).filter(keep) == rows.filter(keep),
    decreases rows.len(),
{
    reveal(Seq::filter);
    let after = rows.update(i, x);
    if i == rows.len() - 1 {
        assert(after.drop_last() =~= rows.drop_last());
    } else {
        lemma_filter_replace(rows.drop_last(), keep, i, x);
        assert(after.drop_last() =~= rows.drop_last().update(i, x));
        assert(after.last() == rows.last());
    }
}

/// A row that fails a test, taken out, leaves the rows that pass it as they
/// were.
pub proof fn lemma_filter_remove<T>(rows: Seq<T>, keep: spec_fn(T) -> bool, i: int)
    requires
        0 <= i < rows.len(),
        !keep(rows[i]),
    ensures
        rows.remove(i).filter(keep) == rows.filter(keep),
    decreases rows.len(),
{
    reveal(Seq::filter);
    let after = rows.remove(i);
    if i == rows.len() - 1 {
        assert(after =~= rows.drop_last());
    } else {
        lemma_filter_remove(rows.drop_last(), keep, i);
        assert(after.drop_last() =~= rows.drop_last().remove(i));
        assert(after.last() == rows.last());
    }
}

/// Every row that passes a filter stood in the table and passes the test.
pub proof fn lemma_filter_rows<T>(rows: Seq<T>, keep: spec_fn(T) -> bool, j: int) -> (i: int)
    requires
        0 <= j < rows.filter(keep).len(),
    ensures
        0 <= i < rows.len(),
        rows[i] == rows.filter(keep)[j],
        keep(rows[i]),
    decreases rows.len(),
{
    reveal(Seq::filter);
    if rows.len() == 0 {
        0
    } else {
        let front = rows.drop_last();
        if keep(rows.last()) && j == front.filter(keep).len() {
            rows.len() - 1
        } else {
            lemma_filter_rows(front, keep, j)
        }
    }
}

} // verus!
