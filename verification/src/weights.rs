//! Putting the columns of a row in order for display: by the weight of
//! their names.

use vstd::prelude::*;
use vstd::string::*;
use crate::text::chars_of;

verus! {

/// The weight of a column name: the code of its first character plus its
/// length in bytes; 0 for the empty name.
pub open spec fn spec_weight(key: Seq<char>) -> int {
    if key.len() == 0 {
        0
    } else {
        (key[0] as u32) + vstd::utf8::encode_utf8(key).len()
    }
}

/// The weight of a column name.
pub fn weight(key: &str) -> (r: u128)
    ensures
        r == spec_weight(key@),
{
    let cs = chars_of(key);
    if cs.len() == 0 {
        0
    } else {
        let c: char = cs[0];
        let first: u128 = c as u32 as u128;
        let size: u128 = key.as_bytes().len() as u128;
        first + size
    }
}

/// `sorted` with `e` put behind every entry that is no heavier.
pub open spec fn insert_by_weight<T>(sorted: Seq<(String, T)>, e: (String, T)) -> Seq<(String, T)>
    decreases sorted.len(),
{
    if sorted.len() == 0 {
        seq![e]
    } else if spec_weight(sorted.last().0@) <= spec_weight(e.0@) {
        sorted.push(e)
    } else {
        insert_by_weight(sorted.drop_last(), e).push(sorted.last())
    }
}

/// The entries by the weight of their keys, the lightest first; entries of
/// one weight keep their order.
pub open spec fn by_weight<T>(entries: Seq<(String, T)>) -> Seq<(String, T)>
    decreases entries.len(),
{
    if entries.len() == 0 {
        entries
    } else {
        insert_by_weight(by_weight(entries.drop_last()), entries.last())
    }
}

proof fn lemma_insert_by_weight_at<T>(sorted: Seq<(String, T)>, e: (String, T), pos: int)
    requires
        0 <= pos <= sorted.len(),
        forall|k: int|
            pos <= k < sorted.len() ==> spec_weight((#[trigger] sorted[k]).0@)
                > spec_weight(e.0@),
        pos > 0 ==> spec_weight(sorted[pos - 1].0@) <= spec_weight(e.0@),
    ensures
        insert_by_weight(sorted, e) == sorted.insert(pos, e),
    decreases sorted.len(),
{
    if sorted.len() == 0 {
        assert(seq![e] =~= sorted.insert(pos, e));
    } else if pos == sorted.len() {
        assert(sorted.push(e) =~= sorted.insert(pos, e));
    } else {
        assert(spec_weight(sorted[sorted.len() - 1].0@) > spec_weight(e.0@));
        lemma_insert_by_weight_at(sorted.drop_last(), e, pos);
        assert(sorted.drop_last().insert(pos, e).push(sorted.last()) =~= sorted.insert(pos, e));
    }
}

/// Every entry of the sorted list is an entry of the list, and the list is
/// as long as it was.
pub proof fn lemma_by_weight_is_a_rearrangement<T>(entries: Seq<(String, T)>)
    ensures
        by_weight(entries).to_multiset() == entries.to_multiset(),
        by_weight(entries).len() == entries.len(),
    decreases entries.len(),
{
    broadcast use vstd::seq_lib::group_to_multiset_ensures;

    if entries.len() > 0 {
        let front = entries.drop_last();
        lemma_by_weight_is_a_rearrangement(front);
        lemma_insert_is_a_rearrangement(by_weight(front), entries.last());
        assert(front.push(entries.last()) =~= entries);
    }
    entries.to_multiset_ensures();
    by_weight(entries).to_multiset_ensures();
}

proof fn lemma_insert_is_a_rearrangement<T>(sorted: Seq<(String, T)>, e: (String, T))
    ensures
        insert_by_weight(sorted, e).to_multiset() == sorted.to_multiset().insert(e),
    decreases sorted.len(),
{
    broadcast use vstd::seq_lib::group_to_multiset_ensures;

    if sorted.len() == 0 {
        assert(seq![e] =~= sorted.push(e));
    } else if spec_weight(sorted.last().0@) <= spec_weight(e.0@) {
    } else {
        lemma_insert_is_a_rearrangement(sorted.drop_last(), e);
        assert(sorted.drop_last().push(sorted.last()) =~= sorted);
        assert(sorted.drop_last().to_multiset().insert(e).insert(sorted.last())
            =~= sorted.drop_last().to_multiset().insert(sorted.last()).insert(e));
    }
}

/// The sorted list rises in weight.
pub proof fn lemma_by_weight_rises<T>(entries: Seq<(String, T)>)
    ensures
        rises(by_weight(entries)),
    decreases entries.len(),
{
    if entries.len() > 0 {
        lemma_by_weight_rises(entries.drop_last());
        lemma_insert_rises(by_weight(entries.drop_last()), entries.last());
    }
}

/// The entries rise in weight.
pub open spec fn rises<T>(entries: Seq<(String, T)>) -> bool {
    forall|a: int, b: int|
        0 <= a <= b < entries.len() ==> spec_weight((#[trigger] entries[a]).0@)
            <= spec_weight((#[trigger] entries[b]).0@)
}

proof fn lemma_insert_rises<T>(sorted: Seq<(String, T)>, e: (String, T))
    requires
        rises(sorted),
    ensures
        rises(insert_by_weight(sorted, e)),
        forall|k: int|
            0 <= k < insert_by_weight(sorted, e).len() ==> (#[trigger] insert_by_weight(
                sorted,
                e,
            )[k]) == e || exists|j: int| 0 <= j < sorted.len() && sorted[j] == insert_by_weight(
                sorted,
                e,
            )[k],
    decreases sorted.len(),
{
    let out = insert_by_weight(sorted, e);
    if sorted.len() == 0 {
    } else if spec_weight(sorted.last().0@) <= spec_weight(e.0@) {
        assert forall|a: int, b: int| 0 <= a <= b < out.len() implies spec_weight(
            (#[trigger] out[a]).0@,
        ) <= spec_weight((#[trigger] out[b]).0@) by {
            if b == sorted.len() && a < sorted.len() {
                assert(spec_weight(sorted[a].0@) <= spec_weight(
                    sorted[sorted.len() - 1].0@,
                ));
            }
        }
        assert forall|k: int| 0 <= k < out.len() implies (#[trigger] out[k]) == e || exists|
            j: int,
        |
            0 <= j < sorted.len() && sorted[j] == out[k] by {
            if k < sorted.len() {
                assert(sorted[k] == out[k]);
            }
        }
    } else {
        let front = sorted.drop_last();
        assert(rises(front)) by {
            assert forall|a: int, b: int| 0 <= a <= b < front.len() implies spec_weight(
                (#[trigger] front[a]).0@,
            ) <= spec_weight((#[trigger] front[b]).0@) by {
                assert(front[a] == sorted[a] && front[b] == sorted[b]);
            }
        }
        lemma_insert_rises(front, e);
        let inner = insert_by_weight(front, e);
        assert forall|a: int, b: int| 0 <= a <= b < out.len() implies spec_weight(
            (#[trigger] out[a]).0@,
        ) <= spec_weight((#[trigger] out[b]).0@) by {
            if b == inner.len() && a < inner.len() {
                if inner[a] != e {
                    let j = choose|j: int| 0 <= j < front.len() && front[j] == inner[a];
                    assert(sorted[j] == inner[a]);
                    assert(spec_weight(sorted[j].0@) <= spec_weight(
                        sorted[sorted.len() - 1].0@,
                    ));
                }
            } else if b < inner.len() {
                assert(out[a] == inner[a] && out[b] == inner[b]);
            }
        }
        assert forall|k: int| 0 <= k < out.len() implies (#[trigger] out[k]) == e || exists|
            j: int,
        |
            0 <= j < sorted.len() && sorted[j] == out[k] by {
            if k < inner.len() {
                if inner[k] != e {
                    let j = choose|j: int| 0 <= j < front.len() && front[j] == inner[k];
                    assert(sorted[j] == out[k]);
                }
            } else {
                assert(sorted[sorted.len() - 1] == out[k]);
            }
        }
    }
}

/// Puts entries in order by the weight of their keys: the same entries,
/// rising in weight, those of one weight in the order they came in.
pub fn sort_by_keys<T>(entries: Vec<(String, T)>) -> (r: Vec<(String, T)>)
    ensures
        r@ == by_weight(entries@),
        rises(r@),
        r@.to_multiset() == entries@.to_multiset(),
        r@.len() == entries@.len(),
{
    let ghost all = entries@;
    proof {
        lemma_by_weight_rises(all);
        lemma_by_weight_is_a_rearrangement(all);
    }
    let mut out = entries;
    let n: usize = out.len();
    let mut i: usize = 0;
    assert(out@.take(0) =~= by_weight(all.take(0)));
    assert(out@.skip(0) =~= all.skip(0));
    while i < n
        invariant
            n == out@.len(),
            n == all.len(),
            i <= n,
            out@.take(i as int) == by_weight(all.take(i as int)),
            out@.skip(i as int) == all.skip(i as int),
        decreases n - i,
    {
        let ghost before = out@;
        let ghost sorted = before.take(i as int);
        assert(before[i as int] == before.skip(i as int)[0]);
        assert(all[i as int] == all.skip(i as int)[0]);
        let e = out.remove(i);
        let w = weight(e.0.as_str());
        let mut pos: usize = i;
        assert(out@.take(i as int) =~= sorted);
        while pos > 0 && weight(out[pos - 1].0.as_str()) > w
            invariant
                pos <= i,
                i < n,
                out@.len() == n - 1,
                out@.take(i as int) == sorted,
                w == spec_weight(e.0@),
                forall|k: int|
                    pos <= k < i ==> spec_weight((#[trigger] sorted[k]).0@) > w,
            decreases pos,
        {
            assert(sorted[pos - 1] == out@[pos - 1]);
            pos -= 1;
        }
        proof {
            if pos > 0 {
                assert(sorted[pos - 1] == out@[pos - 1]);
            }
            lemma_insert_by_weight_at(sorted, e, pos as int);
            assert(all.take(i + 1).drop_last() =~= all.take(i as int));
            assert(all.take(i + 1).last() == all[i as int]);
        }
        out.insert(pos, e);
        proof {
            assert(out@.take(i + 1) =~= sorted.insert(pos as int, e));
            assert(out@.skip(i + 1) =~= before.skip(i as int).skip(1));
            assert(all.skip(i + 1) =~= all.skip(i as int).skip(1));
        }
        i += 1;
    }
    assert(out@.take(n as int) =~= out@);
    assert(all.take(n as int) =~= all);
    out
}

} // verus!
