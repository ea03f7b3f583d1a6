//! Comments in the order of their time: the threads of a video arrive one after the
//! other, and the drawing walks forward in time. Comments with the same time keep the
//! order in which they came.

use vstd::prelude::*;

verus! {

/// The items are in the order of their keys.
pub open spec fn sorted_by_key<T>(s: Seq<(i64, T)>) -> bool {
    forall|i: int, j: int| 0 <= i < j < s.len() ==> s[i].0 <= s[j].0
}

/// Has an item the key `k`?
pub open spec fn key_is<T>(k: i64) -> spec_fn((i64, T)) -> bool {
    |x: (i64, T)| x.0 == k
}

/// The items with the key `k`, in their order.
pub open spec fn with_key<T>(s: Seq<(i64, T)>, k: i64) -> Seq<(i64, T)> {
    s.filter(key_is(k))
}

/// One item more at the end adds it to the items of its key.
proof fn lemma_with_key_push<T>(s: Seq<(i64, T)>, x: (i64, T), k: i64)
    ensures
        with_key(s.push(x), k) == if x.0 == k {
            with_key(s, k).push(x)
        } else {
            with_key(s, k)
        },
{
    s.lemma_filter_push(x, key_is(k));
}

/// One item more at the front adds it to the items of its key.
proof fn lemma_with_key_prepend<T>(s: Seq<(i64, T)>, x: (i64, T), k: i64)
    ensures
        with_key(seq![x] + s, k) == (if x.0 == k {
            seq![x]
        } else {
            Seq::empty()
        }) + with_key(s, k),
{
    s.lemma_filter_prepend(x, key_is(k));
}

/// The items of a key in two parts are those of the first part, then those of the
/// second.
proof fn lemma_with_key_add<T>(a: Seq<(i64, T)>, b: Seq<(i64, T)>, k: i64)
    ensures
        with_key(a + b, k) == with_key(a, k) + with_key(b, k),
{
    Seq::filter_distributes_over_add(a, b, key_is(k));
}

/// A sequence without the key `k` has no items of it.
proof fn lemma_with_key_none<T>(s: Seq<(i64, T)>, k: i64)
    requires
        forall|i: int| 0 <= i < s.len() ==> s[i].0 != k,
    ensures
        with_key(s, k) == Seq::<(i64, T)>::empty(),
    decreases s.len(),
{
    if s.len() > 0 {
        let init = s.drop_last();
        lemma_with_key_none(init, k);
        assert(init.push(s.last()) == s);
        lemma_with_key_push(init, s.last(), k);
    }
}

/// Pop all of `v` into a new vector: the same items, the last one first.
fn reversed<T>(v: Vec<(i64, T)>) -> (r: Vec<(i64, T)>)
    ensures
        r@.len() == v@.len(),
        forall|i: int| 0 <= i < r@.len() ==> #[trigger] r@[i] == v@[v@.len() - 1 - i],
{
    let ghost all = v@;
    let mut v = v;
    let mut r: Vec<(i64, T)> = Vec::new();
    while v.len() > 0
        invariant
            all.len() == v@.len() + r@.len(),
            v@ == all.take(v@.len() as int),
            forall|i: int| 0 <= i < r@.len() ==> #[trigger] r@[i] == all[all.len() - 1 - i],
        decreases v@.len(),
    {
        let ghost before_v = v@;
        let item = v.pop().unwrap();
        proof {
            assert(before_v == v@.push(item));
            assert(v@ =~= all.take(v@.len() as int));
            assert(item == all[v@.len() as int]);
        }
        r.push(item);
    }
    r
}

/// Merge two ordered vectors; on equal keys the items of `a` come first.
fn merge<T>(a: Vec<(i64, T)>, b: Vec<(i64, T)>) -> (r: Vec<(i64, T)>)
    requires
        sorted_by_key(a@),
        sorted_by_key(b@),
    ensures
        sorted_by_key(r@),
        forall|k: i64| #[trigger] with_key(r@, k) == with_key(a@, k) + with_key(b@, k),
        r@.len() == a@.len() + b@.len(),
{
    let ghost a0 = a@;
    let ghost b0 = b@;
    let ghost mut rest_a = a@;
    let ghost mut rest_b = b@;
    let mut ra = reversed(a);
    let mut rb = reversed(b);
    let mut out: Vec<(i64, T)> = Vec::new();
    proof {
        assert forall|k: i64| #[trigger] with_key(out@, k) + with_key(rest_a, k) + with_key(
            rest_b,
            k,
        ) == with_key(a0, k) + with_key(b0, k) by {
            assert(out@ == Seq::<(i64, T)>::empty());
            lemma_with_key_none(out@, k);
            assert(with_key(out@, k) + with_key(rest_a, k) =~= with_key(rest_a, k));
        }
    }
    while ra.len() > 0 || rb.len() > 0
        invariant
            ra@.len() == rest_a.len(),
            rb@.len() == rest_b.len(),
            forall|i: int| 0 <= i < ra@.len() ==> #[trigger] ra@[i] == rest_a[rest_a.len() - 1 - i],
            forall|i: int| 0 <= i < rb@.len() ==> #[trigger] rb@[i] == rest_b[rest_b.len() - 1 - i],
            sorted_by_key(rest_a),
            sorted_by_key(rest_b),
            sorted_by_key(out@),
            out@.len() > 0 && rest_a.len() > 0 ==> out@.last().0 <= rest_a[0].0,
            out@.len() > 0 && rest_b.len() > 0 ==> out@.last().0 <= rest_b[0].0,
            forall|k: i64| #[trigger]
                with_key(out@, k) + with_key(rest_a, k) + with_key(rest_b, k) == with_key(a0, k)
                    + with_key(b0, k),
            out@.len() + rest_a.len() + rest_b.len() == a0.len() + b0.len(),
        decreases rest_a.len() + rest_b.len(),
    {
        let take_a = if ra.len() == 0 {
            false
        } else if rb.len() == 0 {
            true
        } else {
            ra[ra.len() - 1].0 <= rb[rb.len() - 1].0
        };
        let ghost before_out = out@;
        let ghost before_a = rest_a;
        let ghost before_b = rest_b;
        let ghost before_ra = ra@;
        let ghost before_rb = rb@;
        if take_a {
            let item = ra.pop().unwrap();
            proof {
                assert(before_ra == ra@.push(item));
                assert(item == before_a[0]);
                rest_a = before_a.drop_first();
                assert(before_a =~= seq![item] + rest_a);
                assert forall|i: int| 0 <= i < ra@.len() implies #[trigger] ra@[i] == rest_a[
                    rest_a.len() - 1 - i
                ] by {
                    assert(ra@[i] == before_ra[i]);
                }
            }
            out.push(item);
            proof {
                assert(out@ == before_out.push(item));
                assert forall|k: i64| #[trigger]
                    with_key(out@, k) + with_key(rest_a, k) + with_key(rest_b, k) == with_key(
                        a0,
                        k,
                    ) + with_key(b0, k) by {
                    lemma_with_key_push(before_out, item, k);
                    lemma_with_key_prepend(rest_a, item, k);
                    if item.0 == k {
                        assert(with_key(out@, k) + with_key(rest_a, k) =~= with_key(before_out, k)
                            + with_key(before_a, k));
                    } else {
                        assert(with_key(out@, k) + with_key(rest_a, k) =~= with_key(before_out, k)
                            + with_key(before_a, k));
                    }
                }
                assert forall|i: int, j: int| 0 <= i < j < out@.len() implies out@[i].0
                    <= out@[j].0 by {
                    if j == out@.len() - 1 && i < before_out.len() {
                        assert(out@[i] == before_out[i]);
                        assert(before_out[i].0 <= before_out.last().0);
                    }
                }
            }
        } else {
            let item = rb.pop().unwrap();
            proof {
                assert(before_rb == rb@.push(item));
                assert(item == before_b[0]);
                rest_b = before_b.drop_first();
                assert(before_b =~= seq![item] + rest_b);
                assert forall|i: int| 0 <= i < rb@.len() implies #[trigger] rb@[i] == rest_b[
                    rest_b.len() - 1 - i
                ] by {
                    assert(rb@[i] == before_rb[i]);
                }
            }
            out.push(item);
            proof {
                assert(out@ == before_out.push(item));
                assert(rest_a.len() > 0 ==> item.0 < rest_a[0].0) by {
                    if rest_a.len() > 0 {
                        assert(ra@[ra@.len() - 1] == rest_a[0]);
                    }
                }
                assert forall|k: i64| #[trigger]
                    with_key(out@, k) + with_key(rest_a, k) + with_key(rest_b, k) == with_key(
                        a0,
                        k,
                    ) + with_key(b0, k) by {
                    lemma_with_key_push(before_out, item, k);
                    lemma_with_key_prepend(rest_b, item, k);
                    if item.0 == k {
                        assert forall|i: int| 0 <= i < rest_a.len() implies rest_a[i].0 != k by {
                            assert(rest_a[0].0 <= rest_a[i].0);
                        }
                        lemma_with_key_none(rest_a, k);
                        assert(with_key(out@, k) + with_key(rest_a, k) + with_key(rest_b, k)
                            =~= with_key(before_out, k) + with_key(rest_a, k) + with_key(
                            before_b,
                            k,
                        ));
                    } else {
                        assert(with_key(out@, k) + with_key(rest_a, k) + with_key(rest_b, k)
                            =~= with_key(before_out, k) + with_key(rest_a, k) + with_key(
                            before_b,
                            k,
                        ));
                    }
                }
                assert forall|i: int, j: int| 0 <= i < j < out@.len() implies out@[i].0
                    <= out@[j].0 by {
                    if j == out@.len() - 1 && i < before_out.len() {
                        assert(out@[i] == before_out[i]);
                        assert(before_out[i].0 <= before_out.last().0);
                    }
                }
            }
        }
    }
    proof {
        assert forall|k: i64| #[trigger] with_key(out@, k) == with_key(a0, k) + with_key(b0, k) by {
            lemma_with_key_none(rest_a, k);
            lemma_with_key_none(rest_b, k);
            assert(with_key(out@, k) + with_key(rest_a, k) + with_key(rest_b, k) =~= with_key(
                out@,
                k,
            ));
        }
    }
    out
}

/// The items in the order of their keys; items with the same key keep their order.
pub fn sort_by_key<T>(items: Vec<(i64, T)>) -> (r: Vec<(i64, T)>)
    ensures
        sorted_by_key(r@),
        forall|k: i64| #[trigger] with_key(r@, k) == with_key(items@, k),
        r@.len() == items@.len(),
    decreases items@.len(),
{
    if items.len() <= 1 {
        return items;
    }
    let ghost all = items@;
    let mut left = items;
    let half = left.len() / 2;
    let right = left.split_off(half);
    proof {
        assert(all =~= left@ + right@);
    }
    let ghost lv = left@;
    let ghost rv = right@;
    let l = sort_by_key(left);
    let r = sort_by_key(right);
    let out = merge(l, r);
    proof {
        assert forall|k: i64| #[trigger] with_key(out@, k) == with_key(all, k) by {
            lemma_with_key_add(lv, rv, k);
        }
    }
    out
}

} // verus!
