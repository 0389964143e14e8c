//! The alphabetical order of names: by the bytes of their UTF-8 text, names
//! that are equal staying in the order in which they came.

use vstd::prelude::*;
use vstd::utf8::{encode_utf8, encode_utf8_decode_utf8};

verus! {

/// Whether `a` comes before `b`, or is equal to it, byte by byte; a text
/// comes before every longer text that begins with it.
pub open spec fn bytes_le(a: Seq<u8>, b: Seq<u8>) -> bool
    decreases a.len(),
{
    if a.len() == 0 {
        true
    } else if b.len() == 0 {
        false
    } else if a[0] != b[0] {
        a[0] < b[0]
    } else {
        bytes_le(a.drop_first(), b.drop_first())
    }
}

/// Whether the name `a` comes before the name `b` or is equal to it.
pub open spec fn name_le(a: Seq<char>, b: Seq<char>) -> bool {
    bytes_le(encode_utf8(a), encode_utf8(b))
}

/// `order` with `index` put behind the last entry whose name does not come
/// after the name at `index`.
pub open spec fn insert_by_name(names: Seq<Seq<char>>, order: Seq<int>, index: int) -> Seq<int>
    decreases order.len(),
{
    if order.len() == 0 {
        seq![index]
    } else if name_le(names[order.last()], names[index]) {
        order.push(index)
    } else {
        insert_by_name(names, order.drop_last(), index).push(order.last())
    }
}

/// The first `n` indices in the order of their names.
pub open spec fn name_order_upto(names: Seq<Seq<char>>, n: nat) -> Seq<int>
    decreases n,
{
    if n == 0 || n > names.len() {
        Seq::empty()
    } else {
        insert_by_name(names, name_order_upto(names, (n - 1) as nat), n - 1)
    }
}

/// The indices of `names` in the order of the names.
pub open spec fn name_order(names: Seq<Seq<char>>) -> Seq<int> {
    name_order_upto(names, names.len())
}

/// The names in their order.
pub open spec fn sorted_names(names: Seq<Seq<char>>) -> Seq<Seq<char>> {
    Seq::new(names.len(), |i: int| names[name_order(names)[i]])
}

/// Every text comes before or with itself.
pub proof fn lemma_bytes_le_refl(a: Seq<u8>)
    ensures
        bytes_le(a, a),
    decreases a.len(),
{
    if a.len() > 0 {
        lemma_bytes_le_refl(a.drop_first());
    }
}

/// Of two texts one comes before or with the other.
pub proof fn lemma_bytes_le_total(a: Seq<u8>, b: Seq<u8>)
    ensures
        bytes_le(a, b) || bytes_le(b, a),
    decreases a.len(),
{
    if a.len() > 0 && b.len() > 0 && a[0] == b[0] {
        lemma_bytes_le_total(a.drop_first(), b.drop_first());
    }
}

/// What comes before a text comes before all that the text comes before.
pub proof fn lemma_bytes_le_trans(a: Seq<u8>, b: Seq<u8>, c: Seq<u8>)
    requires
        bytes_le(a, b),
        bytes_le(b, c),
    ensures
        bytes_le(a, c),
    decreases a.len(),
{
    if a.len() > 0 && b.len() > 0 && c.len() > 0 && a[0] == b[0] && b[0] == c[0] {
        lemma_bytes_le_trans(a.drop_first(), b.drop_first(), c.drop_first());
    }
}

/// Two texts of which each comes before or with the other are one text.
pub proof fn lemma_bytes_le_antisymmetric(a: Seq<u8>, b: Seq<u8>)
    requires
        bytes_le(a, b),
        bytes_le(b, a),
    ensures
        a == b,
    decreases a.len(),
{
    if a.len() > 0 && b.len() > 0 {
        lemma_bytes_le_antisymmetric(a.drop_first(), b.drop_first());
        assert(a =~= seq![a[0]] + a.drop_first());
        assert(b =~= seq![b[0]] + b.drop_first());
    } else {
        assert(a =~= b);
    }
}

/// Two names of which each comes before or with the other are one name.
pub proof fn lemma_name_le_antisymmetric(a: Seq<char>, b: Seq<char>)
    requires
        name_le(a, b),
        name_le(b, a),
    ensures
        a == b,
{
    lemma_bytes_le_antisymmetric(encode_utf8(a), encode_utf8(b));
    encode_utf8_decode_utf8(a);
    encode_utf8_decode_utf8(b);
}

/// Where `insert_by_name` puts the index: behind an entry that does not come
/// after it, and before entries that all come after it.
pub proof fn lemma_insert_at(names: Seq<Seq<char>>, order: Seq<int>, index: int, p: int)
    requires
        0 <= p <= order.len(),
        forall|j: int| p <= j < order.len() ==> !name_le(names[#[trigger] order[j]], names[index]),
        p > 0 ==> name_le(names[order[p - 1]], names[index]),
    ensures
        insert_by_name(names, order, index) == order.insert(p, index),
    decreases order.len() - p,
{
    if p == order.len() {
        assert(insert_by_name(names, order, index) =~= order.insert(p, index));
    } else {
        assert(!name_le(names[order[order.len() - 1]], names[index]));
        lemma_insert_at(names, order.drop_last(), index, p);
        assert(order.drop_last().insert(p, index).push(order.last()) =~= order.insert(p, index));
    }
}

/// The place that `insert_by_name` gives the index.
pub proof fn lemma_insert_place(names: Seq<Seq<char>>, order: Seq<int>, index: int) -> (p: int)
    ensures
        0 <= p <= order.len(),
        forall|j: int| p <= j < order.len() ==> !name_le(names[#[trigger] order[j]], names[index]),
        p > 0 ==> name_le(names[order[p - 1]], names[index]),
        insert_by_name(names, order, index) == order.insert(p, index),
    decreases order.len(),
{
    if order.len() == 0 {
        assert(insert_by_name(names, order, index) =~= order.insert(0, index));
        0
    } else if name_le(names[order.last()], names[index]) {
        assert(insert_by_name(names, order, index) =~= order.insert(order.len() as int, index));
        order.len() as int
    } else {
        let p = lemma_insert_place(names, order.drop_last(), index);
        assert forall|j: int| p <= j < order.len() implies !name_le(
            names[#[trigger] order[j]],
            names[index],
        ) by {
            if j < order.len() - 1 {
                assert(order[j] == order.drop_last()[j]);
            }
        }
        lemma_insert_at(names, order, index, p);
        p
    }
}

/// The order of the first `n` names holds each index below `n` once; names
/// come in ascending order; and of two equal names the one that came first
/// stays first.
pub proof fn lemma_name_order(names: Seq<Seq<char>>, n: nat)
    requires
        n <= names.len(),
    ensures
        ({
            let order = name_order_upto(names, n);
            &&& order.len() == n
            &&& forall|k: int| 0 <= k < n ==> 0 <= #[trigger] order[k] < n
            &&& forall|a: int, b: int| 0 <= a < b < n ==> order[a] != order[b]
            &&& forall|a: int, b: int|
                0 <= a < b < n ==> name_le(names[order[a]], names[order[b]])
            &&& forall|a: int, b: int|
                0 <= a < b < n && names[order[a]] == names[order[b]] ==> order[a] < order[b]
        }),
    decreases n,
{
    if n > 0 {
        let before = name_order_upto(names, (n - 1) as nat);
        let index = n - 1;
        lemma_name_order(names, (n - 1) as nat);
        let p = lemma_insert_place(names, before, index);
        let order = name_order_upto(names, n);
        assert(order == before.insert(p, index));
        assert forall|a: int, b: int| 0 <= a < b < n implies name_le(
            names[order[a]],
            names[order[b]],
        ) by {
            if b == p {
                if a < p - 1 {
                    assert(name_le(names[before[a]], names[before[p - 1]]));
                    lemma_bytes_le_trans(
                        encode_utf8(names[before[a]]),
                        encode_utf8(names[before[p - 1]]),
                        encode_utf8(names[index]),
                    );
                }
            } else if a == p {
                assert(!name_le(names[before[b - 1]], names[index]));
                lemma_bytes_le_total(
                    encode_utf8(names[before[b - 1]]),
                    encode_utf8(names[index]),
                );
            } else if b < p {
                assert(name_le(names[before[a]], names[before[b]]));
            } else if a < p {
                assert(name_le(names[before[a]], names[before[b - 1]]));
            } else {
                assert(name_le(names[before[a - 1]], names[before[b - 1]]));
            }
        }
        assert forall|a: int, b: int|
            0 <= a < b < n && names[order[a]] == names[order[b]] implies order[a] < order[b] by {
            if a == p {
                assert(!name_le(names[before[b - 1]], names[index]));
                lemma_bytes_le_refl(encode_utf8(names[index]));
            }
        }
    }
}

/// Whether the name `a` comes before the name `b` or is equal to it.
pub fn name_comes_first(a: &str, b: &str) -> (res: bool)
    ensures
        res == name_le(a@, b@),
{
    let x = a.as_bytes();
    let y = b.as_bytes();
    let mut i: usize = 0;
    assert(x@.skip(0) =~= x@ && y@.skip(0) =~= y@);
    while i < x.len() && i < y.len()
        invariant
            i <= x.len(),
            i <= y.len(),
            x@ == encode_utf8(a@),
            y@ == encode_utf8(b@),
            bytes_le(x@, y@) == bytes_le(x@.skip(i as int), y@.skip(i as int)),
        decreases x.len() - i,
    {
        proof {
            assert(x@.skip(i as int).drop_first() =~= x@.skip(i + 1));
            assert(y@.skip(i as int).drop_first() =~= y@.skip(i + 1));
        }
        if x[i] != y[i] {
            return x[i] < y[i];
        }
        i += 1;
    }
    i == x.len()
}

/// The indices of `names` in the order of the names.
pub fn sorted_order(names: &Vec<String>) -> (order: Vec<usize>)
    ensures
        order@.map_values(|i: usize| i as int) == name_order(names.deep_view()),
        order.len() == names.len(),
        forall|k: int| 0 <= k < order.len() ==> order[k] < names.len(),
{
    let ghost all = names.deep_view();
    let ghost widen = |i: usize| i as int;
    let mut order: Vec<usize> = Vec::new();
    let mut n: usize = 0;
    assert(order@.map_values(widen) =~= name_order_upto(all, 0));
    while n < names.len()
        invariant
            n <= names.len(),
            all == names.deep_view(),
            widen == |i: usize| i as int,
            order.len() == n,
            forall|k: int| 0 <= k < order.len() ==> order[k] < n,
            order@.map_values(widen) == name_order_upto(all, n as nat),
        decreases names.len() - n,
    {
        let ghost before = order@.map_values(widen);
        let mut p: usize = order.len();
        while p > 0 && !name_comes_first(names[order[p - 1]].as_str(), names[n].as_str())
            invariant
                p <= order.len(),
                n < names.len(),
                all == names.deep_view(),
                widen == |i: usize| i as int,
                before == order@.map_values(widen),
                forall|k: int| 0 <= k < order.len() ==> order[k] < n,
                forall|j: int|
                    p <= j < order.len() ==> !name_le(all[#[trigger] before[j]], all[n as int]),
            decreases p,
        {
            p -= 1;
        }
        proof {
            lemma_insert_at(all, before, n as int, p as int);
        }
        order.insert(p, n);
        assert(order@.map_values(widen) =~= before.insert(p as int, n as int));
        n += 1;
    }
    order
}

} // verus!
