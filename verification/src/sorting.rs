use vstd::prelude::*;
use vstd::seq_lib::{to_multiset_build, to_multiset_insert};
use crate::text::views;

verus! {

// ---------------------------------------------------------------------------
// The order `String::cmp` puts strings in, and its extension to keys made of
// several strings compared one after another (as `Ordering::then_with`
// chains do).
// ---------------------------------------------------------------------------

/// `a` sorts no later than `b`: compared character by character by code
/// point, a prefix first.
pub open spec fn chars_le(a: Seq<char>, b: Seq<char>) -> bool
    decreases a.len(),
{
    if a.len() == 0 {
        true
    } else if b.len() == 0 {
        false
    } else if (a[0] as u32) < (b[0] as u32) {
        true
    } else if (a[0] as u32) > (b[0] as u32) {
        false
    } else {
        chars_le(a.drop_first(), b.drop_first())
    }
}

/// Keys of several fields, compared field by field.
pub open spec fn key_le(a: Seq<Seq<char>>, b: Seq<Seq<char>>) -> bool
    decreases a.len(),
{
    if a.len() == 0 {
        true
    } else if b.len() == 0 {
        false
    } else if !chars_le(b[0], a[0]) {
        true
    } else if !chars_le(a[0], b[0]) {
        false
    } else {
        key_le(a.drop_first(), b.drop_first())
    }
}

pub proof fn lemma_chars_le_total(a: Seq<char>, b: Seq<char>)
    ensures
        chars_le(a, b) || chars_le(b, a),
    decreases a.len(),
{
    if a.len() > 0 && b.len() > 0 && (a[0] as u32) == (b[0] as u32) {
        lemma_chars_le_total(a.drop_first(), b.drop_first());
    }
}

pub proof fn lemma_chars_le_trans(a: Seq<char>, b: Seq<char>, c: Seq<char>)
    requires
        chars_le(a, b),
        chars_le(b, c),
    ensures
        chars_le(a, c),
    decreases a.len(),
{
    if a.len() > 0 && b.len() > 0 && c.len() > 0 && (a[0] as u32) == (b[0] as u32) && (b[0] as u32)
        == (c[0] as u32) {
        lemma_chars_le_trans(a.drop_first(), b.drop_first(), c.drop_first());
    }
}

pub proof fn lemma_chars_le_antisym(a: Seq<char>, b: Seq<char>)
    requires
        chars_le(a, b),
        chars_le(b, a),
    ensures
        a == b,
    decreases a.len(),
{
    if a.len() > 0 {
        lemma_chars_le_antisym(a.drop_first(), b.drop_first());
        vstd::utf8::char_u32_cast(a[0], a[0] as u32);
        vstd::utf8::char_u32_cast(b[0], b[0] as u32);
        assert(a =~= seq![a[0]] + a.drop_first());
        assert(b =~= seq![b[0]] + b.drop_first());
    }
}

pub proof fn lemma_key_le_total(a: Seq<Seq<char>>, b: Seq<Seq<char>>)
    ensures
        key_le(a, b) || key_le(b, a),
    decreases a.len(),
{
    if a.len() > 0 && b.len() > 0 {
        lemma_chars_le_total(a[0], b[0]);
        if chars_le(a[0], b[0]) && chars_le(b[0], a[0]) {
            lemma_key_le_total(a.drop_first(), b.drop_first());
        }
    }
}

pub proof fn lemma_key_le_trans(a: Seq<Seq<char>>, b: Seq<Seq<char>>, c: Seq<Seq<char>>)
    requires
        key_le(a, b),
        key_le(b, c),
    ensures
        key_le(a, c),
    decreases a.len(),
{
    if a.len() > 0 && b.len() > 0 && c.len() > 0 {
        let (x, y, z) = (a[0], b[0], c[0]);
        lemma_chars_le_total(x, y);
        lemma_chars_le_total(y, z);
        lemma_chars_le_total(x, z);
        if chars_le(y, z) && chars_le(z, x) {
            lemma_chars_le_trans(y, z, x);
        }
        if chars_le(z, x) && chars_le(x, y) {
            lemma_chars_le_trans(z, x, y);
        }
        if chars_le(x, y) && chars_le(y, x) {
            lemma_chars_le_antisym(x, y);
        }
        if chars_le(y, z) && chars_le(z, y) {
            lemma_chars_le_antisym(y, z);
        }
        if x == y && y == z {
            lemma_key_le_trans(a.drop_first(), b.drop_first(), c.drop_first());
        }
    }
}

// ---------------------------------------------------------------------------
// A stable sort by key: each element goes after every earlier element whose
// key is not greater than its own.
// ---------------------------------------------------------------------------

/// Where an element with key `key` goes in `sorted`: before the first
/// element with a greater key.
pub open spec fn insert_pos<T>(sorted: Seq<(Seq<Seq<char>>, T)>, key: Seq<Seq<char>>) -> int
    decreases sorted.len(),
{
    if sorted.len() == 0 {
        0
    } else if !key_le(sorted[0].0, key) {
        0
    } else {
        1 + insert_pos(sorted.drop_first(), key)
    }
}

/// `s` sorted by key; elements with equal keys keep their order.
pub open spec fn sort_by_key<T>(s: Seq<(Seq<Seq<char>>, T)>) -> Seq<(Seq<Seq<char>>, T)>
    decreases s.len(),
{
    if s.len() == 0 {
        seq![]
    } else {
        let r = sort_by_key(s.drop_last());
        r.insert(insert_pos(r, s.last().0), s.last())
    }
}

pub open spec fn sorted_by_key<T>(s: Seq<(Seq<Seq<char>>, T)>) -> bool {
    forall|i: int, j: int| 0 <= i < j < s.len() ==> key_le(s[i].0, s[j].0)
}

pub proof fn lemma_insert_pos_bounds<T>(sorted: Seq<(Seq<Seq<char>>, T)>, key: Seq<Seq<char>>)
    ensures
        0 <= insert_pos(sorted, key) <= sorted.len(),
        forall|j: int| 0 <= j < insert_pos(sorted, key) ==> key_le(#[trigger] sorted[j].0, key),
        insert_pos(sorted, key) < sorted.len() ==> !key_le(sorted[insert_pos(sorted, key)].0, key),
    decreases sorted.len(),
{
    if sorted.len() > 0 && key_le(sorted[0].0, key) {
        lemma_insert_pos_bounds(sorted.drop_first(), key);
        assert forall|j: int| 0 <= j < insert_pos(sorted, key) implies key_le(
            #[trigger] sorted[j].0,
            key,
        ) by {
            if j > 0 {
                assert(sorted[j] == sorted.drop_first()[j - 1]);
            }
        }
    }
}

/// The first index at which the key is greater is the insert position.
pub proof fn lemma_insert_pos_is<T>(
    sorted: Seq<(Seq<Seq<char>>, T)>,
    key: Seq<Seq<char>>,
    k: int,
)
    requires
        0 <= k <= sorted.len(),
        forall|j: int| 0 <= j < k ==> key_le(#[trigger] sorted[j].0, key),
        k < sorted.len() ==> !key_le(sorted[k].0, key),
    ensures
        insert_pos(sorted, key) == k,
    decreases k,
{
    if k > 0 {
        assert(key_le(sorted[0].0, key));
        assert forall|j: int| 0 <= j < k - 1 implies key_le(
            #[trigger] sorted.drop_first()[j].0,
            key,
        ) by {
            assert(sorted.drop_first()[j] == sorted[j + 1]);
        }
        lemma_insert_pos_is(sorted.drop_first(), key, k - 1);
    }
}

/// The sort lists every element in key order.
pub proof fn lemma_sort_by_key_sorted<T>(s: Seq<(Seq<Seq<char>>, T)>)
    ensures
        sorted_by_key(sort_by_key(s)),
        sort_by_key(s).len() == s.len(),
    decreases s.len(),
{
    if s.len() > 0 {
        let r = sort_by_key(s.drop_last());
        lemma_sort_by_key_sorted(s.drop_last());
        let x = s.last();
        let p = insert_pos(r, x.0);
        lemma_insert_pos_bounds(r, x.0);
        let out = r.insert(p, x);
        assert forall|i: int, j: int| 0 <= i < j < out.len() implies key_le(out[i].0, out[j].0) by {
            if j < p {
                assert(out[i] == r[i] && out[j] == r[j]);
            } else if j == p {
                assert(out[i] == r[i]);
            } else if i == p {
                assert(out[j] == r[j - 1]);
                lemma_key_le_total(x.0, r[p].0);
                if j - 1 > p {
                    // r[p] <= r[j - 1] and x < r[p]
                    lemma_key_le_total(x.0, r[j - 1].0);
                    if key_le(r[j - 1].0, x.0) {
                        lemma_key_le_trans(r[p].0, r[j - 1].0, x.0);
                    }
                }
            } else if i < p {
                assert(out[i] == r[i] && out[j] == r[j - 1]);
            } else {
                assert(out[i] == r[i - 1] && out[j] == r[j - 1]);
            }
        }
    }
}

/// The sort loses and duplicates nothing.
pub proof fn lemma_sort_by_key_permutes<T>(s: Seq<(Seq<Seq<char>>, T)>)
    ensures
        sort_by_key(s).to_multiset() == s.to_multiset(),
    decreases s.len(),
{
    if s.len() > 0 {
        let init = s.drop_last();
        let x = s.last();
        let r = sort_by_key(init);
        lemma_sort_by_key_permutes(init);
        lemma_insert_pos_bounds(r, x.0);
        let p = insert_pos(r, x.0);
        to_multiset_insert(r, p, x);
        assert(sort_by_key(s) == r.insert(p, x));
        to_multiset_build(init, x);
        assert(init.push(x) =~= s);
        assert(sort_by_key(s).to_multiset() =~= s.to_multiset());
    } else {
        assert(s =~= Seq::<(Seq<Seq<char>>, T)>::empty());
        assert(sort_by_key(s) =~= s);
    }
}

/// The insert position depends on the keys alone.
pub proof fn lemma_insert_pos_map<T, U>(
    sorted: Seq<(Seq<Seq<char>>, T)>,
    key: Seq<Seq<char>>,
    f: spec_fn(T) -> U,
)
    ensures
        insert_pos(sorted.map_values(|p: (Seq<Seq<char>>, T)| (p.0, f(p.1))), key) == insert_pos(
            sorted,
            key,
        ),
    decreases sorted.len(),
{
    let g = |p: (Seq<Seq<char>>, T)| (p.0, f(p.1));
    if sorted.len() > 0 {
        lemma_insert_pos_map(sorted.drop_first(), key, f);
        assert(sorted.map_values(g).drop_first() =~= sorted.drop_first().map_values(g));
    }
}

/// Sorting and then rewriting the items is the same as rewriting the items
/// and then sorting, since only the keys decide the order.
pub proof fn lemma_sort_map_items<T, U>(s: Seq<(Seq<Seq<char>>, T)>, f: spec_fn(T) -> U)
    ensures
        sort_by_key(s.map_values(|p: (Seq<Seq<char>>, T)| (p.0, f(p.1)))) == sort_by_key(
            s,
        ).map_values(|p: (Seq<Seq<char>>, T)| (p.0, f(p.1))),
    decreases s.len(),
{
    let g = |p: (Seq<Seq<char>>, T)| (p.0, f(p.1));
    if s.len() > 0 {
        lemma_sort_map_items(s.drop_last(), f);
        let r = sort_by_key(s.drop_last());
        lemma_insert_pos_map(r, s.last().0, f);
        lemma_insert_pos_bounds(r, s.last().0);
        assert(s.map_values(g).drop_last() =~= s.drop_last().map_values(g));
        assert(s.map_values(g).last() == g(s.last()));
        let p = insert_pos(r, s.last().0);
        assert(r.insert(p, s.last()).map_values(g) =~= r.map_values(g).insert(p, g(s.last())));
    } else {
        assert(s.map_values(g) =~= Seq::<(Seq<Seq<char>>, U)>::empty());
        assert(sort_by_key(s).map_values(g) =~= Seq::<(Seq<Seq<char>>, U)>::empty());
    }
}

// ---------------------------------------------------------------------------
// The executable sort.
// ---------------------------------------------------------------------------

pub open spec fn keyed<T>(pairs: Seq<(Vec<Vec<char>>, T)>) -> Seq<(Seq<Seq<char>>, T)> {
    pairs.map_values(|p: (Vec<Vec<char>>, T)| (views(p.0@), p.1))
}

pub fn chars_le_exec(a: &[char], b: &[char]) -> (r: bool)
    ensures
        r == chars_le(a@, b@),
{
    let mut i: usize = 0;
    assert(a@.skip(0) =~= a@ && b@.skip(0) =~= b@);
    while i < a.len() && i < b.len()
        invariant
            i <= a@.len(),
            i <= b@.len(),
            chars_le(a@, b@) == chars_le(a@.skip(i as int), b@.skip(i as int)),
        decreases a.len() - i,
    {
        let x = a[i] as u32;
        let y = b[i] as u32;
        proof {
            assert(a@.skip(i as int)[0] == a@[i as int]);
            assert(b@.skip(i as int)[0] == b@[i as int]);
            assert(a@.skip(i as int).drop_first() =~= a@.skip(i + 1));
            assert(b@.skip(i as int).drop_first() =~= b@.skip(i + 1));
        }
        if x < y {
            return true;
        }
        if x > y {
            return false;
        }
        i = i + 1;
    }
    i == a.len()
}

pub fn key_le_exec(a: &Vec<Vec<char>>, b: &Vec<Vec<char>>) -> (r: bool)
    ensures
        r == key_le(views(a@), views(b@)),
{
    let mut i: usize = 0;
    let ghost va = views(a@);
    let ghost vb = views(b@);
    assert(va.skip(0) =~= va && vb.skip(0) =~= vb);
    while i < a.len() && i < b.len()
        invariant
            va == views(a@),
            vb == views(b@),
            i <= a@.len(),
            i <= b@.len(),
            key_le(va, vb) == key_le(va.skip(i as int), vb.skip(i as int)),
        decreases a.len() - i,
    {
        let forward = chars_le_exec(a[i].as_slice(), b[i].as_slice());
        let backward = chars_le_exec(b[i].as_slice(), a[i].as_slice());
        proof {
            assert(va.skip(i as int)[0] == a@[i as int]@);
            assert(vb.skip(i as int)[0] == b@[i as int]@);
            assert(va.skip(i as int).drop_first() =~= va.skip(i + 1));
            assert(vb.skip(i as int).drop_first() =~= vb.skip(i + 1));
        }
        if !backward {
            return true;
        }
        if !forward {
            return false;
        }
        i = i + 1;
    }
    i == a.len()
}

/// Sorts `(key, item)` pairs by key, keeping the order of equal keys.
pub fn sort_pairs<T>(items: Vec<(Vec<Vec<char>>, T)>) -> (r: Vec<(Vec<Vec<char>>, T)>)
    ensures
        keyed(r@) == sort_by_key(keyed(items@)),
{
    let ghost orig = keyed(items@);
    let mut rest = items;
    let mut out: Vec<(Vec<Vec<char>>, T)> = Vec::new();
    let ghost mut done: int = 0;
    while rest.len() > 0
        invariant
            orig.len() == done + rest@.len(),
            0 <= done <= orig.len(),
            keyed(rest@) == orig.skip(done),
            keyed(out@) == sort_by_key(orig.subrange(0, done)),
        decreases rest.len(),
    {
        let ghost old_rest = rest@;
        let x = rest.remove(0);
        proof {
            assert(keyed(rest@) =~= keyed(old_rest).skip(1));
            assert(orig.skip(done).skip(1) =~= orig.skip(done + 1));
            assert(keyed(old_rest)[0] == orig[done]);
            assert(old_rest[0] == x);
        }
        let ghost kx = views(x.0@);
        let mut k: usize = 0;
        while k < out.len() && key_le_exec(&out[k].0, &x.0)
            invariant
                k <= out@.len(),
                kx == views(x.0@),
                forall|j: int| 0 <= j < k ==> key_le(#[trigger] keyed(out@)[j].0, kx),
            decreases out.len() - k,
        {
            k = k + 1;
        }
        proof {
            let ko = keyed(out@);
            if k < out.len() {
                assert(!key_le(ko[k as int].0, kx));
            }
            lemma_insert_pos_is(ko, kx, k as int);
            let pre = orig.subrange(0, done + 1);
            assert(pre.drop_last() =~= orig.subrange(0, done));
            assert(pre.last() == (kx, x.1));
        }
        let ghost before = out@;
        out.insert(k, x);
        proof {
            assert(keyed(out@) =~= keyed(before).insert(k as int, (kx, x.1)));
            done = done + 1;
        }
    }
    proof {
        assert(orig.subrange(0, done) =~= orig);
    }
    out
}

} // verus!
