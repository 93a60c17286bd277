//! Branch names, their order, and the sorted branch list.

use vstd::prelude::*;
use vstd::utf8::{encode_utf8, encode_utf8_decode_utf8};

verus! {

/// The bytes of a name: its UTF-8 encoding, which is what `str`'s order compares.
pub open spec fn name_bytes(s: Seq<char>) -> Seq<u8> {
    encode_utf8(s)
}

/// Strict lexicographic order on byte strings.
pub open spec fn bytes_lt(a: Seq<u8>, b: Seq<u8>) -> bool
    decreases a.len(),
{
    if a.len() == 0 {
        b.len() > 0
    } else if b.len() == 0 {
        false
    } else if a[0] != b[0] {
        a[0] < b[0]
    } else {
        bytes_lt(a.drop_first(), b.drop_first())
    }
}

/// Strict order on branch names: byte-wise lexicographic, as `str` orders them.
pub open spec fn name_lt(a: Seq<char>, b: Seq<char>) -> bool {
    bytes_lt(name_bytes(a), name_bytes(b))
}

/// What a sequence of strings holds, as character sequences.
pub open spec fn views(v: Seq<String>) -> Seq<Seq<char>> {
    v.map_values(|s: String| s@)
}

/// A branch list: strictly increasing in name order.
pub open spec fn is_branch_list(s: Seq<Seq<char>>) -> bool {
    forall|i: int, j: int| 0 <= i < j < s.len() ==> name_lt(#[trigger] s[i], #[trigger] s[j])
}

/// No name occurs twice.
pub open spec fn no_duplicates(s: Seq<Seq<char>>) -> bool {
    forall|i: int, j: int|
        0 <= i < s.len() && 0 <= j < s.len() && i != j ==> #[trigger] s[i] != #[trigger] s[j]
}

proof fn lemma_bytes_lt_irreflexive(a: Seq<u8>)
    ensures
        !bytes_lt(a, a),
    decreases a.len(),
{
    if a.len() > 0 {
        lemma_bytes_lt_irreflexive(a.drop_first());
    }
}

proof fn lemma_bytes_lt_transitive(a: Seq<u8>, b: Seq<u8>, c: Seq<u8>)
    requires
        bytes_lt(a, b),
        bytes_lt(b, c),
    ensures
        bytes_lt(a, c),
    decreases a.len(),
{
    if a.len() > 0 && b.len() > 0 && c.len() > 0 && a[0] == b[0] && b[0] == c[0] {
        lemma_bytes_lt_transitive(a.drop_first(), b.drop_first(), c.drop_first());
    }
}

proof fn lemma_bytes_lt_total(a: Seq<u8>, b: Seq<u8>)
    requires
        a != b,
    ensures
        bytes_lt(a, b) || bytes_lt(b, a),
    decreases a.len(),
{
    if a.len() == 0 && b.len() == 0 {
        assert(a =~= b);
    }
    if a.len() > 0 && b.len() > 0 && a[0] == b[0] {
        if a.drop_first() == b.drop_first() {
            assert(a.len() == b.len()) by {
                assert(a.drop_first().len() == b.drop_first().len());
            }
            assert(a =~= b) by {
                assert forall|i: int| 0 <= i < a.len() implies a[i] == b[i] by {
                    if i > 0 {
                        assert(a[i] == a.drop_first()[i - 1]);
                        assert(b[i] == b.drop_first()[i - 1]);
                    }
                }
            }
        }
        lemma_bytes_lt_total(a.drop_first(), b.drop_first());
    }
}

/// Comparing two byte strings past a common prefix of length `k`.
proof fn lemma_bytes_lt_past_prefix(a: Seq<u8>, b: Seq<u8>, k: int)
    requires
        0 <= k <= a.len(),
        k <= b.len(),
        forall|i: int| 0 <= i < k ==> a[i] == b[i],
    ensures
        bytes_lt(a, b) == bytes_lt(a.subrange(k, a.len() as int), b.subrange(k, b.len() as int)),
    decreases k,
{
    if k == 0 {
        assert(a.subrange(0, a.len() as int) =~= a);
        assert(b.subrange(0, b.len() as int) =~= b);
    } else {
        lemma_bytes_lt_past_prefix(a.drop_first(), b.drop_first(), k - 1);
        assert(a.drop_first().subrange(k - 1, a.len() - 1) =~= a.subrange(k, a.len() as int));
        assert(b.drop_first().subrange(k - 1, b.len() - 1) =~= b.subrange(k, b.len() as int));
    }
}

/// No name is below itself.
pub proof fn lemma_name_lt_irreflexive(a: Seq<char>)
    ensures
        !name_lt(a, a),
{
    lemma_bytes_lt_irreflexive(name_bytes(a));
}

/// The name order is transitive.
pub proof fn lemma_name_lt_transitive(a: Seq<char>, b: Seq<char>, c: Seq<char>)
    requires
        name_lt(a, b),
        name_lt(b, c),
    ensures
        name_lt(a, c),
{
    lemma_bytes_lt_transitive(name_bytes(a), name_bytes(b), name_bytes(c));
}

/// Of two different names, one is below the other.
pub proof fn lemma_name_lt_total(a: Seq<char>, b: Seq<char>)
    requires
        a != b,
    ensures
        name_lt(a, b) || name_lt(b, a),
{
    if name_bytes(a) == name_bytes(b) {
        encode_utf8_decode_utf8(a);
        encode_utf8_decode_utf8(b);
    }
    lemma_bytes_lt_total(name_bytes(a), name_bytes(b));
}

/// A branch list holds each name at most once.
pub proof fn lemma_branch_list_has_no_duplicates(s: Seq<Seq<char>>)
    requires
        is_branch_list(s),
    ensures
        no_duplicates(s),
{
    assert forall|i: int, j: int|
        0 <= i < s.len() && 0 <= j < s.len() && i != j implies #[trigger] s[i] != #[trigger] s[j] by {
        if i < j {
            lemma_name_lt_irreflexive(s[i]);
        } else {
            lemma_name_lt_irreflexive(s[j]);
        }
    }
}

/// Whether `a` comes strictly before `b` in name order.
pub fn name_less(a: &str, b: &str) -> (r: bool)
    ensures
        r == name_lt(a@, b@),
{
    let x = a.as_bytes();
    let y = b.as_bytes();
    let ghost xs = name_bytes(a@);
    let ghost ys = name_bytes(b@);
    assert(x@ == xs && y@ == ys);
    let mut i: usize = 0;
    while i < x.len() && i < y.len()
        invariant
            i <= x@.len(),
            i <= y@.len(),
            x@ == xs,
            y@ == ys,
            xs == name_bytes(a@),
            ys == name_bytes(b@),
            forall|k: int| 0 <= k < i ==> xs[k] == ys[k],
        decreases x@.len() - i,
    {
        let xi = x[i];
        let yi = y[i];
        if xi != yi {
            proof {
                lemma_bytes_lt_past_prefix(xs, ys, i as int);
                let rx = xs.subrange(i as int, xs.len() as int);
                let ry = ys.subrange(i as int, ys.len() as int);
                assert(rx[0] == xs[i as int] && ry[0] == ys[i as int]);
                assert(rx.len() > 0 && ry.len() > 0 && rx[0] != ry[0]);
                assert(bytes_lt(rx, ry) == (rx[0] < ry[0]));
            }
            assert(xi == xs[i as int] && yi == ys[i as int]);
            return xi < yi;
        }
        i = i + 1;
    }
    proof {
        lemma_bytes_lt_past_prefix(xs, ys, i as int);
    }
    i < y.len()
}

/// Adds `name` to a branch list, at its place in name order; a name already
/// in the list leaves it as it was.
pub fn insert_name(names: &mut Vec<String>, name: String)
    requires
        is_branch_list(views(old(names)@)),
    ensures
        is_branch_list(views(final(names)@)),
        forall|x: Seq<char>|
            views(final(names)@).contains(x) <==> (views(old(names)@).contains(x) || x == name@),
        views(old(names)@).contains(name@) ==> final(names)@ == old(names)@,
{
    let ghost before = views(names@);
    let mut p: usize = 0;
    let mut found = false;
    while !found && p < names.len()
        invariant
            p <= names@.len(),
            found ==> p < names@.len() && !name_lt(before[p as int], name@),
            views(names@) == before,
            is_branch_list(before),
            forall|i: int| 0 <= i < p ==> name_lt(#[trigger] before[i], name@),
        decreases names@.len() - p, (if found { 0int } else { 1int }),
    {
        if name_less(names[p].as_str(), name.as_str()) {
            p = p + 1;
        } else {
            found = true;
        }
    }
    assert(forall|i: int| 0 <= i < names@.len() ==> #[trigger] before[i] == names@[i]@);
    if p < names.len() && names[p] == name {
        assert(before.contains(name@)) by {
            assert(before[p as int] == name@);
        }
        return;
    }
    proof {
        if p < before.len() {
            lemma_name_lt_total(before[p as int], name@);
            assert forall|j: int| p <= j < before.len() implies name_lt(name@, #[trigger] before[j]) by {
                if j > p {
                    lemma_name_lt_transitive(name@, before[p as int], before[j]);
                }
            }
        }
        assert(!before.contains(name@)) by {
            if before.contains(name@) {
                let k = choose|k: int| 0 <= k < before.len() && before[k] == name@;
                lemma_name_lt_irreflexive(name@);
            }
        }
    }
    let ghost nm = name@;
    names.insert(p, name);
    proof {
        let after = views(names@);
        assert(after =~= before.insert(p as int, nm));
        assert forall|i: int, j: int| 0 <= i < j < after.len() implies name_lt(
            #[trigger] after[i],
            #[trigger] after[j],
        ) by {
            if j < p {
            } else if j == p {
                assert(after[i] == before[i]);
            } else if i < p {
                assert(after[j] == before[j - 1]);
                lemma_name_lt_transitive(before[i], nm, before[j - 1]);
            } else if i == p {
                assert(after[j] == before[j - 1]);
            } else {
                assert(after[i] == before[i - 1] && after[j] == before[j - 1]);
            }
        }
        assert forall|x: Seq<char>| after.contains(x) <==> (before.contains(x) || x == nm) by {
            if after.contains(x) {
                let k = choose|k: int| 0 <= k < after.len() && after[k] == x;
                if k < p {
                    assert(before[k] == x);
                } else if k > p {
                    assert(before[k - 1] == x);
                }
            }
            if before.contains(x) {
                let k = choose|k: int| 0 <= k < before.len() && before[k] == x;
                if k < p {
                    assert(after[k] == x);
                } else {
                    assert(after[k + 1] == x);
                }
            }
            if x == nm {
                assert(after[p as int] == x);
            }
        }
    }
}

} // verus!
