use vstd::prelude::*;
use crate::keyed::{keys_of, Keyed};
use vstd::utf8::{encode_utf8, encode_utf8_decode_utf8};

verus! {

/// Whether `a` comes before `b` when byte strings are ordered by their first
/// difference, a string before its extensions.
pub open spec fn bytes_less(a: Seq<u8>, b: Seq<u8>) -> bool
    decreases a.len(),
{
    if b.len() == 0 {
        false
    } else if a.len() == 0 {
        true
    } else if a[0] != b[0] {
        a[0] < b[0]
    } else {
        bytes_less(a.skip(1), b.skip(1))
    }
}

/// Whether the text `a` comes before the text `b`: texts are ordered as
/// their bytes are.
pub open spec fn text_less(a: Seq<char>, b: Seq<char>) -> bool {
    bytes_less(encode_utf8(a), encode_utf8(b))
}

/// The texts stand in strictly ascending order.
pub open spec fn ascending(keys: Seq<Seq<char>>) -> bool {
    forall|i: int, j: int|
        0 <= i < j < keys.len() ==> text_less(#[trigger] keys[i], #[trigger] keys[j])
}

/// No byte string comes before itself.
pub proof fn lemma_bytes_less_irreflexive(a: Seq<u8>)
    ensures
        !bytes_less(a, a),
    decreases a.len(),
{
    if a.len() > 0 {
        lemma_bytes_less_irreflexive(a.skip(1));
    }
}

/// The order of byte strings is transitive.
pub proof fn lemma_bytes_less_transitive(a: Seq<u8>, b: Seq<u8>, c: Seq<u8>)
    requires
        bytes_less(a, b),
        bytes_less(b, c),
    ensures
        bytes_less(a, c),
    decreases a.len(),
{
    if a.len() > 0 && a[0] == b[0] && b[0] == c[0] {
        lemma_bytes_less_transitive(a.skip(1), b.skip(1), c.skip(1));
    }
}

/// Of two different byte strings one comes before the other.
pub proof fn lemma_bytes_less_total(a: Seq<u8>, b: Seq<u8>)
    requires
        a != b,
    ensures
        bytes_less(a, b) || bytes_less(b, a),
    decreases a.len(),
{
    if a.len() > 0 && b.len() > 0 && a[0] == b[0] {
        if a.skip(1) == b.skip(1) {
            assert(a =~= seq![a[0]] + a.skip(1));
            assert(b =~= seq![b[0]] + b.skip(1));
        }
        lemma_bytes_less_total(a.skip(1), b.skip(1));
    } else if a.len() == 0 && b.len() == 0 {
        assert(a =~= b);
    }
}

/// No text comes before itself, and a text that comes before another is a
/// different text.
pub proof fn lemma_text_less_irreflexive(a: Seq<char>, b: Seq<char>)
    requires
        text_less(a, b),
    ensures
        a != b,
{
    lemma_bytes_less_irreflexive(encode_utf8(a));
}

/// The order of texts is transitive.
pub proof fn lemma_text_less_transitive(a: Seq<char>, b: Seq<char>, c: Seq<char>)
    requires
        text_less(a, b),
        text_less(b, c),
    ensures
        text_less(a, c),
{
    lemma_bytes_less_transitive(encode_utf8(a), encode_utf8(b), encode_utf8(c));
}

/// Of two different texts one comes before the other.
pub proof fn lemma_text_less_total(a: Seq<char>, b: Seq<char>)
    requires
        a != b,
    ensures
        text_less(a, b) || text_less(b, a),
{
    encode_utf8_decode_utf8(a);
    encode_utf8_decode_utf8(b);
    lemma_bytes_less_total(encode_utf8(a), encode_utf8(b));
}

/// Texts in ascending order are distinct.
pub proof fn lemma_ascending_distinct(keys: Seq<Seq<char>>)
    requires
        ascending(keys),
    ensures
        crate::keyed::distinct(keys),
{
    assert forall|i: int, j: int|
        0 <= i < keys.len() && 0 <= j < keys.len() && i != j implies #[trigger] keys[i]
        != #[trigger] keys[j] by {
        if i < j {
            lemma_text_less_irreflexive(keys[i], keys[j]);
        } else {
            lemma_text_less_irreflexive(keys[j], keys[i]);
        }
    }
}

/// Whether `a` comes before `b`.
pub fn less(a: &String, b: &String) -> (before: bool)
    ensures
        before == text_less(a@, b@),
{
    let x = a.as_str().as_bytes();
    let y = b.as_str().as_bytes();
    let mut i: usize = 0;
    assert(x@.skip(0) =~= x@ && y@.skip(0) =~= y@);
    while i < x.len() && i < y.len()
        invariant
            i <= x@.len(),
            i <= y@.len(),
            x@ == encode_utf8(a@),
            y@ == encode_utf8(b@),
            bytes_less(x@, y@) == bytes_less(x@.skip(i as int), y@.skip(i as int)),
        decreases x@.len() - i,
    {
        proof {
            assert(x@.skip(i as int).skip(1) =~= x@.skip(i + 1));
            assert(y@.skip(i as int).skip(1) =~= y@.skip(i + 1));
        }
        if x[i] != y[i] {
            return x[i] < y[i];
        }
        i += 1;
    }
    i < y.len()
}

/// Texts of which each comes before the next stand in ascending order.
pub proof fn lemma_neighbours_ascending(keys: Seq<Seq<char>>)
    requires
        forall|i: int| 0 <= i < keys.len() - 1 ==> text_less(#[trigger] keys[i], keys[i + 1]),
    ensures
        ascending(keys),
{
    assert forall|i: int, j: int| 0 <= i < j < keys.len() implies text_less(
        #[trigger] keys[i],
        #[trigger] keys[j],
    ) by {
        lemma_reaches(keys, i, j);
    }
}

/// Among texts of which each comes before the next, each comes before all
/// that follow.
proof fn lemma_reaches(keys: Seq<Seq<char>>, i: int, j: int)
    requires
        forall|k: int| 0 <= k < keys.len() - 1 ==> text_less(#[trigger] keys[k], keys[k + 1]),
        0 <= i < j < keys.len(),
    ensures
        text_less(keys[i], keys[j]),
    decreases j - i,
{
    if j > i + 1 {
        lemma_reaches(keys, i, j - 1);
        assert(text_less(keys[j - 1], keys[j - 1 + 1]));
        lemma_text_less_transitive(keys[i], keys[j - 1], keys[j]);
    } else {
        assert(text_less(keys[i], keys[i + 1]));
    }
}

/// Whether the keys of the items stand in strictly ascending order.
pub fn keys_ascending<T: Keyed>(items: &Vec<T>) -> (ok: bool)
    ensures
        ok == ascending(keys_of(items@)),
{
    let ghost keys = keys_of(items@);
    let mut i: usize = 1;
    while i < items.len()
        invariant
            1 <= i,
            keys == keys_of(items@),
            forall|k: int| 0 <= k < i - 1 && k < keys.len() - 1 ==> text_less(#[trigger] keys[k], keys[k + 1]),
        decreases items.len() - i,
    {
        if !less(items[i - 1].key(), items[i].key()) {
            assert(!text_less(keys[i - 1], keys[i as int]));
            return false;
        }
        i += 1;
    }
    proof {
        lemma_neighbours_ascending(keys);
    }
    true
}

} // verus!
