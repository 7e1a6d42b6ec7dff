use vstd::prelude::*;

verus! {

/// No key occurs twice.
pub open spec fn distinct(keys: Seq<Seq<char>>) -> bool {
    forall|i: int, j: int|
        0 <= i < keys.len() && 0 <= j < keys.len() && i != j ==> #[trigger] keys[i]
            != #[trigger] keys[j]
}

/// The place of `key` among the keys, where it occurs.
pub open spec fn position(keys: Seq<Seq<char>>, key: Seq<char>) -> int {
    choose|i: int| 0 <= i < keys.len() && #[trigger] keys[i] == key
}

/// Among distinct keys, a key found at a place has that place.
pub proof fn lemma_position_unique(keys: Seq<Seq<char>>, i: int)
    requires
        distinct(keys),
        0 <= i < keys.len(),
    ensures
        keys.contains(keys[i]),
        position(keys, keys[i]) == i,
{
    let j = position(keys, keys[i]);
    assert(keys[j] == keys[i]);
}

/// Distinct keys stay distinct when a key that does not occur among them is
/// added at the end.
pub proof fn lemma_push_distinct(keys: Seq<Seq<char>>, key: Seq<char>)
    requires
        distinct(keys),
        !keys.contains(key),
    ensures
        distinct(keys.push(key)),
{
    let next = keys.push(key);
    assert forall|i: int, j: int|
        0 <= i < next.len() && 0 <= j < next.len() && i != j implies #[trigger] next[i]
        != #[trigger] next[j] by {
        if i < keys.len() && j < keys.len() {
            assert(next[i] == keys[i] && next[j] == keys[j]);
        } else if i < keys.len() {
            assert(keys.contains(keys[i]));
        } else {
            assert(keys.contains(keys[j]));
        }
    }
}

/// Something that is kept under a key.
pub trait Keyed: Sized {
    /// The key as the contracts see it.
    spec fn key_view(&self) -> Seq<char>;

    /// The key.
    fn key(&self) -> (key: &String)
        ensures
            key@ == self.key_view(),
    ;
}

/// The keys of a sequence of items, in their order.
pub open spec fn keys_of<T: Keyed>(items: Seq<T>) -> Seq<Seq<char>> {
    items.map_values(|item: T| item.key_view())
}

/// The place of the first item kept under `key`, if there is one.
pub fn find<T: Keyed>(items: &Vec<T>, key: &String) -> (place: Option<usize>)
    ensures
        match place {
            Some(i) => i < items@.len() && keys_of(items@)[i as int] == key@ && keys_of(
                items@,
            ).contains(key@),
            None => !keys_of(items@).contains(key@),
        },
{
    let mut i: usize = 0;
    while i < items.len()
        invariant
            i <= items.len(),
            forall|j: int| 0 <= j < i ==> #[trigger] keys_of(items@)[j] != key@,
        decreases items.len() - i,
    {
        if *items[i].key() == *key {
            assert(keys_of(items@)[i as int] == key@);
            return Some(i);
        }
        i += 1;
    }
    None
}

/// Whether no two items are kept under the same key.
pub fn keys_distinct<T: Keyed>(items: &Vec<T>) -> (ok: bool)
    ensures
        ok == distinct(keys_of(items@)),
{
    let ghost keys = keys_of(items@);
    let mut i: usize = 0;
    while i < items.len()
        invariant
            i <= items.len(),
            keys == keys_of(items@),
            forall|a: int, b: int|
                0 <= a < i && 0 <= b < keys.len() && a != b ==> #[trigger] keys[a] != #[trigger] keys[b],
        decreases items.len() - i,
    {
        let mut j: usize = i + 1;
        while j < items.len()
            invariant
                i < j <= items.len(),
                keys == keys_of(items@),
                forall|b: int| i < b < j ==> keys[i as int] != #[trigger] keys[b],
            decreases items.len() - j,
        {
            if *items[i].key() == *items[j].key() {
                assert(keys[i as int] == keys[j as int]);
                return false;
            }
            j += 1;
        }
        assert forall|a: int, b: int|
            0 <= a < i + 1 && 0 <= b < keys.len() && a != b implies #[trigger] keys[a]
            != #[trigger] keys[b] by {
            if a == i && b < i {
                assert(keys[b] != keys[a]);
            }
        }
        i += 1;
    }
    true
}

/// Texts as the contracts see them.
pub open spec fn text_views(texts: Seq<String>) -> Seq<Seq<char>> {
    texts.map_values(|s: String| s@)
}

/// Whether no text occurs twice.
pub fn texts_distinct(texts: &Vec<String>) -> (ok: bool)
    ensures
        ok == distinct(text_views(texts@)),
{
    let ghost keys = text_views(texts@);
    let mut i: usize = 0;
    while i < texts.len()
        invariant
            i <= texts.len(),
            keys == text_views(texts@),
            forall|a: int, b: int|
                0 <= a < i && 0 <= b < keys.len() && a != b ==> #[trigger] keys[a] != #[trigger] keys[b],
        decreases texts.len() - i,
    {
        let mut j: usize = i + 1;
        while j < texts.len()
            invariant
                i < j <= texts.len(),
                keys == text_views(texts@),
                forall|b: int| i < b < j ==> keys[i as int] != #[trigger] keys[b],
            decreases texts.len() - j,
        {
            if texts[i] == texts[j] {
                assert(keys[i as int] == keys[j as int]);
                return false;
            }
            j += 1;
        }
        assert forall|a: int, b: int|
            0 <= a < i + 1 && 0 <= b < keys.len() && a != b implies #[trigger] keys[a]
            != #[trigger] keys[b] by {
            if a == i && b < i {
                assert(keys[b] != keys[a]);
            }
        }
        i += 1;
    }
    true
}

/// The pairs with `value` kept under `key`, in place of what was kept there,
/// or at the end where nothing was.
pub open spec fn with_pair(
    pairs: Seq<(Seq<char>, Seq<char>)>,
    key: Seq<char>,
    value: Seq<char>,
) -> Seq<(Seq<char>, Seq<char>)> {
    let keys = pairs.map_values(|p: (Seq<char>, Seq<char>)| p.0);
    if keys.contains(key) {
        pairs.update(position(keys, key), (key, value))
    } else {
        pairs.push((key, value))
    }
}

} // verus!
