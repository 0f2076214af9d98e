//! Items under keys, in the order of the keys and one for each.

use vstd::prelude::*;

use crate::ordering;

verus! {

/// Items with the keys that they are ordered and found by.
#[derive(Debug)]
pub struct Keyed<T> {
    keys: Vec<Vec<u32>>,
    items: Vec<T>,
}

impl<T> Keyed<T> {
    /// The keys.
    pub closed spec fn keys(self) -> Seq<Seq<u32>> {
        ordering::key_list(self.keys@)
    }

    /// The items, in the order of their keys.
    pub closed spec fn items(self) -> Seq<T> {
        self.items@
    }

    /// Whether the keys are in order, with one item for each.
    pub open spec fn wf(self) -> bool {
        &&& self.keys().len() == self.items().len()
        &&& ordering::strictly_ascending(self.keys())
    }

    /// No items.
    pub fn new() -> (list: Keyed<T>)
        ensures
            list.wf(),
            list.keys() == Seq::<Seq<u32>>::empty(),
            list.items() == Seq::<T>::empty(),
    {
        let list = Keyed { keys: Vec::new(), items: Vec::new() };
        assert(list.keys() =~= Seq::<Seq<u32>>::empty());
        list
    }

    /// The number of items.
    pub fn len(&self) -> (length: usize)
        ensures
            length == self.items().len(),
    {
        self.items.len()
    }

    /// The item at a position.
    pub fn get(&self, i: usize) -> (item: &T)
        requires
            i < self.items().len(),
        ensures
            *item == self.items()[i as int],
    {
        &self.items[i]
    }

    /// Where an item with a key stands or belongs, and whether there is one.
    pub fn locate(&self, key: &Vec<u32>) -> (result: (usize, bool))
        requires
            self.wf(),
        ensures
            result.0 == ordering::slot(self.keys(), key@),
            result.0 <= self.items().len(),
            result.1 == ordering::is_present(self.keys(), key@),
            result.1 ==> result.0 < self.items().len(),
    {
        let at = ordering::find_slot(&self.keys, key);
        proof {
            ordering::slot_divides(self.keys(), key@);
        }
        let present = at < self.items.len() && ordering::same_words(&self.keys[at], key);
        (at, present)
    }

    /// Adds an item under a key that has none, where it belongs.
    pub fn insert(&mut self, at: usize, key: Vec<u32>, item: T)
        requires
            old(self).wf(),
            at == ordering::slot(old(self).keys(), key@),
            !ordering::is_present(old(self).keys(), key@),
        ensures
            final(self).wf(),
            final(self).keys() == old(self).keys().insert(at as int, key@),
            final(self).items() == old(self).items().insert(at as int, item),
    {
        let ghost keys = self.keys();
        proof {
            ordering::slot_divides(keys, key@);
            ordering::insert_keeps_order(keys, key@);
        }
        self.keys.insert(at, key);
        self.items.insert(at, item);
        assert(self.keys() =~= keys.insert(at as int, key@));
    }

    /// Puts an item in the place of another with the same key.
    pub fn replace(&mut self, at: usize, item: T)
        requires
            old(self).wf(),
            at < old(self).items().len(),
        ensures
            final(self).wf(),
            final(self).keys() == old(self).keys(),
            final(self).items() == old(self).items().update(at as int, item),
    {
        self.items.set(at, item);
    }

    /// The item at a position, to be changed.
    pub fn get_mut(&mut self, i: usize) -> (item: &mut T)
        requires
            old(self).wf(),
            i < old(self).items().len(),
        ensures
            *item == old(self).items()[i as int],
            final(self).wf(),
            final(self).keys() == old(self).keys(),
            final(self).items() == old(self).items().update(i as int, *final(item)),
    {
        &mut self.items[i]
    }

    /// The items, in the order of their keys.
    pub fn into_items(self) -> (items: Vec<T>)
        ensures
            items@ == self.items(),
    {
        self.items
    }
}

/// The item under a key.
pub open spec fn item_at<T>(keys: Seq<Seq<u32>>, items: Seq<T>, key: Seq<u32>) -> Option<T> {
    if ordering::is_present(keys, key) {
        Some(items[ordering::slot(keys, key)])
    } else {
        None
    }
}

/// In strictly ascending keys one key stands at one position.
pub proof fn one_position(keys: Seq<Seq<u32>>, i: int, j: int)
    requires
        ordering::strictly_ascending(keys),
        0 <= i < keys.len(),
        0 <= j < keys.len(),
        keys[i] == keys[j],
    ensures
        i == j,
{
    if i < j {
        assert(ordering::lex_lt(keys[i], keys[j]));
    } else if j < i {
        assert(ordering::lex_lt(keys[j], keys[i]));
    }
}

/// What is found under a key once an item is added.
pub proof fn found_after_insert<T>(
    keys: Seq<Seq<u32>>,
    items: Seq<T>,
    own: Seq<u32>,
    item: T,
    key: Seq<u32>,
)
    requires
        ordering::strictly_ascending(keys),
        keys.len() == items.len(),
        !ordering::is_present(keys, own),
    ensures
        ordering::strictly_ascending(keys.insert(ordering::slot(keys, own), own)),
        item_at(
            keys.insert(ordering::slot(keys, own), own),
            items.insert(ordering::slot(keys, own), item),
            key,
        ) == (if key == own {
            Some(item)
        } else {
            item_at(keys, items, key)
        }),
{
    let at = ordering::slot(keys, own);
    ordering::slot_divides(keys, own);
    ordering::insert_keeps_order(keys, own);
    let after_keys = keys.insert(at, own);
    let after = items.insert(at, item);
    ordering::slot_divides(keys, key);
    ordering::slot_divides(after_keys, key);
    ordering::present_where_contained(after_keys, key);
    ordering::present_where_contained(keys, key);
    if key == own {
        assert(after_keys[at] == own);
        assert(after_keys.contains(own));
        one_position(after_keys, at, ordering::slot(after_keys, own));
    } else if ordering::is_present(keys, key) {
        let s = ordering::slot(keys, key);
        let t = if s < at { s } else { s + 1 };
        assert(after_keys[t] == key);
        assert(after_keys.contains(key));
        one_position(after_keys, t, ordering::slot(after_keys, key));
        assert(after[t] == items[s]);
    } else if ordering::is_present(after_keys, key) {
        let t = ordering::slot(after_keys, key);
        let s = if t < at { t } else { t - 1 };
        assert(t != at);
        assert(keys[s] == key);
        assert(keys.contains(key));
    }
}

/// What is found under a key once an item is replaced.
pub proof fn found_after_replace<T>(
    keys: Seq<Seq<u32>>,
    items: Seq<T>,
    own: Seq<u32>,
    item: T,
    key: Seq<u32>,
)
    requires
        ordering::strictly_ascending(keys),
        keys.len() == items.len(),
        ordering::is_present(keys, own),
    ensures
        item_at(keys, items.update(ordering::slot(keys, own), item), key) == (if key == own {
            Some(item)
        } else {
            item_at(keys, items, key)
        }),
{
    ordering::slot_divides(keys, own);
    ordering::slot_divides(keys, key);
}

} // verus!
