//! Copies of lists.

use vstd::prelude::*;

verus! {

/// Whether a list that may be left out holds `items`, and is left out where there are none.
pub open spec fn listed<T>(list: Option<Vec<T>>, items: Seq<T>) -> bool {
    match list {
        None => items.len() == 0,
        Some(list) => items.len() > 0 && list@ == items,
    }
}

pub fn copied<T: Copy>(items: &[T]) -> (copy: Vec<T>)
    ensures
        copy@ == items@,
{
    let mut copy: Vec<T> = Vec::new();
    for i in 0..items.len()
        invariant
            copy@ == items@.take(i as int),
    {
        copy.push(items[i]);
        assert(copy@ =~= items@.take(i + 1));
    }
    assert(items@.take(items@.len() as int) =~= items@);
    copy
}

pub fn copied_texts(texts: &Vec<String>) -> (copy: Vec<String>)
    ensures
        copy@ == texts@,
{
    let mut copy: Vec<String> = Vec::new();
    for i in 0..texts.len()
        invariant
            copy@ == texts@.take(i as int),
    {
        copy.push(texts[i].clone());
        assert(copy@ =~= texts@.take(i + 1));
    }
    assert(texts@.take(texts@.len() as int) =~= texts@);
    copy
}

/// A copy of `items`, or none where there are no items.
pub fn listed_copy<T: Copy>(items: &Vec<T>) -> (list: Option<Vec<T>>)
    ensures
        listed(list, items@),
{
    if items.len() == 0 {
        None
    } else {
        Some(copied(items.as_slice()))
    }
}

/// A copy of `texts`, or none where there are no texts.
pub fn listed_texts(texts: &Vec<String>) -> (list: Option<Vec<String>>)
    ensures
        listed(list, texts@),
{
    if texts.len() == 0 {
        None
    } else {
        Some(copied_texts(texts))
    }
}

/// A list holds its items as they are, and is left out exactly where there are none.
pub proof fn lists_hold_their_items<T>(list: Option<Vec<T>>, items: Seq<T>)
    ensures
        items.len() == 0 ==> (listed(list, items) <==> list is None),
        items.len() > 0 ==> (listed(list, items) <==> (list matches Some(held) && held@ == items)),
{
}

} // verus!
