//! Items of the key-value store that holds the user records: attribute
//! values, and items as attributes under their names.

use crate::error::{ErrorView, ResponseError};
use crate::text::{same_text, texts_of};
use vstd::prelude::*;

verus! {

/// One attribute of a stored item: a text, a set of texts, or neither.
pub struct AttributeValue {
    pub s: Option<String>,
    pub ss: Option<Vec<String>>,
}

/// An `AttributeValue` as a mathematical value.
pub struct AttributeView {
    pub s: Option<Seq<char>>,
    pub ss: Option<Seq<Seq<char>>>,
}

impl View for AttributeValue {
    type V = AttributeView;

    open spec fn view(&self) -> AttributeView {
        AttributeView {
            s: match self.s {
                Some(v) => Some(v@),
                None => None,
            },
            ss: match self.ss {
                Some(v) => Some(texts_of(v@)),
                None => None,
            },
        }
    }
}

/// The text held by `att`, or the error for an attribute that holds none.
pub open spec fn string_of(att: AttributeView) -> Result<Seq<char>, ErrorView> {
    match att.s {
        Some(v) => Ok(v),
        None => Err(ErrorView::DbError("not of type string"@)),
    }
}

/// The texts held by `att`, or the error for an attribute that holds no set.
pub open spec fn string_set_of(att: AttributeView) -> Result<Seq<Seq<char>>, ErrorView> {
    match att.ss {
        Some(v) => Ok(v),
        None => Err(ErrorView::DbError("not of type string set"@)),
    }
}

/// A copy of every text in `v`, in order.
pub fn copy_texts(v: &Vec<String>) -> (out: Vec<String>)
    ensures
        texts_of(out@) == texts_of(v@),
{
    let mut out: Vec<String> = Vec::new();
    let mut i: usize = 0;
    while i < v.len()
        invariant
            i <= v.len(),
            out.len() == i,
            forall|k: int| 0 <= k < i ==> out@[k]@ == v@[k]@,
        decreases v.len() - i,
    {
        out.push(v[i].clone());
        i += 1;
    }
    assert(texts_of(out@) =~= texts_of(v@));
    out
}

impl AttributeValue {
    /// The text that the attribute holds.
    pub fn get_string(&self) -> (r: Result<String, ResponseError>)
        ensures
            match string_of(self@) {
                Ok(v) => r is Ok && r->Ok_0@ == v,
                Err(e) => r is Err && r->Err_0@ == e,
            },
    {
        match &self.s {
            Some(v) => Ok(v.clone()),
            None => Err(ResponseError::DbError("not of type string".to_owned())),
        }
    }

    /// An attribute that holds the text `value`.
    pub fn from_string(value: String) -> (att: AttributeValue)
        ensures
            att@ == (AttributeView { s: Some(value@), ss: None }),
    {
        AttributeValue { s: Some(value), ss: None }
    }

    /// The texts that the attribute holds as a set.
    pub fn get_string_set(&self) -> (r: Result<Vec<String>, ResponseError>)
        ensures
            match string_set_of(self@) {
                Ok(v) => r is Ok && texts_of(r->Ok_0@) == v,
                Err(e) => r is Err && r->Err_0@ == e,
            },
    {
        match &self.ss {
            Some(v) => Ok(copy_texts(v)),
            None => Err(ResponseError::DbError("not of type string set".to_owned())),
        }
    }

    /// An attribute that holds the texts `value` as a set.
    pub fn from_string_set(value: Vec<String>) -> (att: AttributeValue)
        ensures
            att@ == (AttributeView { s: None, ss: Some(texts_of(value@)) }),
    {
        AttributeValue { s: None, ss: Some(value) }
    }
}

/// A stored item: attributes under their names. Where a name occurs more
/// than once, its first entry counts.
pub struct Item {
    pub entries: Vec<(String, AttributeValue)>,
}

impl View for Item {
    type V = Seq<(Seq<char>, AttributeView)>;

    open spec fn view(&self) -> Seq<(Seq<char>, AttributeView)> {
        Seq::new(self.entries@.len(), |i: int| (self.entries@[i].0@, self.entries@[i].1@))
    }
}

/// The attribute that `item` holds under `key`.
pub open spec fn attribute(item: Seq<(Seq<char>, AttributeView)>, key: Seq<char>) -> Option<
    AttributeView,
>
    decreases item.len(),
{
    if item.len() == 0 {
        None
    } else if item[0].0 == key {
        Some(item[0].1)
    } else {
        attribute(item.drop_first(), key)
    }
}

/// The error for an item without an attribute named `key`.
pub open spec fn not_in_map(key: Seq<char>) -> ErrorView {
    ErrorView::DbError(key + " not in map"@)
}

/// The text that `item` holds under `key`.
pub open spec fn string_attribute(item: Seq<(Seq<char>, AttributeView)>, key: Seq<char>) -> Result<
    Seq<char>,
    ErrorView,
> {
    match attribute(item, key) {
        Some(att) => string_of(att),
        None => Err(not_in_map(key)),
    }
}

/// The set of texts that `item` holds under `key`.
pub open spec fn string_set_attribute(
    item: Seq<(Seq<char>, AttributeView)>,
    key: Seq<char>,
) -> Result<Seq<Seq<char>>, ErrorView> {
    match attribute(item, key) {
        Some(att) => string_set_of(att),
        None => Err(not_in_map(key)),
    }
}

impl Item {
    /// An item without attributes.
    pub fn new() -> (item: Item)
        ensures
            item@ == Seq::<(Seq<char>, AttributeView)>::empty(),
    {
        let item = Item { entries: Vec::new() };
        assert(item@ =~= Seq::<(Seq<char>, AttributeView)>::empty());
        item
    }

    /// Adds the attribute `value` under `key`, behind the entries so far.
    pub fn insert(&mut self, key: String, value: AttributeValue)
        ensures
            final(self)@ == old(self)@.push((key@, value@)),
    {
        self.entries.push((key, value));
        assert(self@ =~= old(self)@.push((key@, value@)));
    }

    /// The attribute under `key`, where there is one.
    pub fn get(&self, key: &str) -> (r: Option<&AttributeValue>)
        ensures
            match attribute(self@, key@) {
                Some(att) => r is Some && r->Some_0@ == att,
                None => r is None,
            },
    {
        let mut i: usize = 0;
        assert(self@.skip(0) =~= self@);
        while i < self.entries.len()
            invariant
                i <= self.entries.len(),
                attribute(self@, key@) == attribute(self@.skip(i as int), key@),
            decreases self.entries.len() - i,
        {
            let ghost rest = self@.skip(i as int);
            assert(rest[0] == self@[i as int]);
            if same_text(self.entries[i].0.as_str(), key) {
                return Some(&self.entries[i].1);
            }
            assert(rest.drop_first() =~= self@.skip(i + 1));
            i += 1;
        }
        assert(self@.skip(i as int).len() == 0);
        None
    }

    /// The text under `key`.
    pub fn get_string_att_value(&self, key: &str) -> (r: Result<String, ResponseError>)
        ensures
            match string_attribute(self@, key@) {
                Ok(v) => r is Ok && r->Ok_0@ == v,
                Err(e) => r is Err && r->Err_0@ == e,
            },
    {
        match self.get(key) {
            Some(att) => att.get_string(),
            None => Err(missing_attribute(key)),
        }
    }

    /// The set of texts under `key`.
    pub fn get_string_set_att_value(&self, key: &str) -> (r: Result<Vec<String>, ResponseError>)
        ensures
            match string_set_attribute(self@, key@) {
                Ok(v) => r is Ok && texts_of(r->Ok_0@) == v,
                Err(e) => r is Err && r->Err_0@ == e,
            },
    {
        match self.get(key) {
            Some(att) => att.get_string_set(),
            None => Err(missing_attribute(key)),
        }
    }
}

/// The error for an item without an attribute named `key`.
fn missing_attribute(key: &str) -> (e: ResponseError)
    ensures
        e@ == not_in_map(key@),
{
    let mut text = key.to_owned();
    text.append(" not in map");
    ResponseError::DbError(text)
}

} // verus!
