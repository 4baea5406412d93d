//! An insertion-ordered mapping from property names to spanned values, with
//! unique keys and last-write-wins insertion. Its mathematical view is a
//! `Map` from the name's characters to the value and its span.

use vstd::prelude::*;

use crate::chars::chars_eq;
use crate::chars::str_to_chars;
use crate::nodes::Value;
use crate::nodes::ValueV;
use crate::spans::Span;
use crate::spans::Spanned;

verus! {

/// The map that an entry sequence denotes: later entries win.
pub open spec fn map_of(entries: Seq<(String, Spanned<Value>)>) -> Map<
    Seq<char>,
    (ValueV, Span),
>
    decreases entries.len(),
{
    if entries.len() == 0 {
        Map::empty()
    } else {
        map_of(entries.drop_last()).insert(
            entries.last().0@,
            (entries.last().1.item@, entries.last().1.span),
        )
    }
}

/// No two entries share a key.
pub open spec fn unique_keys(entries: Seq<(String, Spanned<Value>)>) -> bool {
    forall|i: int, j: int|
        0 <= i < j < entries.len() ==> (#[trigger] entries[i]).0@ != (#[trigger] entries[j]).0@
}

proof fn lemma_map_of_none(entries: Seq<(String, Spanned<Value>)>, name: Seq<char>)
    requires
        forall|i: int| 0 <= i < entries.len() ==> (#[trigger] entries[i]).0@ != name,
    ensures
        !map_of(entries).contains_key(name),
    decreases entries.len(),
{
    if entries.len() > 0 {
        lemma_map_of_none(entries.drop_last(), name);
    }
}

proof fn lemma_map_of_get(entries: Seq<(String, Spanned<Value>)>, k: int)
    requires
        unique_keys(entries),
        0 <= k < entries.len(),
    ensures
        map_of(entries).contains_key(entries[k].0@),
        map_of(entries)[entries[k].0@] == (entries[k].1.item@, entries[k].1.span),
    decreases entries.len(),
{
    if k == entries.len() - 1 {
    } else {
        lemma_map_of_get(entries.drop_last(), k);
    }
}

proof fn lemma_map_of_update(
    entries: Seq<(String, Spanned<Value>)>,
    k: int,
    name: String,
    value: Spanned<Value>,
)
    requires
        unique_keys(entries),
        0 <= k < entries.len(),
        entries[k].0@ == name@,
    ensures
        map_of(entries.update(k, (name, value))) == map_of(entries).insert(
            name@,
            (value.item@, value.span),
        ),
        unique_keys(entries.update(k, (name, value))),
    decreases entries.len(),
{
    let e2 = entries.update(k, (name, value));
    let vv = (value.item@, value.span);
    assert forall|i: int, j: int| 0 <= i < j < e2.len() implies (#[trigger] e2[i]).0@ != (
    #[trigger] e2[j]).0@ by {
        assert(entries[i].0@ != entries[j].0@);
    }
    if k == entries.len() - 1 {
        assert(e2.drop_last() =~= entries.drop_last());
        assert(map_of(entries.drop_last()).insert(entries.last().0@, (entries.last().1.item@,
        entries.last().1.span)).insert(name@, vv) =~= map_of(entries.drop_last()).insert(
            name@,
            vv,
        ));
    } else {
        assert(e2.drop_last() =~= entries.drop_last().update(k, (name, value)));
        lemma_map_of_update(entries.drop_last(), k, name, value);
        let lastkey = entries.last().0@;
        let lastvv = (entries.last().1.item@, entries.last().1.span);
        assert(entries[k].0@ == name@ && entries[entries.len() - 1].0@ == lastkey);
        assert(lastkey != name@);
        assert(e2.last() == entries.last());
        assert(map_of(entries.drop_last()).insert(name@, vv).insert(lastkey, lastvv)
            =~= map_of(entries.drop_last()).insert(lastkey, lastvv).insert(name@, vv));
    }
}

proof fn lemma_map_of_dom_len(entries: Seq<(String, Spanned<Value>)>)
    requires
        unique_keys(entries),
    ensures
        map_of(entries).dom().finite(),
        map_of(entries).dom().len() == entries.len(),
    decreases entries.len(),
{
    if entries.len() > 0 {
        lemma_map_of_dom_len(entries.drop_last());
        lemma_map_of_none(entries.drop_last(), entries.last().0@);
    }
}

/// Element properties: an insertion-ordered map with unique keys where a
/// repeated insertion overwrites the earlier value.
#[derive(Clone, Debug)]
pub struct PropMap {
    entries: Vec<(String, Spanned<Value>)>,
}

impl View for PropMap {
    type V = Map<Seq<char>, (ValueV, Span)>;

    closed spec fn view(&self) -> Map<Seq<char>, (ValueV, Span)> {
        map_of(self.entries@)
    }
}

impl PropMap {
    /// All entry keys are distinct.
    pub closed spec fn wf(&self) -> bool {
        unique_keys(self.entries@)
    }

    /// An empty property map.
    pub fn new() -> (r: PropMap)
        ensures
            r.wf(),
            r@ == Map::<Seq<char>, (ValueV, Span)>::empty(),
    {
        PropMap { entries: Vec::new() }
    }

    /// Binds `name` to `value`. A name already present keeps its place but
    /// takes the new value: the last write wins.
    pub fn insert(&mut self, name: String, value: Spanned<Value>)
        requires
            old(self).wf(),
        ensures
            final(self).wf(),
            final(self)@ == old(self)@.insert(name@, (value.item@, value.span)),
    {
        let n: usize = self.entries.len();
        let mut i: usize = 0;
        while i < n
            invariant
                self.wf(),
                i <= n == self.entries@.len(),
                self == old(self),
                forall|j: int| 0 <= j < i ==> (#[trigger] self.entries@[j]).0@ != name@,
            decreases n - i,
        {
            if self.entries[i].0 == name {
                proof {
                    lemma_map_of_update(self.entries@, i as int, name, value);
                }
                self.entries.set(i, (name, value));
                return;
            }
            i = i + 1;
        }
        proof {
            assert(self.entries@.push((name, value)).drop_last() =~= self.entries@);
            lemma_map_of_none(self.entries@, name@);
        }
        self.entries.push((name, value));
    }

    /// The value bound to `name`, if any.
    pub fn get(&self, name: &str) -> (r: Option<&Spanned<Value>>)
        requires
            self.wf(),
        ensures
            match r {
                Some(v) => self@.contains_key(name@) && self@[name@] == (v.item@, v.span),
                None => !self@.contains_key(name@),
            },
    {
        let key = str_to_chars(name);
        let n: usize = self.entries.len();
        let mut i: usize = 0;
        while i < n
            invariant
                self.wf(),
                i <= n == self.entries@.len(),
                key@ == name@,
                forall|j: int| 0 <= j < i ==> (#[trigger] self.entries@[j]).0@ != name@,
            decreases n - i,
        {
            let entry_key = str_to_chars(self.entries[i].0.as_str());
            if chars_eq(&entry_key, &key) {
                proof {
                    lemma_map_of_get(self.entries@, i as int);
                }
                return Some(&self.entries[i].1);
            }
            i = i + 1;
        }
        proof {
            lemma_map_of_none(self.entries@, name@);
        }
        None
    }

    /// Whether `name` is bound.
    pub fn contains_key(&self, name: &str) -> (r: bool)
        requires
            self.wf(),
        ensures
            r == self@.contains_key(name@),
    {
        match self.get(name) {
            Some(_) => true,
            None => false,
        }
    }

    /// How many names are bound.
    pub fn len(&self) -> (n: usize)
        requires
            self.wf(),
        ensures
            self@.dom().finite(),
            n == self@.dom().len(),
    {
        proof {
            lemma_map_of_dom_len(self.entries@);
        }
        self.entries.len()
    }
}

} // verus!
