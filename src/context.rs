use vstd::prelude::*;

verus! {

/// A template value: scalars, lists and string-keyed maps.
pub enum Value {
    Null,
    Bool(bool),
    Str(String),
    /// Markup that the template engine must not escape.
    Safe(String),
    List(Vec<Value>),
    Dict(Vec<(String, Value)>),
}

/// The value that a key is bound to: the first binding of that key wins.
pub open spec fn lookup_value(entries: Seq<(String, Value)>, k: Seq<char>) -> Option<Value>
    decreases entries.len(),
{
    if entries.len() == 0 {
        None
    } else if entries[0].0@ == k {
        Some(entries[0].1)
    } else {
        lookup_value(entries.skip(1), k)
    }
}

/// The values handed to a template, as key/value bindings; a binding made
/// later hides an earlier binding of the same key.
pub struct RenderContext {
    pub entries: Vec<(String, Value)>,
}

proof fn lemma_lookup_after_prefix(front: Seq<(String, Value)>, back: Seq<(String, Value)>, k: Seq<char>)
    ensures
        lookup_value(front + back, k) == (if lookup_value(front, k) is Some {
            lookup_value(front, k)
        } else {
            lookup_value(back, k)
        }),
    decreases front.len(),
{
    if front.len() > 0 {
        assert((front + back).skip(1) =~= front.skip(1) + back);
        lemma_lookup_after_prefix(front.skip(1), back, k);
    } else {
        assert(front + back =~= back);
    }
}

impl RenderContext {
    pub open spec fn get(&self, k: Seq<char>) -> Option<Value> {
        lookup_value(self.entries@, k)
    }

    pub fn empty() -> (r: RenderContext)
        ensures
            r.entries@.len() == 0,
            forall|k: Seq<char>| r.get(k) is None,
    {
        RenderContext { entries: Vec::new() }
    }

    /// Binds `key` to `value`, hiding any earlier binding of `key`.
    pub fn insert(&mut self, key: String, value: Value)
        ensures
            final(self).entries@ == seq![(key, value)] + old(self).entries@,
            final(self).get(key@) == Some(value),
            forall|k: Seq<char>| k != key@ ==> final(self).get(k) == old(self).get(k),
    {
        let mut entries = Vec::new();
        entries.push((key, value));
        let ghost front = entries@;
        let mut rest = Vec::new();
        std::mem::swap(&mut rest, &mut self.entries);
        entries.append(&mut rest);
        self.entries = entries;
        proof {
            assert forall|k: Seq<char>| #[trigger] lookup_value(self.entries@, k) == (if k == front[0].0@ {
                Some(front[0].1)
            } else {
                lookup_value(old(self).entries@, k)
            }) by {
                lemma_lookup_after_prefix(front, old(self).entries@, k);
                assert(front.len() == 1);
                assert(front.skip(1) =~= Seq::<(String, Value)>::empty());
                assert(lookup_value(front.skip(1), k) is None);
            }
        }
    }

    /// Merges `other` in; its bindings hide this context's bindings of the same keys.
    pub fn merge(&mut self, other: RenderContext)
        ensures
            final(self).entries@ == other.entries@ + old(self).entries@,
            forall|k: Seq<char>| #[trigger] final(self).get(k) == (if other.get(k) is Some {
                other.get(k)
            } else {
                old(self).get(k)
            }),
    {
        let mut entries = other.entries;
        let mut rest = Vec::new();
        std::mem::swap(&mut rest, &mut self.entries);
        entries.append(&mut rest);
        self.entries = entries;
        proof {
            assert forall|k: Seq<char>| #[trigger] lookup_value(self.entries@, k) == (if other.get(k) is Some {
                other.get(k)
            } else {
                old(self).get(k)
            }) by {
                lemma_lookup_after_prefix(other.entries@, old(self).entries@, k);
            }
        }
    }
}

} // verus!
