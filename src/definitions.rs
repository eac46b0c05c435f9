use vstd::prelude::*;

verus! {

/// The first value stored under `k` in `defs`, if any.
pub open spec fn lookup_in<T>(defs: Seq<(String, T)>, k: Seq<char>) -> Option<T>
    decreases defs.len(),
{
    if defs.len() == 0 {
        None
    } else {
        let r = lookup_in(defs.drop_last(), k);
        if r is Some {
            r
        } else if defs.last().0@ == k {
            Some(defs.last().1)
        } else {
            None
        }
    }
}

/// The labels of a list of strings, as character sequences.
pub open spec fn label_views(v: Seq<String>) -> Seq<Seq<char>> {
    v.map_values(|s: String| s@)
}

/// The abstract content of a definitions table: the labels in the order they
/// were first seen, and what each defined label is bound to.
pub struct DefinitionsModel<T> {
    pub labels: Seq<Seq<char>>,
    pub defs: Map<Seq<char>, T>,
}

impl<T> DefinitionsModel<T> {
    /// A label is recorded once, at the position where it was first seen.
    pub open spec fn add_label(self, k: Seq<char>) -> DefinitionsModel<T> {
        DefinitionsModel {
            labels: if self.labels.contains(k) {
                self.labels
            } else {
                self.labels.push(k)
            },
            defs: self.defs,
        }
    }

    /// A label is bound at most once: a later definition of it changes nothing.
    pub open spec fn define(self, k: Seq<char>, v: T) -> DefinitionsModel<T> {
        DefinitionsModel {
            labels: self.labels,
            defs: if self.defs.contains_key(k) {
                self.defs
            } else {
                self.defs.insert(k, v)
            },
        }
    }

    /// The defined values, in the order their labels were first seen.
    pub open spec fn resolved(self) -> Seq<T>
        decreases self.labels.len(),
    {
        if self.labels.len() == 0 {
            Seq::empty()
        } else {
            let rest = DefinitionsModel { labels: self.labels.drop_last(), defs: self.defs };
            let k = self.labels.last();
            if self.defs.contains_key(k) {
                rest.resolved().push(self.defs[k])
            } else {
                rest.resolved()
            }
        }
    }
}

/// A table from label to definition, with the order in which labels were
/// first referenced.
pub struct Definitions<T> {
    pub labels: Vec<String>,
    pub defs: Vec<(String, T)>,
}

proof fn lemma_lookup_push<T>(defs: Seq<(String, T)>, x: (String, T), k: Seq<char>)
    ensures
        lookup_in(defs.push(x), k) == (if lookup_in(defs, k) is Some {
            lookup_in(defs, k)
        } else if x.0@ == k {
            Some(x.1)
        } else {
            None
        }),
{
    assert(defs.push(x).drop_last() =~= defs);
}

proof fn lemma_lookup_prefix<T>(defs: Seq<(String, T)>, i: int, k: Seq<char>)
    requires
        0 <= i <= defs.len(),
        lookup_in(defs.take(i), k) is Some,
    ensures
        lookup_in(defs, k) == lookup_in(defs.take(i), k),
    decreases defs.len() - i,
{
    if i == defs.len() {
        assert(defs.take(i) =~= defs);
    } else {
        let d = defs.drop_last();
        assert(d.take(i) =~= defs.take(i));
        lemma_lookup_prefix(d, i, k);
    }
}

impl<T> View for Definitions<T> {
    type V = DefinitionsModel<T>;

    open spec fn view(&self) -> DefinitionsModel<T> {
        DefinitionsModel {
            labels: label_views(self.labels@),
            defs: Map::new(
                |k: Seq<char>| lookup_in(self.defs@, k) is Some,
                |k: Seq<char>| lookup_in(self.defs@, k)->0,
            ),
        }
    }
}

impl<T> Definitions<T> {
    pub fn new() -> (r: Definitions<T>)
        ensures
            r@.labels.len() == 0,
            r@.defs.is_empty(),
    {
        let r = Definitions { labels: Vec::new(), defs: Vec::new() };
        assert(r@.defs =~= Map::empty());
        r
    }

    /// Whether `key` is among the recorded labels.
    pub fn has_label(&self, key: &String) -> (r: bool)
        ensures
            r == self@.labels.contains(key@),
    {
        let mut i: usize = 0;
        while i < self.labels.len()
            invariant
                0 <= i <= self.labels@.len(),
                forall|j: int| 0 <= j < i ==> self.labels@[j]@ != key@,
            decreases self.labels@.len() - i,
        {
            if self.labels[i] == *key {
                assert(self@.labels[i as int] == key@);
                return true;
            }
            i = i + 1;
        }
        assert(!self@.labels.contains(key@)) by {
            if self@.labels.contains(key@) {
                let j = choose|j: int| 0 <= j < self@.labels.len() && self@.labels[j] == key@;
                assert(self.labels@[j]@ == key@);
            }
        }
        false
    }

    /// Records that `key` was referenced; a label already seen keeps its place.
    pub fn add_label(&mut self, key: &String)
        ensures
            final(self)@ == old(self)@.add_label(key@),
    {
        if !self.has_label(key) {
            self.labels.push(key.clone());
            assert(label_views(self.labels@) =~= label_views(old(self).labels@).push(key@));
        }
        assert(final(self)@.defs =~= old(self)@.defs);
    }

    /// The definition bound to `key`, if any.
    pub fn lookup(&self, key: &String) -> (r: Option<&T>)
        ensures
            r is Some <==> self@.defs.contains_key(key@),
            r is Some ==> *(r->0) == self@.defs[key@],
    {
        let mut i: usize = 0;
        while i < self.defs.len()
            invariant
                0 <= i <= self.defs@.len(),
                lookup_in(self.defs@.take(i as int), key@) is None,
            decreases self.defs@.len() - i,
        {
            proof {
                assert(self.defs@.take(i as int + 1) =~= self.defs@.take(i as int).push(self.defs@[i as int]));
                lemma_lookup_push(self.defs@.take(i as int), self.defs@[i as int], key@);
            }
            if self.defs[i].0 == *key {
                proof {
                    lemma_lookup_prefix(self.defs@, i as int + 1, key@);
                }
                return Some(&self.defs[i].1);
            }
            i = i + 1;
        }
        assert(self.defs@.take(i as int) =~= self.defs@);
        None
    }

    /// Binds `key` to `value` unless it is bound already: the first definition wins.
    pub fn define(&mut self, key: &String, value: T)
        ensures
            final(self)@ == old(self)@.define(key@, value),
    {
        let found = self.lookup(key).is_some();
        if !found {
            let ghost before = self.defs@;
            let entry = (key.clone(), value);
            let ghost pushed = entry;
            self.defs.push(entry);
            proof {
                assert forall|k: Seq<char>| #[trigger] lookup_in(self.defs@, k) == (if lookup_in(before, k) is Some {
                    lookup_in(before, k)
                } else if key@ == k {
                    Some(value)
                } else {
                    None
                }) by {
                    lemma_lookup_push(before, pushed, k);
                }
            }
            assert(self@.defs =~= old(self)@.defs.insert(key@, value));
        }
        assert(self@.defs =~= old(self)@.define(key@, value).defs);
    }

    /// The defined values, in the order in which their labels were first seen;
    /// labels that were never defined are passed over.
    pub fn definitions(&self) -> (r: Vec<&T>)
        ensures
            r@.len() == self@.resolved().len(),
            forall|i: int| 0 <= i < r@.len() ==> *r@[i] == self@.resolved()[i],
    {
        let mut out: Vec<&T> = Vec::new();
        let mut i: usize = 0;
        while i < self.labels.len()
            invariant
                0 <= i <= self.labels@.len(),
                out@.len() == (DefinitionsModel { labels: self@.labels.take(i as int), defs: self@.defs }).resolved().len(),
                forall|j: int| 0 <= j < out@.len() ==> *out@[j] == (DefinitionsModel { labels: self@.labels.take(i as int), defs: self@.defs }).resolved()[j],
            decreases self.labels@.len() - i,
        {
            let ghost m1 = DefinitionsModel { labels: self@.labels.take(i as int + 1), defs: self@.defs };
            assert(m1.labels.drop_last() =~= self@.labels.take(i as int));
            assert(m1.labels.last() == self.labels@[i as int]@);
            match self.lookup(&self.labels[i]) {
                Some(v) => {
                    out.push(v);
                },
                None => {},
            }
            i = i + 1;
        }
        assert(self@.labels.take(i as int) =~= self@.labels);
        out
    }
}

/// Defining a label a second time keeps the value of the first definition.
pub proof fn law_first_definition_wins<T>(m: DefinitionsModel<T>, k: Seq<char>, first: T, second: T)
    requires
        !m.defs.contains_key(k),
    ensures
        m.define(k, first).define(k, second).defs[k] == first,
        m.define(k, first).define(k, second) == m.define(k, first),
{
}

/// Recording a label defines nothing, and a label recorded before any
/// definition keeps its first position when it is defined afterwards.
pub proof fn law_label_before_definition<T>(m: DefinitionsModel<T>, k: Seq<char>, v: T)
    requires
        !m.labels.contains(k),
    ensures
        m.add_label(k).defs == m.defs,
        m.add_label(k).define(k, v).labels == m.labels.push(k),
        m.add_label(k).define(k, v).defs[k] == (if m.defs.contains_key(k) { m.defs[k] } else { v }),
{
}

} // verus!
