use crate::ids::{Id, IdPool};
use crate::page::{built_from, missing_key, CorpusSpace, LoadError, Page, PageBuilder};
use vstd::prelude::*;

verus! {

/// A static file carried into the output unchanged.
pub struct IncludedPath(pub String);

pub enum CorpusEntry {
    Page(Page),
    StaticAsset(IncludedPath),
}

/// All loaded pages and assets of one build, keyed by identities from the
/// corpus's own pool, in the order they were added.
pub struct Corpus {
    pub corpus: Vec<(Id<CorpusSpace>, CorpusEntry)>,
    pub ids: IdPool<CorpusSpace>,
}

/// The pages among a sequence of entries, in order.
pub open spec fn pages_of(entries: Seq<(Id<CorpusSpace>, CorpusEntry)>) -> Seq<Page>
    decreases entries.len(),
{
    if entries.len() == 0 {
        Seq::empty()
    } else {
        let rest = pages_of(entries.drop_last());
        match entries.last().1 {
            CorpusEntry::Page(p) => rest.push(p),
            _ => rest,
        }
    }
}

impl Corpus {
    /// Every stored identity comes from this corpus's pool: it carries the
    /// pool's nonce and was handed out before the pool's next one.
    pub open spec fn wf(&self) -> bool {
        forall|i: int| 0 <= i < self.corpus@.len() ==> (#[trigger] self.corpus@[i]).0.parent == self.ids.nonce
            && self.corpus@[i].0.id < self.ids.last
    }

    /// An empty corpus whose identities are tagged with `nonce`.
    pub fn create(nonce: u64) -> (r: Corpus)
        ensures
            r.corpus@.len() == 0,
            r.ids.nonce == nonce,
            r.ids.last == 0,
            r.wf(),
    {
        Corpus { corpus: Vec::new(), ids: IdPool::new(nonce) }
    }

    /// A fresh builder for the page at `f`, with the next identity.
    pub fn make_page(&mut self, f: String) -> (r: PageBuilder)
        requires
            old(self).ids.last < u64::MAX,
        ensures
            r.id.id == old(self).ids.last,
            r.id.parent == old(self).ids.nonce,
            r.filepath@ == f@,
            r.title is None && r.when is None && r.url_path is None,
            r.contents@.len() == 0,
            r.tpl_name@ == "page.html"@,
            final(self).corpus == old(self).corpus,
            final(self).ids.nonce == old(self).ids.nonce,
            final(self).ids.last == old(self).ids.last + 1,
            old(self).wf() ==> final(self).wf(),
            old(self).wf() ==> forall|i: int| 0 <= i < old(self).corpus@.len() ==> !same_id(#[trigger] old(self).corpus@[i].0, r.id),
    {
        let id = self.ids.next();
        PageBuilder::new(id, f)
    }

    /// Finishes the builder and stores the page, or stores nothing and
    /// reports why, naming the page's source.
    pub fn add_page(&mut self, page: PageBuilder) -> (r: Result<(), LoadError>)
        ensures
            r is Ok <==> missing_key(page) is None,
            r is Ok ==> final(self).corpus@.len() == old(self).corpus@.len() + 1
                && final(self).corpus@.drop_last() == old(self).corpus@
                && final(self).corpus@.last().0 == page.id
                && (final(self).corpus@.last().1 matches CorpusEntry::Page(p) && built_from(p, page)),
            r matches Err(e) ==> *final(self) == *old(self) && (e matches LoadError::MissingRequiredMetadata(o, k)
                && o@ == page.filepath@ && Some(k@) == missing_key(page)),
            final(self).ids == old(self).ids,
            old(self).wf() && page.id.parent == old(self).ids.nonce && page.id.id < old(self).ids.last ==> final(self).wf(),
    {
        let id = page.id.duplicate();
        match page.build() {
            Ok(p) => {
                self.corpus.push((id, CorpusEntry::Page(p)));
                Ok(())
            },
            Err(e) => Err(e),
        }
    }

    /// Stores a static asset under the next identity.
    pub fn include_asset(&mut self, p: String) -> (r: Id<CorpusSpace>)
        requires
            old(self).ids.last < u64::MAX,
        ensures
            r.id == old(self).ids.last,
            r.parent == old(self).ids.nonce,
            final(self).corpus@ == old(self).corpus@.push((r, CorpusEntry::StaticAsset(IncludedPath(p)))),
            final(self).ids.last == old(self).ids.last + 1,
            final(self).ids.nonce == old(self).ids.nonce,
            old(self).wf() ==> final(self).wf(),
    {
        let id = self.ids.next();
        let key = id.duplicate();
        self.corpus.push((key, CorpusEntry::StaticAsset(IncludedPath(p))));
        id
    }

    pub fn entries(&self) -> (r: &Vec<(Id<CorpusSpace>, CorpusEntry)>)
        ensures
            r@ == self.corpus@,
    {
        &self.corpus
    }

    pub fn entries_mut(&mut self) -> (r: &mut Vec<(Id<CorpusSpace>, CorpusEntry)>)
        ensures
            *r == old(self).corpus,
            final(self).corpus == *final(r),
            final(self).ids == old(self).ids,
    {
        &mut self.corpus
    }

    pub fn into_entries(self) -> (r: Vec<(Id<CorpusSpace>, CorpusEntry)>)
        ensures
            r == self.corpus,
    {
        self.corpus
    }

    /// The pages of the corpus, in the order they were added.
    pub fn pages(&self) -> (r: Vec<&Page>)
        ensures
            r@.len() == pages_of(self.corpus@).len(),
            forall|i: int| 0 <= i < r@.len() ==> *r@[i] == pages_of(self.corpus@)[i],
    {
        let mut out: Vec<&Page> = Vec::new();
        let mut i: usize = 0;
        while i < self.corpus.len()
            invariant
                0 <= i <= self.corpus@.len(),
                out@.len() == pages_of(self.corpus@.take(i as int)).len(),
                forall|j: int| 0 <= j < out@.len() ==> *out@[j] == pages_of(self.corpus@.take(i as int))[j],
            decreases self.corpus@.len() - i,
        {
            assert(self.corpus@.take(i as int + 1).drop_last() =~= self.corpus@.take(i as int));
            match &self.corpus[i].1 {
                CorpusEntry::Page(p) => out.push(p),
                CorpusEntry::StaticAsset(_) => {},
            }
            i = i + 1;
        }
        assert(self.corpus@.take(i as int) =~= self.corpus@);
        out
    }

    /// The entry stored under `id`, if any.
    pub fn get(&self, id: &Id<CorpusSpace>) -> (r: Option<&CorpusEntry>)
        ensures
            r is None <==> forall|i: int| 0 <= i < self.corpus@.len() ==> !same_id(self.corpus@[i].0, *id),
            r is Some ==> exists|i: int| 0 <= i < self.corpus@.len() && same_id(self.corpus@[i].0, *id)
                && self.corpus@[i].1 == *(r->0)
                && forall|j: int| 0 <= j < i ==> !same_id(self.corpus@[j].0, *id),
    {
        let mut i: usize = 0;
        while i < self.corpus.len()
            invariant
                0 <= i <= self.corpus@.len(),
                forall|j: int| 0 <= j < i ==> !same_id(self.corpus@[j].0, *id),
            decreases self.corpus@.len() - i,
        {
            if self.corpus[i].0.same(id) {
                return Some(&self.corpus[i].1);
            }
            i = i + 1;
        }
        None
    }
}

pub open spec fn same_id<T>(a: Id<T>, b: Id<T>) -> bool {
    a.id == b.id && a.parent == b.parent
}

} // verus!
