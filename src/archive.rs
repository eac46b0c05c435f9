use crate::context::{RenderContext, Value};
use crate::corpus::{pages_of, Corpus};
use crate::ids::Id;
use crate::page::{CorpusSpace, Metadata, Page};
use crate::pipeline::{keeps_entries, Processor};
use crate::rendered::{
    origin_lookup, PageTemplate, RenderedPage, RenderedPageMetadata, RenderedSite, RenderingSite, SiteError,
    TemplateEngine, Writable,
};
use crate::text::{lower_of, lowercase};
use vstd::prelude::*;
use vstd::string::*;

verus! {

/// The position of the bucket for `k`, or -1.
pub open spec fn bucket_index<V>(s: Seq<(String, Vec<V>)>, k: Seq<char>) -> int
    decreases s.len(),
{
    if s.len() == 0 {
        -1
    } else if s.last().0@ == k {
        s.len() - 1
    } else {
        bucket_index(s.drop_last(), k)
    }
}

pub proof fn lemma_bucket_index<V>(s: Seq<(String, Vec<V>)>, k: Seq<char>)
    ensures
        -1 <= bucket_index(s, k) < s.len(),
        bucket_index(s, k) >= 0 ==> s[bucket_index(s, k)].0@ == k,
        bucket_index(s, k) == -1 ==> forall|i: int| 0 <= i < s.len() ==> s[i].0@ != k,
    decreases s.len(),
{
    if s.len() > 0 {
        lemma_bucket_index(s.drop_last(), k);
        if s.last().0@ != k {
            assert forall|i: int| 0 <= i < s.len() - 1 implies s[i] == s.drop_last()[i] by {}
        }
    }
}

/// Values grouped under string keys; buckets keep the order in which their
/// keys first came, and each bucket keeps the order of its values.
pub struct Buckets<V> {
    pub entries: Vec<(String, Vec<V>)>,
}

impl<V> Buckets<V> {
    /// The keys, in order.
    pub open spec fn keys(&self) -> Seq<Seq<char>> {
        self.entries@.map_values(|e: (String, Vec<V>)| e.0@)
    }

    /// The values under `k`, in order.
    pub open spec fn bucket(&self, k: Seq<char>) -> Seq<V> {
        let i = bucket_index(self.entries@, k);
        if i < 0 {
            Seq::empty()
        } else {
            self.entries@[i].1@
        }
    }

    /// No key has two buckets.
    pub open spec fn wf(&self) -> bool {
        self.keys().no_duplicates()
    }

    pub fn with_capacity(cap: usize) -> (r: Buckets<V>)
        ensures
            r.entries@.len() == 0,
            r.wf(),
    {
        let r = Buckets { entries: Vec::with_capacity(cap) };
        assert(r.keys() =~= Seq::<Seq<char>>::empty());
        r
    }

    /// Whether no key has two buckets.
    pub fn distinct_keys(&self) -> (r: bool)
        ensures
            r == self.wf(),
    {
        let n = self.entries.len();
        let mut i: usize = 0;
        while i < n
            invariant
                0 <= i <= n,
                n == self.entries@.len(),
                forall|a: int, b: int| 0 <= a < b < n && a < i ==> self.keys()[a] != self.keys()[b],
            decreases n - i,
        {
            let mut j: usize = i + 1;
            while j < n
                invariant
                    i < n,
                    i + 1 <= j <= n,
                    n == self.entries@.len(),
                    forall|a: int, b: int| 0 <= a < b < n && a < i ==> self.keys()[a] != self.keys()[b],
                    forall|b: int| i < b < j ==> self.keys()[i as int] != self.keys()[b],
                decreases n - j,
            {
                if str_eq(self.entries[i].0.as_str(), self.entries[j].0.as_str()) {
                    assert(self.keys()[i as int] == self.keys()[j as int]);
                    return false;
                }
                j = j + 1;
            }
            i = i + 1;
        }
        true
    }

    pub fn len(&self) -> (r: usize)
        ensures
            r == self.entries@.len(),
    {
        self.entries.len()
    }

    fn find(&self, key: &String) -> (r: Option<usize>)
        ensures
            r is None <==> bucket_index(self.entries@, key@) == -1,
            r is Some ==> r->0 as int == bucket_index(self.entries@, key@),
    {
        proof {
            lemma_bucket_index(self.entries@, key@);
        }
        let mut i: usize = self.entries.len();
        assert(self.entries@.take(i as int) =~= self.entries@);
        while i > 0
            invariant
                0 <= i <= self.entries@.len(),
                bucket_index(self.entries@, key@) == bucket_index(self.entries@.take(i as int), key@),
            decreases i,
        {
            assert(self.entries@.take(i as int).drop_last() =~= self.entries@.take(i as int - 1));
            if self.entries[i - 1].0 == *key {
                return Some(i - 1);
            }
            i = i - 1;
        }
        None
    }

    /// Adds `value` at the end of the bucket for `key`, making the bucket if
    /// it is new.
    pub fn push(&mut self, key: String, value: V)
        requires
            old(self).wf(),
        ensures
            final(self).wf(),
            final(self).bucket(key@) == old(self).bucket(key@).push(value),
            forall|k: Seq<char>| k != key@ ==> #[trigger] final(self).bucket(k) == old(self).bucket(k),
            old(self).keys().contains(key@) ==> final(self).keys() == old(self).keys(),
            !old(self).keys().contains(key@) ==> final(self).keys() == old(self).keys().push(key@),
    {
        let mut single = Vec::new();
        single.push(value);
        self.insert(key, single);
        assert(seq![value] =~= Seq::<V>::empty().push(value));
        assert(old(self).bucket(key@) + seq![value] =~= old(self).bucket(key@).push(value));
    }

    /// Appends `values` to the bucket for `key`, making the bucket if it is new.
    pub fn insert(&mut self, key: String, values: Vec<V>)
        requires
            old(self).wf(),
        ensures
            final(self).wf(),
            final(self).bucket(key@) == old(self).bucket(key@) + values@,
            forall|k: Seq<char>| k != key@ ==> #[trigger] final(self).bucket(k) == old(self).bucket(k),
            old(self).keys().contains(key@) ==> final(self).keys() == old(self).keys(),
            !old(self).keys().contains(key@) ==> final(self).keys() == old(self).keys().push(key@),
    {
        proof {
            lemma_bucket_index(old(self).entries@, key@);
        }
        let mut values = values;
        match self.find(&key) {
            Some(i) => {
                let ghost before = self.entries@;
                let mut entry = self.entries.remove(i);
                entry.1.append(&mut values);
                let ghost changed = entry;
                self.entries.insert(i, entry);
                assert(self.entries@ =~= before.update(i as int, changed));
                assert(self.keys() =~= old(self).keys());
                proof {
                    assert forall|k: Seq<char>| #[trigger] bucket_index(self.entries@, k) == bucket_index(before, k) by {
                        lemma_bi_same_keys(self.entries@, before, k);
                    }
                    assert(old(self).keys()[i as int] == key@);
                    assert forall|k: Seq<char>| k != key@ implies #[trigger] self.bucket(k) == old(self).bucket(k) by {
                        lemma_bucket_index(before, k);
                        let bi = bucket_index(before, k);
                        if bi >= 0 {
                            assert(bi != i);
                        }
                    }
                }
            },
            None => {
                let ghost before = self.entries@;
                self.entries.push((key, values));
                proof {
                    assert(self.entries@.drop_last() =~= before);
                    assert(self.keys() =~= old(self).keys().push(key@));
                    assert(!old(self).keys().contains(key@)) by {
                        if old(self).keys().contains(key@) {
                            let j = choose|j: int| 0 <= j < old(self).keys().len() && old(self).keys()[j] == key@;
                            assert(before[j].0@ == key@);
                        }
                    }
                    assert forall|k: Seq<char>| k != key@ implies #[trigger] self.bucket(k) == old(self).bucket(k) by {
                        assert(bucket_index(self.entries@, k) == bucket_index(before, k));
                        lemma_bucket_index(before, k);
                        let bi = bucket_index(before, k);
                        if bi >= 0 {
                            assert(self.entries@[bi] == before[bi]);
                        }
                    }
                    assert(bucket_index(self.entries@, key@) == before.len());
                    assert(Seq::<V>::empty() + values@ =~= values@);
                }
            },
        }
    }

    pub fn buckets(&self) -> (r: &Vec<(String, Vec<V>)>)
        ensures
            r@ == self.entries@,
    {
        &self.entries
    }

    pub fn into_buckets(self) -> (r: Vec<(String, Vec<V>)>)
        ensures
            r@ == self.entries@,
    {
        self.entries
    }
}

proof fn lemma_bi_same_keys<V>(a: Seq<(String, Vec<V>)>, b: Seq<(String, Vec<V>)>, k: Seq<char>)
    requires
        a.len() == b.len(),
        forall|i: int| 0 <= i < a.len() ==> a[i].0@ == b[i].0@,
    ensures
        bucket_index(a, k) == bucket_index(b, k),
    decreases a.len(),
{
    if a.len() > 0 {
        lemma_bi_same_keys(a.drop_last(), b.drop_last(), k);
    }
}

/// The string values of a page's `tags` list, in order.
pub open spec fn tags_of(page: Page) -> Seq<Seq<char>> {
    match meta_lookup(page.meta.meta@, "tags"@) {
        Some(Metadata::List(l)) => string_items(l@),
        _ => Seq::empty(),
    }
}

/// The first binding of `k` among metadata pairs.
pub open spec fn meta_lookup(m: Seq<(String, Metadata)>, k: Seq<char>) -> Option<Metadata>
    decreases m.len(),
{
    if m.len() == 0 {
        None
    } else if m[0].0@ == k {
        Some(m[0].1)
    } else {
        meta_lookup(m.skip(1), k)
    }
}

/// The string items of a metadata list, in order; other items are passed over.
pub open spec fn string_items(l: Seq<Metadata>) -> Seq<Seq<char>>
    decreases l.len(),
{
    if l.len() == 0 {
        Seq::empty()
    } else {
        let rest = string_items(l.drop_last());
        match l.last() {
            Metadata::Str(s) => rest.push(s@),
            _ => rest,
        }
    }
}

/// Looks up `key` among metadata pairs: the first binding wins.
pub fn find_meta<'a>(m: &'a Vec<(String, Metadata)>, key: &str) -> (r: Option<&'a Metadata>)
    ensures
        r is None <==> meta_lookup(m@, key@) is None,
        r is Some ==> meta_lookup(m@, key@) == Some(*(r->0)),
{
    let mut i: usize = 0;
    assert(m@.skip(0) =~= m@);
    while i < m.len()
        invariant
            0 <= i <= m@.len(),
            meta_lookup(m@, key@) == meta_lookup(m@.skip(i as int), key@),
        decreases m@.len() - i,
    {
        assert(m@.skip(i as int).skip(1) =~= m@.skip(i as int + 1));
        if str_eq(m[i].0.as_str(), key) {
            return Some(&m[i].1);
        }
        i = i + 1;
    }
    assert(m@.skip(i as int) =~= Seq::<(String, Metadata)>::empty());
    None
}

/// Character-wise equality of two strings.
pub fn str_eq(a: &str, b: &str) -> (r: bool)
    ensures
        r == (a@ == b@),
{
    let n = a.unicode_len();
    if n != b.unicode_len() {
        return false;
    }
    let mut i: usize = 0;
    while i < n
        invariant
            0 <= i <= n,
            n == a@.len(),
            n == b@.len(),
            forall|j: int| 0 <= j < i ==> a@[j] == b@[j],
        decreases n - i,
    {
        if a.get_char(i) != b.get_char(i) {
            return false;
        }
        i = i + 1;
    }
    assert(a@ =~= b@);
    true
}

/// Sorts pages into buckets while the corpus is analysed.
pub trait Archivist {
    /// The ids that filing `page` appends to the bucket `k`, in order.
    spec fn filed(&self, page: Page, k: Seq<char>) -> Seq<Id<CorpusSpace>>;

    fn archive_page(&self, page: &Page, buckets: &mut Buckets<Id<CorpusSpace>>) -> (r: Result<(), SiteError>)
        requires
            old(buckets).wf(),
        ensures
            final(buckets).wf(),
            r is Ok ==> forall|k: Seq<char>| #[trigger] final(buckets).bucket(k) == old(buckets).bucket(k) + self.filed(*page, k),
    ;
}

/// Buckets pages by their date, as written.
pub struct DateArchivist;

/// What filing a page under its date appends to the bucket `k`.
pub open spec fn date_filed(page: Page, k: Seq<char>) -> Seq<Id<CorpusSpace>> {
    if k == page.meta.when@ {
        seq![page.id]
    } else {
        Seq::empty()
    }
}

impl DateArchivist {
    pub fn format_date(&self, written: &str) -> (r: String)
        ensures
            r@ == written@,
    {
        String::from_str(written)
    }

    /// Files the page under its date.
    pub fn archive(&self, page: &Page, buckets: &mut Buckets<Id<CorpusSpace>>)
        requires
            old(buckets).wf(),
        ensures
            final(buckets).wf(),
            forall|k: Seq<char>| #[trigger] final(buckets).bucket(k) == old(buckets).bucket(k) + date_filed(*page, k),
    {
        buckets.push(self.format_date(page.meta.when.as_str()), page.id.duplicate());
        assert forall|k: Seq<char>| #[trigger] buckets.bucket(k) == old(buckets).bucket(k) + date_filed(*page, k) by {
            if k == page.meta.when@ {
                assert(old(buckets).bucket(k).push(page.id) =~= old(buckets).bucket(k) + seq![page.id]);
            } else {
                assert(old(buckets).bucket(k) + Seq::<Id<CorpusSpace>>::empty() =~= old(buckets).bucket(k));
            }
        }
    }
}

impl Archivist for DateArchivist {
    open spec fn filed(&self, page: Page, k: Seq<char>) -> Seq<Id<CorpusSpace>> {
        date_filed(page, k)
    }

    fn archive_page(&self, page: &Page, buckets: &mut Buckets<Id<CorpusSpace>>) -> (r: Result<(), SiteError>) {
        self.archive(page, buckets);
        Ok(())
    }
}

#[derive(Clone, Copy)]
pub enum TagSorting {
    Alphabetical,
}

/// Buckets pages by each of their tags, case-folded.
pub struct TagArchivist(pub TagSorting);

/// `id` once for each tag in `tags` equal to `k`, in order.
pub open spec fn ids_for(tags: Seq<Seq<char>>, k: Seq<char>, id: Id<CorpusSpace>) -> Seq<Id<CorpusSpace>>
    decreases tags.len(),
{
    if tags.len() == 0 {
        Seq::empty()
    } else if tags.last() == k {
        ids_for(tags.drop_last(), k, id).push(id)
    } else {
        ids_for(tags.drop_last(), k, id)
    }
}

/// The page's string tags, lower-cased, in order.
pub open spec fn folded_tags(page: Page) -> Seq<Seq<char>> {
    tags_of(page).map_values(|t: Seq<char>| lower_of(t))
}

impl TagArchivist {
    /// Files the page under each of its string tags, lower-cased, in order:
    /// the bucket `k` gains the page's id once per tag that folds to `k`.
    pub fn archive(&self, page: &Page, buckets: &mut Buckets<Id<CorpusSpace>>)
        requires
            old(buckets).wf(),
        ensures
            final(buckets).wf(),
            forall|k: Seq<char>| #[trigger] final(buckets).bucket(k) == old(buckets).bucket(k) + ids_for(folded_tags(*page), k, page.id),
    {
        match find_meta(&page.meta.meta, "tags") {
            Some(Metadata::List(tags)) => {
                let mut i: usize = 0;
                proof {
                    assert(tags@.take(0) =~= Seq::<Metadata>::empty());
                    assert forall|k: Seq<char>| #[trigger] buckets.bucket(k) == old(buckets).bucket(k) + ids_for(
                        string_items(tags@.take(0)).map_values(|t: Seq<char>| lower_of(t)), k, page.id) by {
                        assert(string_items(tags@.take(0)).map_values(|t: Seq<char>| lower_of(t)) =~= Seq::<Seq<char>>::empty());
                        assert(old(buckets).bucket(k) + Seq::<Id<CorpusSpace>>::empty() =~= old(buckets).bucket(k));
                    }
                }
                while i < tags.len()
                    invariant
                        0 <= i <= tags@.len(),
                        buckets.wf(),
                        folded_tags(*page) == string_items(tags@).map_values(|t: Seq<char>| lower_of(t)),
                        forall|k: Seq<char>| #[trigger] buckets.bucket(k) == old(buckets).bucket(k) + ids_for(
                            string_items(tags@.take(i as int)).map_values(|t: Seq<char>| lower_of(t)), k, page.id),
                    decreases tags@.len() - i,
                {
                    let ghost prev = string_items(tags@.take(i as int)).map_values(|t: Seq<char>| lower_of(t));
                    let ghost b0 = *buckets;
                    assert(tags@.take(i as int + 1).drop_last() =~= tags@.take(i as int));
                    match &tags[i] {
                        Metadata::Str(s) => {
                            let tag = lowercase(s.as_str());
                            buckets.push(tag, page.id.duplicate());
                            let ghost next = string_items(tags@.take(i as int + 1)).map_values(|t: Seq<char>| lower_of(t));
                            assert(next =~= prev.push(lower_of(s@)));
                            assert forall|k: Seq<char>| #[trigger] buckets.bucket(k) == old(buckets).bucket(k) + ids_for(next, k, page.id) by {
                                assert(next.drop_last() =~= prev);
                                if k == lower_of(s@) {
                                    assert(b0.bucket(k).push(page.id) =~= old(buckets).bucket(k) + ids_for(prev, k, page.id).push(page.id));
                                }
                            }
                        },
                        _ => {
                            assert(string_items(tags@.take(i as int + 1)).map_values(|t: Seq<char>| lower_of(t)) =~= prev);
                        },
                    }
                    i = i + 1;
                }
                assert(tags@.take(i as int) =~= tags@);
            },
            _ => {
                assert forall|k: Seq<char>| #[trigger] buckets.bucket(k) == old(buckets).bucket(k) + ids_for(folded_tags(*page), k, page.id) by {
                    assert(folded_tags(*page) =~= Seq::<Seq<char>>::empty());
                    assert(old(buckets).bucket(k) + Seq::<Id<CorpusSpace>>::empty() =~= old(buckets).bucket(k));
                }
            },
        }
    }
}

impl Archivist for TagArchivist {
    open spec fn filed(&self, page: Page, k: Seq<char>) -> Seq<Id<CorpusSpace>> {
        ids_for(folded_tags(page), k, page.id)
    }

    fn archive_page(&self, page: &Page, buckets: &mut Buckets<Id<CorpusSpace>>) -> (r: Result<(), SiteError>) {
        self.archive(page, buckets);
        Ok(())
    }
}

/// What filing `pages` in order appends to the bucket `k`.
pub open spec fn filed_all<A: Archivist>(a: A, pages: Seq<Page>, k: Seq<char>) -> Seq<Id<CorpusSpace>>
    decreases pages.len(),
{
    if pages.len() == 0 {
        Seq::empty()
    } else {
        filed_all(a, pages.drop_last(), k) + a.filed(pages.last(), k)
    }
}

/// The template value of one archived page: its title and summary.
pub open spec fn entry_value(v: Value, p: RenderedPage) -> bool {
    &&& v matches Value::Dict(fs)
    &&& fs@.len() == 2
    &&& fs@[0].0@ == "title"@ && (fs@[0].1 matches Value::Str(t) && t == p.meta.title)
    &&& fs@[1].0@ == "summary"@ && match p.meta.summary {
        Some(s) => fs@[1].1 matches Value::Str(x) && x == s,
        None => fs@[1].1 is Null,
    }
}

/// `vs` lists, in order, the rendered pages that the ids lead to through
/// their origin edges; ids that lead to no rendered page are passed over.
pub open spec fn listed(vs: Seq<Value>, site: RenderedSite, ids: Seq<Id<CorpusSpace>>) -> bool
    decreases ids.len(),
{
    if ids.len() == 0 {
        vs.len() == 0
    } else {
        match origin_lookup(site, ids.last()) {
            Some(Writable::Page(p)) => vs.len() > 0 && entry_value(vs.last(), p) && listed(vs.drop_last(), site, ids.drop_last()),
            _ => listed(vs, site, ids.drop_last()),
        }
    }
}

/// The values one bucket's page receives: the key, and its pages.
pub open spec fn bucket_binding(e: (String, Value), site: RenderedSite, key: Seq<char>, ids: Seq<Id<CorpusSpace>>) -> bool {
    &&& e.0@ == "archive"@
    &&& e.1 matches Value::Dict(fs)
    &&& fs@.len() == 2
    &&& fs@[0].0@ == "key"@ && (fs@[0].1 matches Value::Str(k) && k@ == key)
    &&& fs@[1].0@ == "pages"@ && (fs@[1].1 matches Value::List(items) && listed(items@, site, ids))
}

/// The metadata of the page for bucket `key`: titled with the template's
/// title and the key, written to `<url>/<key>.html`.
pub open spec fn bucket_meta_ok(m: RenderedPageMetadata, template: PageTemplate, key: Seq<char>) -> bool {
    &&& m.title@ == template.title@ + ": "@ + key
    &&& m.url@ == template.url@ + "/"@ + key + ".html"@
    &&& m.origin is None
    &&& m.when is None
    &&& m.summary is None
}

/// A processor that buckets the corpus's pages while it is analysed, and
/// afterwards renders one page per bucket listing the bucket's pages by
/// title and summary, taken from their rendered entries.
pub struct Archive<A: Archivist> {
    pub buckets: Buckets<Id<CorpusSpace>>,
    pub archivist: A,
    pub template: PageTemplate,
}

impl<A: Archivist> Archive<A> {
    pub fn new(archivist: A, metadata: PageTemplate) -> (r: Archive<A>)
        ensures
            r.buckets.entries@.len() == 0,
            r.buckets.wf(),
            r.template == metadata,
    {
        Archive { archivist, template: metadata, buckets: Buckets::with_capacity(0) }
    }

    /// Files every page of the corpus, in corpus order.
    pub fn archive_corpus(&mut self, corpus: &Corpus) -> (r: Result<(), SiteError>)
        requires
            old(self).buckets.wf(),
        ensures
            final(self).buckets.wf(),
            final(self).archivist == old(self).archivist,
            r is Ok ==> forall|k: Seq<char>| #[trigger] final(self).buckets.bucket(k) == old(self).buckets.bucket(k)
                + filed_all(old(self).archivist, pages_of(corpus.corpus@), k),
    {
        let pages = corpus.pages();
        let ghost ps = pages_of(corpus.corpus@);
        let mut i: usize = 0;
        proof {
            assert forall|k: Seq<char>| #[trigger] self.buckets.bucket(k) == old(self).buckets.bucket(k) + filed_all(self.archivist, ps.take(0), k) by {
                assert(ps.take(0) =~= Seq::<Page>::empty());
                assert(old(self).buckets.bucket(k) + Seq::<Id<CorpusSpace>>::empty() =~= old(self).buckets.bucket(k));
            }
        }
        while i < pages.len()
            invariant
                0 <= i <= pages@.len(),
                pages@.len() == ps.len(),
                forall|j: int| 0 <= j < pages@.len() ==> *pages@[j] == ps[j],
                self.buckets.wf(),
                self.archivist == old(self).archivist,
                forall|k: Seq<char>| #[trigger] self.buckets.bucket(k) == old(self).buckets.bucket(k) + filed_all(self.archivist, ps.take(i as int), k),
            decreases pages@.len() - i,
        {
            let ghost b0 = self.buckets;
            self.archivist.archive_page(pages[i], &mut self.buckets)?;
            assert forall|k: Seq<char>| #[trigger] self.buckets.bucket(k) == old(self).buckets.bucket(k) + filed_all(self.archivist, ps.take(i as int + 1), k) by {
                assert(ps.take(i as int + 1).drop_last() =~= ps.take(i as int));
                assert(ps.take(i as int + 1).last() == ps[i as int]);
                assert(b0.bucket(k) + self.archivist.filed(ps[i as int], k) =~= old(self).buckets.bucket(k) + (filed_all(self.archivist, ps.take(i as int), k) + self.archivist.filed(ps[i as int], k)));
            }
            i = i + 1;
        }
        assert(ps.take(i as int) =~= ps);
        Ok(())
    }

    /// The title and summary of the rendered pages that `ids` lead to.
    pub fn bucket_entries(site: &RenderedSite, ids: &Vec<Id<CorpusSpace>>) -> (r: Vec<Value>)
        ensures
            listed(r@, *site, ids@),
    {
        let mut items: Vec<Value> = Vec::new();
        let mut j: usize = 0;
        assert(ids@.take(0) =~= Seq::<Id<CorpusSpace>>::empty());
        while j < ids.len()
            invariant
                0 <= j <= ids@.len(),
                listed(items@, *site, ids@.take(j as int)),
            decreases ids@.len() - j,
        {
            assert(ids@.take(j as int + 1).drop_last() =~= ids@.take(j as int));
            let ghost before = items@;
            match site.get_by_origin(&ids[j]) {
                Some(Writable::Page(p)) => {
                    let mut fields: Vec<(String, Value)> = Vec::new();
                    fields.push((String::from_str("title"), Value::Str(p.meta.title.clone())));
                    let summary = match &p.meta.summary {
                        Some(s) => Value::Str(s.clone()),
                        None => Value::Null,
                    };
                    fields.push((String::from_str("summary"), summary));
                    items.push(Value::Dict(fields));
                    assert(items@.drop_last() =~= before);
                },
                _ => {},
            }
            j = j + 1;
        }
        assert(ids@.take(j as int) =~= ids@);
        items
    }

    /// The values one bucket's page receives.
    pub fn bucket_context(site: &RenderedSite, key: &String, ids: &Vec<Id<CorpusSpace>>) -> (r: RenderContext)
        ensures
            r.entries@.len() == 1,
            bucket_binding(r.entries@[0], *site, key@, ids@),
    {
        let items = Archive::<A>::bucket_entries(site, ids);
        let mut fields: Vec<(String, Value)> = Vec::new();
        fields.push((String::from_str("key"), Value::Str(key.clone())));
        fields.push((String::from_str("pages"), Value::List(items)));
        let mut ctx = RenderContext::empty();
        ctx.insert(String::from_str("archive"), Value::Dict(fields));
        ctx
    }

    /// The metadata of the page for bucket `key`.
    pub fn bucket_meta(&self, key: &String) -> (r: RenderedPageMetadata)
        ensures
            bucket_meta_ok(r, self.template, key@),
    {
        let mut title = self.template.title.clone();
        title.append(": ");
        title.append(key.as_str());
        let mut url = self.template.url.clone();
        url.append("/");
        url.append(key.as_str());
        url.append(".html");
        RenderedPageMetadata { title, url, when: None, summary: None, origin: None }
    }

    /// Renders one page per bucket, in bucket order, each listing its pages
    /// as they were rendered. The values are taken from the site as it was
    /// before any of these pages was added.
    pub fn render_archives<E: TemplateEngine>(&self, site: &mut RenderingSite<E>) -> (r: Result<(), SiteError>)
        requires
            old(site).wf(),
        ensures
            final(site).wf(),
            keeps_entries(old(site).site.writables@, final(site).site.writables@),
            old(site).ids.last as int + self.buckets.entries@.len() > u64::MAX ==> r is Err && final(site).site == old(site).site,
            r is Ok ==> final(site).site.writables@.len() == old(site).site.writables@.len() + self.buckets.entries@.len()
                && final(site).engine_calls@.len() == old(site).engine_calls@.len() + self.buckets.entries@.len()
                && forall|i: int| 0 <= i < self.buckets.entries@.len() ==> (
                    #[trigger] final(site).site.writables@[old(site).site.writables@.len() + i].1 matches Writable::Page(p)
                    && bucket_meta_ok(p.meta, self.template, self.buckets.entries@[i].0@))
                && forall|i: int| 0 <= i < self.buckets.entries@.len() ==> (
                    #[trigger] final(site).engine_calls@[old(site).engine_calls@.len() + i]).0 == self.template.template@
                    && final(site).engine_calls@[old(site).engine_calls@.len() + i].1.entries@.len() == 1
                    && bucket_binding(final(site).engine_calls@[old(site).engine_calls@.len() + i].1.entries@[0], old(site).site,
                        self.buckets.entries@[i].0@, self.buckets.entries@[i].1@),
    {
        let n = self.buckets.entries.len();
        if site.ids.last > u64::MAX - (n as u64) {
            return Err(SiteError::Processor(String::from_str("identity pool exhausted")));
        }
        let ghost site0 = site.site;
        let ghost w0 = site.site.writables@.len();
        let ghost c0 = site.engine_calls@.len();
        let mut contexts: Vec<RenderContext> = Vec::new();
        let mut i: usize = 0;
        while i < n
            invariant
                0 <= i <= n,
                n == self.buckets.entries@.len(),
                site.site == site0,
                contexts@.len() == i,
                forall|x: int| 0 <= x < i ==> (#[trigger] contexts@[x]).entries@.len() == 1
                    && bucket_binding(contexts@[x].entries@[0], site0, self.buckets.entries@[x].0@, self.buckets.entries@[x].1@),
            decreases n - i,
        {
            contexts.push(Archive::<A>::bucket_context(&site.site, &self.buckets.entries[i].0, &self.buckets.entries[i].1));
            i = i + 1;
        }
        let mut ctxs = contexts;
        let mut rest: Vec<RenderContext> = Vec::new();
        let mut k: usize = n;
        while k > 0
            invariant
                0 <= k <= n,
                ctxs@.len() == k,
                contexts@.len() == n,
                rest@.len() == n - k,
                forall|x: int| 0 <= x < k ==> #[trigger] ctxs@[x] == contexts@[x],
                forall|x: int| 0 <= x < n - k ==> #[trigger] rest@[x] == contexts@[n - 1 - x],
            decreases k,
        {
            let c = ctxs.pop().unwrap();
            rest.push(c);
            k = k - 1;
        }
        let mut b: usize = 0;
        while b < n
            invariant
                0 <= b <= n,
                n == self.buckets.entries@.len(),
                rest@.len() == n - b,
                contexts@.len() == n,
                site0 == old(site).site,
                forall|x: int| 0 <= x < n - b ==> #[trigger] rest@[x] == contexts@[n - 1 - x],
                forall|x: int| 0 <= x < n ==> (#[trigger] contexts@[x]).entries@.len() == 1
                    && bucket_binding(contexts@[x].entries@[0], site0, self.buckets.entries@[x].0@, self.buckets.entries@[x].1@),
                site.wf(),
                site.ids.last == old(site).ids.last + b,
                old(site).ids.last as int + n <= u64::MAX,
                site.site.writables@.len() == w0 + b,
                site.engine_calls@.len() == c0 + b,
                keeps_entries(site0.writables@, site.site.writables@),
                forall|i: int| 0 <= i < b ==> (
                    #[trigger] site.site.writables@[w0 + i].1 matches Writable::Page(p)
                    && bucket_meta_ok(p.meta, self.template, self.buckets.entries@[i].0@)),
                forall|i: int| 0 <= i < b ==> (
                    #[trigger] site.engine_calls@[c0 + i]).0 == self.template.template@
                    && site.engine_calls@[c0 + i].1 == contexts@[i],
            decreases n - b,
        {
            let ghost before_w = site.site.writables@;
            let ghost before_c = site.engine_calls@;
            let ctx = rest.pop().unwrap();
            let mut page = site.page(self.template.template.as_str());
            page.v = ctx;
            let meta = self.bucket_meta(&self.buckets.entries[b].0);
            let ghost m = meta;
            site.render_page(meta, page)?;
            proof {
                assert forall|i: int| 0 <= i < before_w.len() implies #[trigger] site.site.writables@[i] == before_w[i] by {
                    assert(site.site.writables@.drop_last()[i] == before_w[i]);
                }
                assert forall|i: int| 0 <= i < before_c.len() implies #[trigger] site.engine_calls@[i] == before_c[i] by {
                    assert(site.engine_calls@.drop_last()[i] == before_c[i]);
                }
            }
            b = b + 1;
        }
        Ok(())
    }
}

impl<A: Archivist> Processor for Archive<A> {
    fn site_loaded(&mut self, corpus: &mut Corpus) -> Result<(), SiteError> {
        if !self.buckets.distinct_keys() {
            return Err(SiteError::Processor(String::from_str("archive buckets are malformed")));
        }
        self.archive_corpus(corpus)
    }

    fn site_rendering<E: TemplateEngine>(&self, corpus: &Corpus, site: &mut RenderingSite<E>) -> (r: Result<(), SiteError>) {
        self.render_archives(site)
    }
}

} // verus!
