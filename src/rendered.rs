use crate::context::RenderContext;
use crate::corpus::same_id;
use crate::ids::{Id, IdPool};
use crate::page::CorpusSpace;
use vstd::prelude::*;

verus! {

/// The marker of the rendered site's identity space.
pub struct RenderedSpace;

/// Turns a template and its values into output text; the global values are
/// available to every page under `globals`. The engine is supplied by the
/// caller.
pub trait TemplateEngine {
    fn render(&mut self, template: &str, values: &RenderContext, globals: &RenderContext) -> Result<String, String>;
}

pub enum SiteError {
    /// Two entries would be written to this destination.
    AlreadyOccupied(String),
    /// The template engine refused a page: the template, then its message.
    Template(String, String),
    /// A processor failed.
    Processor(String),
}

pub struct RenderedPageMetadata {
    /// The corpus entry the page was rendered from, if any.
    pub origin: Option<Id<CorpusSpace>>,
    pub title: String,
    pub url: String,
    pub when: Option<String>,
    pub summary: Option<String>,
}

pub struct RenderedPage {
    pub id: Id<RenderedSpace>,
    pub content: String,
    pub meta: RenderedPageMetadata,
}

impl RenderedPage {
    pub fn size(&self) -> (r: usize)
        ensures
            r == self.content@.len(),
    {
        self.content.as_str().unicode_len()
    }

    pub fn metadata(&self) -> (r: &RenderedPageMetadata)
        ensures
            *r == self.meta,
    {
        &self.meta
    }

    pub fn read(self) -> (r: String)
        ensures
            r == self.content,
    {
        self.content
    }
}

/// A static file copied from `src` to `dest`.
pub struct IncludedAsset {
    pub src: String,
    pub dest: String,
}

impl IncludedAsset {
    pub fn create(src: String, dest: String) -> (r: IncludedAsset)
        ensures
            r.src == src,
            r.dest == dest,
    {
        IncludedAsset { src, dest }
    }

    pub fn source(&self) -> (r: &String)
        ensures
            *r == self.src,
    {
        &self.src
    }

    pub fn destination(&self) -> (r: &String)
        ensures
            *r == self.dest,
    {
        &self.dest
    }
}

pub enum Writable {
    Page(RenderedPage),
    Asset(IncludedAsset),
}

/// Where an entry is written.
pub open spec fn destination(w: Writable) -> Seq<char> {
    match w {
        Writable::Page(p) => p.meta.url@,
        Writable::Asset(a) => a.dest@,
    }
}

pub open spec fn destinations(ws: Seq<(Id<RenderedSpace>, Writable)>) -> Seq<Seq<char>> {
    ws.map_values(|e: (Id<RenderedSpace>, Writable)| destination(e.1))
}

impl Writable {
    pub fn destination(&self) -> (r: &String)
        ensures
            r@ == destination(*self),
    {
        match self {
            Writable::Page(p) => &p.meta.url,
            Writable::Asset(a) => &a.dest,
        }
    }
}

/// The position of the first entry stored under `id`, or -1.
pub open spec fn first_entry(ws: Seq<(Id<RenderedSpace>, Writable)>, id: Id<RenderedSpace>) -> int
    decreases ws.len(),
{
    if ws.len() == 0 {
        -1
    } else {
        let r = first_entry(ws.drop_last(), id);
        if r >= 0 {
            r
        } else if same_id(ws.last().0, id) {
            ws.len() - 1
        } else {
            -1
        }
    }
}

/// The position of the first origin edge that starts at `o`, or -1.
pub open spec fn first_origin(es: Seq<(Id<CorpusSpace>, Id<RenderedSpace>)>, o: Id<CorpusSpace>) -> int
    decreases es.len(),
{
    if es.len() == 0 {
        -1
    } else {
        let r = first_origin(es.drop_last(), o);
        if r >= 0 {
            r
        } else if same_id(es.last().0, o) {
            es.len() - 1
        } else {
            -1
        }
    }
}

proof fn lemma_first_entry_prefix(ws: Seq<(Id<RenderedSpace>, Writable)>, i: int, id: Id<RenderedSpace>)
    requires
        0 <= i <= ws.len(),
        first_entry(ws.take(i), id) >= 0,
    ensures
        first_entry(ws, id) == first_entry(ws.take(i), id),
        0 <= first_entry(ws, id) < i,
    decreases ws.len() - i,
{
    lemma_first_entry_range(ws.take(i), id);
    if i == ws.len() {
        assert(ws.take(i) =~= ws);
    } else {
        assert(ws.drop_last().take(i) =~= ws.take(i));
        lemma_first_entry_prefix(ws.drop_last(), i, id);
    }
}

proof fn lemma_first_entry_range(ws: Seq<(Id<RenderedSpace>, Writable)>, id: Id<RenderedSpace>)
    ensures
        -1 <= first_entry(ws, id) < ws.len(),
    decreases ws.len(),
{
    if ws.len() > 0 {
        lemma_first_entry_range(ws.drop_last(), id);
    }
}

proof fn lemma_first_origin_prefix(es: Seq<(Id<CorpusSpace>, Id<RenderedSpace>)>, i: int, o: Id<CorpusSpace>)
    requires
        0 <= i <= es.len(),
        first_origin(es.take(i), o) >= 0,
    ensures
        first_origin(es, o) == first_origin(es.take(i), o),
        0 <= first_origin(es, o) < i,
    decreases es.len() - i,
{
    lemma_first_origin_range(es.take(i), o);
    if i == es.len() {
        assert(es.take(i) =~= es);
    } else {
        assert(es.drop_last().take(i) =~= es.take(i));
        lemma_first_origin_prefix(es.drop_last(), i, o);
    }
}

proof fn lemma_first_origin_range(es: Seq<(Id<CorpusSpace>, Id<RenderedSpace>)>, o: Id<CorpusSpace>)
    ensures
        -1 <= first_origin(es, o) < es.len(),
    decreases es.len(),
{
    if es.len() > 0 {
        lemma_first_origin_range(es.drop_last(), o);
    }
}

/// The entry that the first origin edge from `o` leads to, if any.
pub open spec fn lookup_through(
    ws: Seq<(Id<RenderedSpace>, Writable)>,
    es: Seq<(Id<CorpusSpace>, Id<RenderedSpace>)>,
    o: Id<CorpusSpace>,
) -> Option<Writable> {
    let i = first_origin(es, o);
    if i < 0 {
        None
    } else {
        let j = first_entry(ws, es[i].1);
        if j < 0 {
            None
        } else {
            Some(ws[j].1)
        }
    }
}

pub open spec fn origin_lookup(site: RenderedSite, o: Id<CorpusSpace>) -> Option<Writable> {
    lookup_through(site.writables@, site.origins@, o)
}

/// A page stored under a new identity with the first edge from `o` is what
/// `o` leads to afterwards: later stages find a page just rendered.
pub proof fn law_rendered_page_found(
    ws: Seq<(Id<RenderedSpace>, Writable)>,
    es: Seq<(Id<CorpusSpace>, Id<RenderedSpace>)>,
    o: Id<CorpusSpace>,
    id: Id<RenderedSpace>,
    w: Writable,
)
    requires
        first_origin(es, o) < 0,
        first_entry(ws, id) < 0,
    ensures
        lookup_through(ws.push((id, w)), es.push((o, id)), o) == Some(w),
{
    assert(es.push((o, id)).drop_last() =~= es);
    assert(ws.push((id, w)).drop_last() =~= ws);
}

/// The output of a build: rendered pages and assets, each at its own
/// destination, and the edge from each rendered page back to its corpus entry.
pub struct RenderedSite {
    pub writables: Vec<(Id<RenderedSpace>, Writable)>,
    pub origins: Vec<(Id<CorpusSpace>, Id<RenderedSpace>)>,
}

impl RenderedSite {
    pub open spec fn dests(&self) -> Seq<Seq<char>> {
        destinations(self.writables@)
    }

    /// No two entries share a destination.
    pub open spec fn wf(&self) -> bool {
        self.dests().no_duplicates()
    }

    pub fn new() -> (r: RenderedSite)
        ensures
            r.writables@.len() == 0,
            r.origins@.len() == 0,
            r.wf(),
    {
        RenderedSite { writables: Vec::new(), origins: Vec::new() }
    }

    /// Whether some entry is written to `dest`.
    pub fn occupied(&self, dest: &String) -> (r: bool)
        ensures
            r == self.dests().contains(dest@),
    {
        let mut i: usize = 0;
        while i < self.writables.len()
            invariant
                0 <= i <= self.writables@.len(),
                forall|j: int| 0 <= j < i ==> self.dests()[j] != dest@,
            decreases self.writables@.len() - i,
        {
            let d = self.writables[i].1.destination();
            if *d == *dest {
                assert(self.dests()[i as int] == dest@);
                return true;
            }
            i = i + 1;
        }
        false
    }

    /// Stores an entry under `id`, unless its destination is taken: a
    /// collision is an error and the site is left as it was.
    pub fn add(&mut self, id: Id<RenderedSpace>, w: Writable) -> (r: Result<(), SiteError>)
        requires
            old(self).wf(),
        ensures
            final(self).wf(),
            r is Ok <==> !old(self).dests().contains(destination(w)),
            r is Ok ==> final(self).writables@ == old(self).writables@.push((id, w)),
            r is Ok ==> final(self).origins@ == (match w {
                Writable::Page(p) => match p.meta.origin {
                    Some(o) => old(self).origins@.push((o, id)),
                    None => old(self).origins@,
                },
                _ => old(self).origins@,
            }),
            r matches Err(e) ==> *final(self) == *old(self) && (e matches SiteError::AlreadyOccupied(d) && d@
                == destination(w)),
    {
        let dest = w.destination().clone();
        if self.occupied(&dest) {
            return Err(SiteError::AlreadyOccupied(dest));
        }
        match &w {
            Writable::Page(p) => match &p.meta.origin {
                Some(o) => {
                    self.origins.push((o.duplicate(), id.duplicate()));
                },
                None => {},
            },
            _ => {},
        }
        self.writables.push((id, w));
        assert(self.dests() =~= old(self).dests().push(dest@));
        Ok(())
    }

    /// The entry stored under `id`, if any: the first one.
    pub fn get(&self, id: &Id<RenderedSpace>) -> (r: Option<&Writable>)
        ensures
            r is None <==> first_entry(self.writables@, *id) < 0,
            r is Some ==> *(r->0) == self.writables@[first_entry(self.writables@, *id)].1,
    {
        let mut i: usize = 0;
        while i < self.writables.len()
            invariant
                0 <= i <= self.writables@.len(),
                first_entry(self.writables@.take(i as int), *id) < 0,
            decreases self.writables@.len() - i,
        {
            assert(self.writables@.take(i as int + 1).drop_last() =~= self.writables@.take(i as int));
            if self.writables[i].0.same(id) {
                proof {
                    lemma_first_entry_prefix(self.writables@, i as int + 1, *id);
                }
                return Some(&self.writables[i].1);
            }
            i = i + 1;
        }
        assert(self.writables@.take(i as int) =~= self.writables@);
        None
    }

    /// The rendered identity recorded for a corpus entry, if any: the first edge.
    pub fn rendered_id(&self, origin: &Id<CorpusSpace>) -> (r: Option<&Id<RenderedSpace>>)
        ensures
            r is None <==> first_origin(self.origins@, *origin) < 0,
            r is Some ==> *(r->0) == self.origins@[first_origin(self.origins@, *origin)].1,
    {
        let mut i: usize = 0;
        while i < self.origins.len()
            invariant
                0 <= i <= self.origins@.len(),
                first_origin(self.origins@.take(i as int), *origin) < 0,
            decreases self.origins@.len() - i,
        {
            assert(self.origins@.take(i as int + 1).drop_last() =~= self.origins@.take(i as int));
            if self.origins[i].0.same(origin) {
                proof {
                    lemma_first_origin_prefix(self.origins@, i as int + 1, *origin);
                }
                return Some(&self.origins[i].1);
            }
            i = i + 1;
        }
        assert(self.origins@.take(i as int) =~= self.origins@);
        None
    }

    /// The rendered entry of a corpus entry, found through its first origin edge.
    pub fn get_by_origin(&self, origin: &Id<CorpusSpace>) -> (r: Option<&Writable>)
        ensures
            r is None <==> origin_lookup(*self, *origin) is None,
            r is Some ==> origin_lookup(*self, *origin) == Some(*(r->0)),
    {
        match self.rendered_id(origin) {
            None => None,
            Some(rid) => self.get(rid),
        }
    }

    pub fn entries(self) -> (r: Vec<(Id<RenderedSpace>, Writable)>)
        ensures
            r == self.writables,
    {
        self.writables
    }
}

/// A page waiting for its template to be applied.
pub struct RenderingPage {
    pub id: Id<RenderedSpace>,
    pub tpl: String,
    pub v: RenderContext,
}

impl RenderingPage {
    pub fn values(&mut self) -> (r: &mut RenderContext)
        ensures
            *r == old(self).v,
            final(self).v == *final(r),
            final(self).id == old(self).id,
            final(self).tpl == old(self).tpl,
    {
        &mut self.v
    }
}

/// The fixed metadata of a page that a processor synthesises.
pub struct PageTemplate {
    pub title: String,
    pub url: String,
    pub template: String,
}

impl PageTemplate {
    pub fn stamp(&self) -> (r: RenderedPageMetadata)
        ensures
            r.title == self.title,
            r.url == self.url,
            r.when is None,
            r.summary is None,
            r.origin is None,
    {
        RenderedPageMetadata {
            title: self.title.clone(),
            url: self.url.clone(),
            when: None,
            summary: None,
            origin: None,
        }
    }
}

/// The site while pages are being rendered: the template engine, the values
/// every page sees, and the entries rendered so far.
pub struct RenderingSite<E: TemplateEngine> {
    pub renderer: E,
    pub globals: RenderContext,
    pub ids: IdPool<RenderedSpace>,
    pub site: RenderedSite,
    /// What was handed to the engine, call by call: the template, the
    /// page's values and the global values.
    pub engine_calls: Ghost<Seq<(Seq<char>, RenderContext, RenderContext)>>,
    /// The `page_rendering` hooks called, in order: the processor's position
    /// in registration order, the page, and how many engine calls preceded it.
    pub hook_calls: Ghost<Seq<(int, Id<CorpusSpace>, int)>>,
}

impl<E: TemplateEngine> RenderingSite<E> {
    pub open spec fn wf(&self) -> bool {
        self.site.wf()
    }

    pub fn new(renderer: E, globals: RenderContext, nonce: u64) -> (r: RenderingSite<E>)
        ensures
            r.wf(),
            r.site.writables@.len() == 0,
            r.site.origins@.len() == 0,
            r.ids.nonce == nonce,
            r.ids.last == 0,
            r.globals == globals,
            r.engine_calls@.len() == 0,
            r.hook_calls@.len() == 0,
    {
        RenderingSite {
            renderer,
            globals,
            ids: IdPool::new(nonce),
            site: RenderedSite::new(),
            engine_calls: Ghost(Seq::empty()),
            hook_calls: Ghost(Seq::empty()),
        }
    }

    /// Starts a page with the given template and no values.
    pub fn page(&mut self, template: &str) -> (r: RenderingPage)
        requires
            old(self).ids.last < u64::MAX,
        ensures
            r.id.id == old(self).ids.last,
            r.id.parent == old(self).ids.nonce,
            r.tpl@ == template@,
            r.v.entries@.len() == 0,
            final(self).ids.last == old(self).ids.last + 1,
            final(self).ids.nonce == old(self).ids.nonce,
            final(self).site == old(self).site,
            final(self).globals == old(self).globals,
            final(self).engine_calls == old(self).engine_calls,
            final(self).hook_calls == old(self).hook_calls,
    {
        let id = self.ids.next();
        RenderingPage { id, tpl: String::from_str(template), v: RenderContext::empty() }
    }

    /// Applies the page's template, with the global values under `globals`,
    /// and stores the result with an edge from its origin. A destination that
    /// is taken is refused before the engine is called; a failure of the
    /// engine is reported as a template error. Either way nothing is stored.
    pub fn render_page(&mut self, meta: RenderedPageMetadata, page: RenderingPage) -> (r: Result<(), SiteError>)
        requires
            old(self).wf(),
        ensures
            final(self).wf(),
            final(self).ids == old(self).ids,
            final(self).globals == old(self).globals,
            final(self).hook_calls == old(self).hook_calls,
            old(self).site.dests().contains(meta.url@) ==> (r matches Err(SiteError::AlreadyOccupied(d)) && d@ == meta.url@)
                && final(self).engine_calls == old(self).engine_calls,
            !old(self).site.dests().contains(meta.url@) ==> final(self).engine_calls@ == old(self).engine_calls@.push(
                (page.tpl@, page.v, old(self).globals),
            ) && (r is Ok || (r matches Err(SiteError::Template(t, _)) && t@ == page.tpl@)),
            r is Ok ==> final(self).site.writables@.len() == old(self).site.writables@.len() + 1
                && final(self).site.writables@.drop_last() == old(self).site.writables@
                && final(self).site.writables@.last().0 == page.id
                && (final(self).site.writables@.last().1 matches Writable::Page(p) && p.meta == meta && p.id == page.id)
                && final(self).site.origins@ == (match meta.origin {
                    Some(o) => old(self).site.origins@.push((o, page.id)),
                    None => old(self).site.origins@,
                }),
            r is Err ==> final(self).site == old(self).site,
    {
        if self.site.occupied(&meta.url) {
            return Err(SiteError::AlreadyOccupied(meta.url));
        }
        let RenderingPage { id, tpl, v } = page;
        let values = v;
        self.engine_calls = Ghost(self.engine_calls@.push((tpl@, values, self.globals)));
        let rendered = match self.renderer.render(tpl.as_str(), &values, &self.globals) {
            Ok(s) => s,
            Err(msg) => {
                return Err(SiteError::Template(tpl, msg));
            },
        };
        let rid = id.duplicate();
        let page = RenderedPage { id: rid, content: rendered, meta };
        self.site.add(id, Writable::Page(page))
    }

    /// Stores a static asset under the next identity.
    pub fn add_asset(&mut self, asset: IncludedAsset) -> (r: Result<(), SiteError>)
        requires
            old(self).wf(),
            old(self).ids.last < u64::MAX,
        ensures
            final(self).wf(),
            r is Ok <==> !old(self).site.dests().contains(asset.dest@),
            r is Ok ==> final(self).site.writables@.len() == old(self).site.writables@.len() + 1
                && final(self).site.writables@.drop_last() == old(self).site.writables@
                && final(self).site.writables@.last().1 == Writable::Asset(asset),
            r is Err ==> final(self).site == old(self).site,
            final(self).ids.last == old(self).ids.last + 1,
            final(self).ids.nonce == old(self).ids.nonce,
            final(self).globals == old(self).globals,
            final(self).engine_calls == old(self).engine_calls,
            final(self).hook_calls == old(self).hook_calls,
    {
        let id = self.ids.next();
        self.site.add(id, Writable::Asset(asset))
    }

    /// The rendered entry of a corpus entry, found through its first origin edge.
    pub fn get_by_origin(&self, origin: &Id<CorpusSpace>) -> (r: Option<&Writable>)
        ensures
            r is None <==> origin_lookup(self.site, *origin) is None,
            r is Some ==> origin_lookup(self.site, *origin) == Some(*(r->0)),
    {
        self.site.get_by_origin(origin)
    }

    pub fn render(self) -> (r: RenderedSite)
        ensures
            r == self.site,
    {
        self.site
    }
}

/// Once a page is stored at a destination, any later entry for the same
/// destination is refused: a collision is never an overwrite.
pub proof fn law_destination_collision(site: RenderedSite, first: Writable, second: Writable, id: Id<RenderedSpace>)
    requires
        site.wf(),
        !site.dests().contains(destination(first)),
        destination(first) == destination(second),
    ensures
        destinations(site.writables@.push((id, first))).contains(destination(second)),
        destinations(site.writables@.push((id, first))).no_duplicates(),
{
    let s = site.writables@.push((id, first));
    assert(destinations(s) =~= site.dests().push(destination(first)));
    assert(destinations(s)[site.writables@.len() as int] == destination(second));
}

} // verus!
