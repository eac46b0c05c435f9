use crate::context::{RenderContext, Value};
use crate::corpus::{Corpus, CorpusEntry};
use crate::linker::{Linker, LinkerOptions};
use crate::ids::Id;
use crate::page::{built_from, missing_key, CorpusSpace, LoadError, Page, PageBuilder};
use crate::render::{page_env, page_markup, render_elms_spec, render_page, render_summary};
use crate::rendered::{
    IncludedAsset, RenderedPage, RenderedPageMetadata, RenderedSite, RenderedSpace, RenderingPage, RenderingSite, SiteError,
    TemplateEngine, Writable,
};
use vstd::prelude::*;
use vstd::string::*;

verus! {

/// What processors may register while the application is set up.
pub struct Initializer {
    /// File extensions for which a loader is registered, in registration order.
    pub loaders: Vec<String>,
    /// Directories the template engine reads templates from.
    pub template_dirs: Vec<String>,
}

impl Initializer {
    pub fn new() -> (r: Initializer)
        ensures
            r.loaders@.len() == 0,
            r.template_dirs@.len() == 0,
    {
        Initializer { loaders: Vec::new(), template_dirs: Vec::new() }
    }

    pub fn add_loader(&mut self, extension: String)
        ensures
            final(self).loaders@ == old(self).loaders@.push(extension),
            final(self).template_dirs == old(self).template_dirs,
    {
        self.loaders.push(extension);
    }

    pub fn configure_renderer(&mut self, template_dir: String)
        ensures
            final(self).template_dirs@ == old(self).template_dirs@.push(template_dir),
            final(self).loaders == old(self).loaders,
    {
        self.template_dirs.push(template_dir);
    }
}

/// A component hooked into the build. Every hook does nothing unless the
/// processor overrides it; the application calls the hooks of all processors
/// in registration order within each phase.
pub trait Processor {
    /// Registers loaders and configures the template engine; runs once, first.
    fn initialize(&mut self, site: &mut Initializer) -> Result<(), SiteError> {
        Ok(())
    }

    /// Runs on each page after it was loaded and before it joins the corpus.
    fn page_loading(&mut self, page: &mut PageBuilder) -> Result<(), LoadError> {
        Ok(())
    }

    /// Runs once, after every page was loaded.
    fn site_loaded(&mut self, corpus: &mut Corpus) -> Result<(), SiteError> {
        Ok(())
    }

    /// Adds values that every page sees under `globals`.
    fn global_render_context(&self, ctx: &mut RenderContext) -> Result<(), SiteError> {
        Ok(())
    }

    /// Adds values for one page before its template is applied. A hook only
    /// adds bindings in front of those already there.
    fn page_rendering(&self, page: &Page, rendering: &mut RenderingPage) -> (r: Result<(), SiteError>)
        ensures
            r is Ok ==> final(rendering).id == old(rendering).id && final(rendering).tpl == old(rendering).tpl
                && is_suffix(old(rendering).v.entries@, final(rendering).v.entries@),
    {
        assert(rendering.v.entries@.subrange(0, rendering.v.entries@.len() as int) =~= rendering.v.entries@);
        Ok(())
    }

    /// Runs once, after every page was rendered; may add pages of its own.
    fn site_rendering<E: TemplateEngine>(&self, corpus: &Corpus, site: &mut RenderingSite<E>) -> (r: Result<(), SiteError>)
        requires
            old(site).wf(),
        ensures
            final(site).wf(),
            keeps_entries(old(site).site.writables@, final(site).site.writables@),
    {
        Ok(())
    }

    /// Releases what the processor accumulated.
    fn finalize(&mut self) -> Result<(), SiteError> {
        Ok(())
    }
}

/// `a` ends `b`.
pub open spec fn is_suffix<A>(a: Seq<A>, b: Seq<A>) -> bool {
    a.len() <= b.len() && b.subrange(b.len() - a.len(), b.len() as int) == a
}

/// The binding under which a page's own values reach its template: `page`,
/// holding its markup as safe text, its title and its date.
pub open spec fn page_binding(e: (String, Value), page: Page, linker: Linker) -> bool {
    &&& e.0@ == "page"@
    &&& e.1 matches Value::Dict(fs)
    &&& fs@.len() == 3
    &&& fs@[0].0@ == "content"@ && (fs@[0].1 matches Value::Safe(c) && c@ == page_markup(page.content, linker))
    &&& fs@[1].0@ == "title"@ && (fs@[1].1 matches Value::Str(t) && t@ == page.meta.title@)
    &&& fs@[2].0@ == "date"@ && (fs@[2].1 matches Value::Str(d) && d@ == page.meta.when@)
}

/// The rendered summary of a page, if it has one.
pub open spec fn summary_of(page: Page, linker: Linker) -> Option<Seq<char>> {
    match page.meta.summary {
        Some(g) => Some(render_elms_spec(page_env(page.content, linker), g.kids@, 0)),
        None => None,
    }
}

pub open spec fn opt_view(o: Option<String>) -> Option<Seq<char>> {
    match o {
        Some(s) => Some(s@),
        None => None,
    }
}

/// The values a page's template receives before the processors add theirs.
pub fn page_context(page: &Page, linker: &Linker) -> (r: RenderContext)
    ensures
        r.entries@.len() == 1,
        page_binding(r.entries@[0], *page, *linker),
{
    let markup = render_page(&page.content, linker);
    let mut fields: Vec<(String, Value)> = Vec::new();
    fields.push((String::from_str("content"), Value::Safe(markup)));
    fields.push((String::from_str("title"), Value::Str(page.meta.title.clone())));
    fields.push((String::from_str("date"), Value::Str(page.meta.when.clone())));
    let mut ctx = RenderContext::empty();
    ctx.insert(String::from_str("page"), Value::Dict(fields));
    ctx
}

/// `after` holds the entries of `before` at the same places, and maybe more.
pub open spec fn keeps_entries<A>(before: Seq<A>, after: Seq<A>) -> bool {
    before.len() <= after.len() && forall|i: int| 0 <= i < before.len() ==> after[i] == before[i]
}

/// `p` is the rendering of the corpus entry `e`.
pub open spec fn page_rendered_from(e: CorpusEntry, p: RenderedPage, linker: Linker) -> bool {
    match e {
        CorpusEntry::Page(q) => p.meta.origin == Some(q.id) && p.meta.url@ == page_destination(q, linker)
            && p.meta.title == q.meta.title,
        _ => false,
    }
}

/// `a` is the copy of the corpus entry `e` under `base`.
pub open spec fn asset_copied_from(e: CorpusEntry, a: IncludedAsset, base: Seq<char>) -> bool {
    match e {
        CorpusEntry::StaticAsset(ip) => a.src == ip.0 && a.dest@ == base + "/"@ + ip.0@,
        _ => false,
    }
}

/// The destination of a page: the one chosen while loading, else its slug.
pub open spec fn page_destination(p: Page, linker: Linker) -> Seq<char> {
    match p.meta.url {
        Some(u) => u@,
        None => linker.slug_spec(p.meta.origin.0@),
    }
}

/// The outcome of rendering: the site, and the pages whose template failed.
pub struct RenderOutcome {
    pub site: RenderedSite,
    /// The pages whose template failed: the page's origin, then the error.
    pub page_errors: Vec<(String, SiteError)>,
    /// How many entries, at the front of the site, were rendered from the
    /// corpus; processors added the rest.
    pub from_corpus: usize,
}

/// Where a corpus entry is written: a page at its destination, an asset
/// under `base`.
pub open spec fn entry_destination(e: CorpusEntry, linker: Linker, base: Seq<char>) -> Seq<char> {
    match e {
        CorpusEntry::Page(q) => page_destination(q, linker),
        CorpusEntry::StaticAsset(ip) => base + "/"@ + ip.0@,
    }
}

pub open spec fn corpus_destinations(es: Seq<(Id<CorpusSpace>, CorpusEntry)>, linker: Linker, base: Seq<char>) -> Seq<Seq<char>> {
    es.map_values(|e: (Id<CorpusSpace>, CorpusEntry)| entry_destination(e.1, linker, base))
}

/// `w` is what rendering the corpus entry `e` gives.
pub open spec fn entry_rendered(e: CorpusEntry, w: Writable, linker: Linker, base: Seq<char>) -> bool {
    match w {
        Writable::Page(p) => page_rendered_from(e, p, linker),
        Writable::Asset(a) => asset_copied_from(e, a, base),
    }
}

/// Each corpus entry, in order, gave exactly one entry of `ws` (in the same
/// order) or, for a page whose template failed, one origin in `errs`.
pub open spec fn accounted(
    es: Seq<(Id<CorpusSpace>, CorpusEntry)>,
    ws: Seq<(Id<RenderedSpace>, Writable)>,
    errs: Seq<Seq<char>>,
    linker: Linker,
    base: Seq<char>,
) -> bool
    decreases es.len(),
{
    if es.len() == 0 {
        ws.len() == 0 && errs.len() == 0
    } else {
        let e = es.last().1;
        ||| (ws.len() > 0 && entry_rendered(e, ws.last().1, linker, base) && accounted(es.drop_last(), ws.drop_last(), errs, linker, base))
        ||| (errs.len() > 0 && (e matches CorpusEntry::Page(q) && errs.last() == q.meta.origin.0@) && accounted(
            es.drop_last(),
            ws,
            errs.drop_last(),
            linker,
            base,
        ))
    }
}

pub open spec fn error_origins(errs: Seq<(String, SiteError)>) -> Seq<Seq<char>> {
    errs.map_values(|e: (String, SiteError)| e.0@)
}

/// Drives the processors through the phases of a build.
pub struct App<P: Processor> {
    pub processors: Vec<P>,
    pub linker: Linker,
    pub asset_base: String,
    pub loaders: Vec<String>,
    pub template_dirs: Vec<String>,
}

impl<P: Processor> App<P> {
    /// Sets up the application: each processor's `initialize` runs, in order.
    pub fn create(processors: Vec<P>, linker_opts: LinkerOptions) -> (r: Result<App<P>, SiteError>)
        ensures
            r matches Ok(app) ==> app.processors@.len() == processors@.len() && app.linker.opts == linker_opts
                && app.asset_base@ == "assets"@,
            processors@.len() == 0 ==> r is Ok,
    {
        let ghost given = processors@.len();
        let mut procs = processors;
        let mut init = Initializer::new();
        let n = procs.len();
        let mut i: usize = 0;
        while i < procs.len()
            invariant
                0 <= i <= procs@.len(),
                procs@.len() == n,
                n == given,
                given == processors@.len(),
            decreases n - i,
        {
            procs[i].initialize(&mut init)?;
            i = i + 1;
        }
        let Initializer { loaders, template_dirs } = init;
        Ok(App {
            processors: procs,
            linker: Linker::new(linker_opts),
            asset_base: String::from_str("assets"),
            loaders,
            template_dirs,
        })
    }

    /// Whether some loader takes the file at `path`: its extension is one a
    /// processor registered a loader for.
    pub fn accepts(&self, path: &str) -> (r: bool)
        ensures
            r == exists|i: int| 0 <= i < self.loaders@.len() && has_extension(path@, #[trigger] self.loaders@[i]@),
    {
        let mut i: usize = 0;
        while i < self.loaders.len()
            invariant
                0 <= i <= self.loaders@.len(),
                forall|j: int| 0 <= j < i ==> !has_extension(path@, #[trigger] self.loaders@[j]@),
            decreases self.loaders@.len() - i,
        {
            if ends_with_extension(path, self.loaders[i].as_str()) {
                return true;
            }
            i = i + 1;
        }
        false
    }

    /// Runs each processor's `page_loading` hook on a loaded page, in order,
    /// then stores the page. A failure drops that page alone.
    pub fn finish_page(&mut self, builder: PageBuilder, corpus: &mut Corpus) -> (r: Result<(), LoadError>)
        ensures
            final(corpus).ids == old(corpus).ids,
            r is Err ==> final(corpus).corpus == old(corpus).corpus,
            r is Ok ==> final(corpus).corpus@.len() == old(corpus).corpus@.len() + 1
                && final(corpus).corpus@.drop_last() == old(corpus).corpus@,
            final(self).processors@.len() == old(self).processors@.len(),
            final(self).linker == old(self).linker,
            old(self).processors@.len() == 0 ==> (r is Ok <==> missing_key(builder) is None),
            old(self).processors@.len() == 0 && r is Ok ==> (final(corpus).corpus@.last().1 matches CorpusEntry::Page(p)
                && built_from(p, builder)),
    {
        let mut builder = builder;
        let ghost b0 = builder;
        let n = self.processors.len();
        let mut i: usize = 0;
        while i < self.processors.len()
            invariant
                0 <= i <= self.processors@.len(),
                self.processors@.len() == n,
                n == old(self).processors@.len(),
                self.linker == old(self).linker,
                n == 0 ==> builder == b0,
            decreases n - i,
        {
            self.processors[i].page_loading(&mut builder)?;
            i = i + 1;
        }
        corpus.add_page(builder)
    }

    /// Whole-corpus analysis: each processor's `site_loaded` runs once, in
    /// order; the first failure ends the build.
    pub fn process(&mut self, corpus: &mut Corpus) -> (r: Result<(), SiteError>)
        ensures
            final(self).processors@.len() == old(self).processors@.len(),
            final(self).linker == old(self).linker,
            old(self).processors@.len() == 0 ==> r is Ok && *final(corpus) == *old(corpus),
    {
        let n = self.processors.len();
        let mut i: usize = 0;
        while i < self.processors.len()
            invariant
                0 <= i <= self.processors@.len(),
                self.processors@.len() == n,
                n == old(self).processors@.len(),
                self.linker == old(self).linker,
                n == 0 ==> *corpus == *old(corpus),
            decreases n - i,
        {
            self.processors[i].site_loaded(corpus)?;
            i = i + 1;
        }
        Ok(())
    }

    /// Renders one page: its markup and metadata go to the template under
    /// `page`, each processor's `page_rendering` hook adds its values in
    /// order, and the result is stored at the page's destination with an edge
    /// back to the page.
    pub fn render_page<E: TemplateEngine>(&self, page: &Page, site: &mut RenderingSite<E>) -> (r: Result<(), SiteError>)
        requires
            old(site).wf(),
        ensures
            final(site).wf(),
            final(site).globals == old(site).globals,
            final(site).ids.nonce == old(site).ids.nonce,
            old(site).ids.last < u64::MAX ==> final(site).ids.last == old(site).ids.last + 1,
            old(site).ids.last == u64::MAX ==> r is Err && final(site).engine_calls == old(site).engine_calls,
            old(site).ids.last < u64::MAX && old(site).site.dests().contains(page_destination(*page, self.linker)) ==> r is Err,
            old(site).ids.last < u64::MAX && self.processors@.len() == 0 ==> (
                old(site).site.dests().contains(page_destination(*page, self.linker)) ==> (r matches Err(SiteError::AlreadyOccupied(d)) && d@ == page_destination(*page, self.linker))),
            old(site).ids.last < u64::MAX && self.processors@.len() == 0 ==> (
                !old(site).site.dests().contains(page_destination(*page, self.linker)) ==> (r is Ok || r matches Err(SiteError::Template(_, _)))),
            r is Ok ==> final(site).hook_calls@.len() == old(site).hook_calls@.len() + self.processors@.len()
                && final(site).hook_calls@.subrange(0, old(site).hook_calls@.len() as int) == old(site).hook_calls@
                && forall|i: int| 0 <= i < self.processors@.len() ==> #[trigger] final(site).hook_calls@[old(site).hook_calls@.len() + i]
                    == (i, page.id, old(site).engine_calls@.len() as int),
            r is Ok ==> final(site).engine_calls@.len() == old(site).engine_calls@.len() + 1
                && final(site).engine_calls@.drop_last() == old(site).engine_calls@
                && final(site).engine_calls@.last().0 == page.meta.tpl_name@
                && final(site).engine_calls@.last().1.entries@.len() >= 1
                && page_binding(final(site).engine_calls@.last().1.entries@.last(), *page, self.linker)
                && (self.processors@.len() == 0 ==> final(site).engine_calls@.last().1.entries@.len() == 1),
            r is Ok ==> final(site).site.writables@.len() == old(site).site.writables@.len() + 1
                && final(site).site.writables@.drop_last() == old(site).site.writables@
                && (final(site).site.writables@.last().1 matches crate::rendered::Writable::Page(p)
                && p.meta.url@ == page_destination(*page, self.linker)
                && p.meta.title == page.meta.title
                && p.meta.origin == Some(page.id)
                && p.meta.when == Some(page.meta.when)
                && opt_view(p.meta.summary) == summary_of(*page, self.linker)
                && final(site).site.origins@ == old(site).site.origins@.push((page.id, p.id))),
            r is Err ==> final(site).site == old(site).site,
    {
        if site.ids.last == u64::MAX {
            return Err(SiteError::Processor(String::from_str("identity pool exhausted")));
        }
        let mut rendering = site.page(page.meta.tpl_name.as_str());
        let base = page_context(page, &self.linker);
        rendering.v = base;
        let ghost binding = rendering.v.entries@[0];
        assert(page_binding(binding, *page, self.linker));
        assert(site.hook_calls@.subrange(0, old(site).hook_calls@.len() as int) =~= old(site).hook_calls@);
        let ghost id0 = rendering.id;
        let ghost tpl0 = rendering.tpl;
        let n = self.processors.len();
        let mut i: usize = 0;
        while i < self.processors.len()
            invariant
                0 <= i <= self.processors@.len(),
                self.processors@.len() == n,
                site.site == old(site).site,
                site.globals == old(site).globals,
                site.engine_calls == old(site).engine_calls,
                site.hook_calls@.len() == old(site).hook_calls@.len() + i,
                site.hook_calls@.subrange(0, old(site).hook_calls@.len() as int) == old(site).hook_calls@,
                forall|x: int| 0 <= x < i ==> #[trigger] site.hook_calls@[old(site).hook_calls@.len() + x]
                    == (x, page.id, old(site).engine_calls@.len() as int),
                site.wf(),
                site.ids.last == old(site).ids.last + 1,
                site.ids.nonce == old(site).ids.nonce,
                rendering.id == id0,
                rendering.tpl == tpl0,
                rendering.v.entries@.len() >= 1,
                rendering.v.entries@.last() == binding,
                n == 0 ==> rendering.v.entries@.len() == 1,
            decreases n - i,
        {
            let ghost before = rendering.v.entries@;
            let ghost calls = site.hook_calls@;
            site.hook_calls = Ghost(site.hook_calls@.push((i as int, page.id, site.engine_calls@.len() as int)));
            proof {
                assert(site.hook_calls@.subrange(0, old(site).hook_calls@.len() as int) =~= calls.subrange(0, old(site).hook_calls@.len() as int));
            }
            self.processors[i].page_rendering(page, &mut rendering)?;
            proof {
                let after = rendering.v.entries@;
                assert(after.subrange(after.len() - before.len(), after.len() as int)[before.len() - 1] == before.last());
            }
            i = i + 1;
        }
        let url = match &page.meta.url {
            Some(u) => u.clone(),
            None => self.linker.slug(page.meta.origin.as_str()),
        };
        let summary = match &page.meta.summary {
            Some(g) => Some(render_summary(g, &page.content, &self.linker)),
            None => None,
        };
        assert(page_binding(rendering.v.entries@.last(), *page, self.linker));
        assert(rendering.tpl@ == page.meta.tpl_name@);
        let meta = RenderedPageMetadata {
            origin: Some(page.id.duplicate()),
            title: page.meta.title.clone(),
            url,
            when: Some(page.meta.when.clone()),
            summary,
        };
        let ghost calls = site.engine_calls@;
        let r = site.render_page(meta, rendering);
        proof {
            if r is Ok {
                assert(site.engine_calls@.drop_last() =~= calls);
            }
        }
        r
    }

    /// Where a corpus entry is written.
    pub fn destination_of(&self, e: &CorpusEntry) -> (r: String)
        ensures
            r@ == entry_destination(*e, self.linker, self.asset_base@),
    {
        match e {
            CorpusEntry::Page(q) => match &q.meta.url {
                Some(u) => u.clone(),
                None => self.linker.slug(q.meta.origin.as_str()),
            },
            CorpusEntry::StaticAsset(ip) => {
                let mut dest = self.asset_base.clone();
                dest.append("/");
                dest.append(ip.0.as_str());
                dest
            },
        }
    }

    /// A destination that two corpus entries share, if there is one.
    pub fn find_collision(&self, corpus: &Corpus) -> (r: Option<String>)
        ensures
            r is None <==> corpus_destinations(corpus.corpus@, self.linker, self.asset_base@).no_duplicates(),
    {
        let ghost ds = corpus_destinations(corpus.corpus@, self.linker, self.asset_base@);
        let mut dests: Vec<String> = Vec::new();
        let mut i: usize = 0;
        while i < corpus.corpus.len()
            invariant
                0 <= i <= corpus.corpus@.len(),
                ds == corpus_destinations(corpus.corpus@, self.linker, self.asset_base@),
                dests@.len() == i,
                forall|j: int| 0 <= j < i ==> #[trigger] dests@[j]@ == ds[j],
            decreases corpus.corpus@.len() - i,
        {
            dests.push(self.destination_of(&corpus.corpus[i].1));
            i = i + 1;
        }
        let n = dests.len();
        let mut a: usize = 0;
        while a < n
            invariant
                0 <= a <= n,
                n == dests@.len(),
                n == ds.len(),
                ds == corpus_destinations(corpus.corpus@, self.linker, self.asset_base@),
                forall|j: int| 0 <= j < n ==> #[trigger] dests@[j]@ == ds[j],
                forall|x: int, y: int| 0 <= x < y < n && x < a ==> ds[x] != ds[y],
            decreases n - a,
        {
            let mut b: usize = a + 1;
            while b < n
                invariant
                    a < n,
                    a + 1 <= b <= n,
                    n == dests@.len(),
                    n == ds.len(),
                    ds == corpus_destinations(corpus.corpus@, self.linker, self.asset_base@),
                    forall|j: int| 0 <= j < n ==> #[trigger] dests@[j]@ == ds[j],
                    forall|x: int, y: int| 0 <= x < y < n && x < a ==> ds[x] != ds[y],
                    forall|y: int| a < y < b ==> ds[a as int] != ds[y],
                decreases n - b,
            {
                if crate::archive::str_eq(dests[a].as_str(), dests[b].as_str()) {
                    assert(ds[a as int] == ds[b as int]);
                    assert(!ds.no_duplicates());
                    return Some(dests[a].clone());
                }
                b = b + 1;
            }
            a = a + 1;
        }
        assert forall|x: int, y: int| 0 <= x < ds.len() && 0 <= y < ds.len() && x != y implies ds[x] != ds[y] by {
            if y < x {
                assert(ds[y] != ds[x]);
            }
        }
        None
    }

    /// Renders the corpus: the global values, every page and asset in
    /// corpus order, then each processor's `site_rendering`, strictly after
    /// all pages. Two entries with one destination end the build before
    /// anything is rendered; a page whose template fails is reported with its
    /// origin and the others go on; a processor failure ends the build.
    pub fn render<E: TemplateEngine>(&self, corpus: &Corpus, engine: E) -> (r: Result<RenderOutcome, SiteError>)
        ensures
            !corpus_destinations(corpus.corpus@, self.linker, self.asset_base@).no_duplicates() ==> r matches Err(
                SiteError::AlreadyOccupied(_),
            ),
            self.processors@.len() == 0 && corpus_destinations(corpus.corpus@, self.linker, self.asset_base@).no_duplicates()
                ==> r is Ok,
            r is Ok ==> r->Ok_0.site.wf(),
            r is Ok ==> r->Ok_0.from_corpus <= r->Ok_0.site.writables@.len() && accounted(
                corpus.corpus@,
                r->Ok_0.site.writables@.take(r->Ok_0.from_corpus as int),
                error_origins(r->Ok_0.page_errors@),
                self.linker,
                self.asset_base@,
            ),
    {
        match self.find_collision(corpus) {
            Some(d) => {
                return Err(SiteError::AlreadyOccupied(d));
            },
            None => {},
        }
        let ghost ds = corpus_destinations(corpus.corpus@, self.linker, self.asset_base@);
        let mut globals = RenderContext::empty();
        let n = self.processors.len();
        let mut i: usize = 0;
        while i < self.processors.len()
            invariant
                0 <= i <= self.processors@.len(),
                self.processors@.len() == n,
                ds == corpus_destinations(corpus.corpus@, self.linker, self.asset_base@),
                ds.no_duplicates(),
            decreases n - i,
        {
            self.processors[i].global_render_context(&mut globals)?;
            i = i + 1;
        }
        let mut site = RenderingSite::new(engine, globals, 1);
        let mut page_errors: Vec<(String, SiteError)> = Vec::new();
        let mut k: usize = 0;
        assert(corpus.corpus@.take(0) =~= Seq::<(Id<CorpusSpace>, CorpusEntry)>::empty());
        assert(error_origins(page_errors@) =~= Seq::<Seq<char>>::empty());
        while k < corpus.corpus.len()
            invariant
                0 <= k <= corpus.corpus@.len(),
                ds == corpus_destinations(corpus.corpus@, self.linker, self.asset_base@),
                ds.no_duplicates(),
                self.processors@.len() == n,
                site.wf(),
                site.ids.last == k,
                forall|j: int| 0 <= j < site.site.dests().len() ==> #[trigger] ds.take(k as int).contains(site.site.dests()[j]),
                accounted(corpus.corpus@.take(k as int), site.site.writables@, error_origins(page_errors@), self.linker, self.asset_base@),
            decreases corpus.corpus@.len() - k,
        {
            let ghost before = site.site.writables@;
            let ghost errs_before = error_origins(page_errors@);
            let ghost dests_before = site.site.dests();
            assert(corpus.corpus@.take(k as int + 1).drop_last() =~= corpus.corpus@.take(k as int));
            assert(corpus.corpus@.take(k as int + 1).last() == corpus.corpus@[k as int]);
            assert(!site.site.dests().contains(ds[k as int])) by {
                if site.site.dests().contains(ds[k as int]) {
                    let j = choose|j: int| 0 <= j < site.site.dests().len() && site.site.dests()[j] == ds[k as int];
                    assert(ds.take(k as int).contains(site.site.dests()[j]));
                    let x = choose|x: int| 0 <= x < k && ds.take(k as int)[x] == ds[k as int];
                    assert(ds[x] == ds[k as int]);
                }
            }
            assert forall|y: Seq<char>| ds.take(k as int).contains(y) implies ds.take(k as int + 1).contains(y) by {
                let x = choose|x: int| 0 <= x < k && ds.take(k as int)[x] == y;
                assert(ds.take(k as int + 1)[x] == y);
            }
            assert(ds.take(k as int + 1).contains(ds[k as int])) by {
                assert(ds.take(k as int + 1)[k as int] == ds[k as int]);
            }
            assert((k as int) < corpus.corpus@.len());
            match &corpus.corpus[k].1 {
                CorpusEntry::Page(p) => {
                    match self.render_page(p, &mut site) {
                        Ok(()) => {
                            proof {
                                assert(site.site.dests() =~= dests_before.push(ds[k as int]));
                                assert(site.site.writables@.drop_last() == before);
                            }
                        },
                        Err(SiteError::Template(t, m)) => {
                            page_errors.push((p.meta.origin.0.clone(), SiteError::Template(t, m)));
                            proof {
                                assert(error_origins(page_errors@).drop_last() =~= errs_before);
                            }
                        },
                        Err(e) => return Err(e),
                    }
                },
                CorpusEntry::StaticAsset(asset) => {
                    let dest = self.destination_of(&corpus.corpus[k].1);
                    match site.add_asset(IncludedAsset::create(asset.0.clone(), dest)) {
                        Ok(()) => {},
                        Err(e) => {
                            return Err(e);
                        },
                    }
                    proof {
                        assert(site.site.dests() =~= dests_before.push(ds[k as int]));
                    }
                },
            }
            assert(site.site.dests() == dests_before || site.site.dests() == dests_before.push(ds[k as int]));
            assert forall|j: int| 0 <= j < site.site.dests().len() implies #[trigger] ds.take(k as int + 1).contains(site.site.dests()[j]) by {
                if j < dests_before.len() {
                    assert(site.site.dests()[j] == dests_before[j]);
                    assert(ds.take(k as int).contains(dests_before[j]));
                }
            }
            k = k + 1;
        }
        assert(corpus.corpus@.take(k as int) =~= corpus.corpus@);
        let ghost rendered = site.site.writables@;
        let count = site.site.writables.len();
        let mut j: usize = 0;
        while j < self.processors.len()
            invariant
                0 <= j <= self.processors@.len(),
                self.processors@.len() == n,
                site.wf(),
                keeps_entries(rendered, site.site.writables@),
                ds == corpus_destinations(corpus.corpus@, self.linker, self.asset_base@),
                ds.no_duplicates(),
                accounted(corpus.corpus@, rendered, error_origins(page_errors@), self.linker, self.asset_base@),
                count == rendered.len(),
            decreases n - j,
        {
            self.processors[j].site_rendering(corpus, &mut site)?;
            j = j + 1;
        }
        let out = RenderOutcome { site: site.render(), page_errors, from_corpus: count };
        assert(out.site.writables@.take(count as int) =~= rendered);
        Ok(out)
    }

    /// Lets every processor release its state. All of them run, even after
    /// a failure; the first failure is reported.
    pub fn finalize(&mut self) -> (r: Result<(), SiteError>)
        ensures
            final(self).processors@.len() == old(self).processors@.len(),
            old(self).processors@.len() == 0 ==> r is Ok,
    {
        let mut first: Option<SiteError> = None;
        let n = self.processors.len();
        let mut i: usize = 0;
        while i < self.processors.len()
            invariant
                0 <= i <= self.processors@.len(),
                self.processors@.len() == n,
                n == old(self).processors@.len(),
                n == 0 ==> first is None,
            decreases n - i,
        {
            match self.processors[i].finalize() {
                Ok(()) => {},
                Err(e) => {
                    if first.is_none() {
                        first = Some(e);
                    }
                },
            }
            i = i + 1;
        }
        match first {
            None => Ok(()),
            Some(e) => Err(e),
        }
    }
}

/// Whether `path` ends with `.` followed by `ext`.
pub open spec fn has_extension(path: Seq<char>, ext: Seq<char>) -> bool {
    path.len() > ext.len() && path[path.len() - ext.len() - 1] == '.' && path.subrange(
        path.len() - ext.len(),
        path.len() as int,
    ) == ext
}

pub fn ends_with_extension(path: &str, ext: &str) -> (r: bool)
    ensures
        r == has_extension(path@, ext@),
{
    let n = path.unicode_len();
    let m = ext.unicode_len();
    if n <= m {
        return false;
    }
    if path.get_char(n - m - 1) != '.' {
        return false;
    }
    let mut i: usize = 0;
    while i < m
        invariant
            0 <= i <= m,
            n == path@.len(),
            m == ext@.len(),
            n > m,
            forall|j: int| 0 <= j < i ==> path@[n - m + j] == ext@[j],
        decreases m - i,
    {
        if path.get_char(n - m + i) != ext.get_char(i) {
            assert(path@.subrange(n - m, n as int)[i as int] != ext@[i as int]);
            return false;
        }
        i = i + 1;
    }
    assert(path@.subrange(n - m, n as int) =~= ext@);
    true
}

/// Collects processors, in registration order, and the linker's options
/// before the application is set up.
pub struct Builder<P: Processor> {
    pub processors: Vec<P>,
    pub linker_opts: LinkerOptions,
}

impl<P: Processor> Builder<P> {
    pub fn new() -> (r: Builder<P>)
        ensures
            r.processors@.len() == 0,
            r.linker_opts.page_root is None,
            r.linker_opts.slug_style == crate::linker::ArticleSlugStyle::Page,
    {
        Builder { processors: Vec::new(), linker_opts: LinkerOptions::default_options() }
    }

    pub fn linker(self, opts: LinkerOptions) -> (r: Builder<P>)
        ensures
            r.processors == self.processors,
            r.linker_opts == opts,
    {
        Builder { processors: self.processors, linker_opts: opts }
    }

    /// Registers a processor after those already registered.
    pub fn with(self, processor: P) -> (r: Builder<P>)
        ensures
            r.processors@ == self.processors@.push(processor),
            r.linker_opts == self.linker_opts,
    {
        let mut b = self;
        b.processors.push(processor);
        b
    }

    /// Registers the processor only when `cond` holds.
    pub fn with_when(self, cond: bool, processor: P) -> (r: Builder<P>)
        ensures
            r.processors@ == (if cond { self.processors@.push(processor) } else { self.processors@ }),
            r.linker_opts == self.linker_opts,
    {
        if cond {
            self.with(processor)
        } else {
            self
        }
    }

    /// Sets up the application with the registered processors.
    pub fn create(self) -> (r: Result<App<P>, SiteError>)
        ensures
            r matches Ok(app) ==> app.processors@.len() == self.processors@.len() && app.linker.opts == self.linker_opts,
    {
        App::create(self.processors, self.linker_opts)
    }
}

} // verus!
