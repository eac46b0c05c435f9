use crate::archive::{find_meta, string_items, tags_of, Archive, DateArchivist, TagArchivist};
use crate::context::Value;
use crate::corpus::Corpus;
use crate::page::{LoadError, Metadata, Page, PageBuilder};
use crate::pipeline::{Initializer, Processor};
use crate::context::RenderContext;
use crate::rendered::{RenderingPage, RenderingSite, SiteError, TemplateEngine};
use vstd::prelude::*;
use vstd::string::*;

verus! {

/// Registers the Markdown loader for `.md` files.
pub struct Md;

impl Processor for Md {
    fn initialize(&mut self, site: &mut Initializer) -> Result<(), SiteError> {
        site.add_loader(String::from_str("md"));
        Ok(())
    }
}

/// Points the template engine at a directory of templates.
pub struct JinjaConfiguration(pub String);

impl Processor for JinjaConfiguration {
    fn initialize(&mut self, site: &mut Initializer) -> Result<(), SiteError> {
        site.configure_renderer(self.0.clone());
        Ok(())
    }
}

/// Hands each page's string tags to its template under `tags`.
pub struct Tags;

pub open spec fn str_values(vs: Seq<Value>) -> Seq<Seq<char>>
    decreases vs.len(),
{
    if vs.len() == 0 {
        Seq::empty()
    } else {
        match vs.last() {
            Value::Str(s) => str_values(vs.drop_last()).push(s@),
            _ => str_values(vs.drop_last()).push(Seq::empty()),
        }
    }
}

impl Tags {
    /// The page's string tags, in order, as template values.
    pub fn tag_values(&self, page: &Page) -> (r: Vec<Value>)
        ensures
            str_values(r@) == tags_of(*page),
            forall|i: int| 0 <= i < r@.len() ==> r@[i] is Str,
    {
        let mut out: Vec<Value> = Vec::new();
        match find_meta(&page.meta.meta, "tags") {
            Some(Metadata::List(tags)) => {
                let mut i: usize = 0;
                assert(tags@.take(0) =~= Seq::<Metadata>::empty());
                while i < tags.len()
                    invariant
                        0 <= i <= tags@.len(),
                        str_values(out@) == string_items(tags@.take(i as int)),
                        forall|j: int| 0 <= j < out@.len() ==> out@[j] is Str,
                    decreases tags@.len() - i,
                {
                    let ghost prev = out@;
                    assert(tags@.take(i as int + 1).drop_last() =~= tags@.take(i as int));
                    match &tags[i] {
                        Metadata::Str(s) => {
                            out.push(Value::Str(s.clone()));
                            assert(out@.drop_last() =~= prev);
                        },
                        _ => {},
                    }
                    i = i + 1;
                }
                assert(tags@.take(i as int) =~= tags@);
            },
            _ => {},
        }
        out
    }
}

impl Processor for Tags {
    fn page_rendering(&self, page: &Page, rendering: &mut RenderingPage) -> Result<(), SiteError> {
        let tags = self.tag_values(page);
        let ghost before = rendering.v.entries@;
        rendering.values().insert(String::from_str("tags"), Value::List(tags));
        assert(rendering.v.entries@.subrange(1, rendering.v.entries@.len() as int) =~= before);
        Ok(())
    }
}

/// The processors this library provides, as one type.
pub enum Builtin {
    Md(Md),
    Jinja(JinjaConfiguration),
    Tags(Tags),
    TagArchive(Archive<TagArchivist>),
    DateArchive(Archive<DateArchivist>),
}

impl Processor for Builtin {
    fn initialize(&mut self, site: &mut Initializer) -> Result<(), SiteError> {
        match self {
            Builtin::Md(p) => p.initialize(site),
            Builtin::Jinja(p) => p.initialize(site),
            Builtin::Tags(p) => p.initialize(site),
            Builtin::TagArchive(p) => p.initialize(site),
            Builtin::DateArchive(p) => p.initialize(site),
        }
    }

    fn page_loading(&mut self, page: &mut PageBuilder) -> Result<(), LoadError> {
        match self {
            Builtin::Md(p) => p.page_loading(page),
            Builtin::Jinja(p) => p.page_loading(page),
            Builtin::Tags(p) => p.page_loading(page),
            Builtin::TagArchive(p) => p.page_loading(page),
            Builtin::DateArchive(p) => p.page_loading(page),
        }
    }

    fn site_loaded(&mut self, corpus: &mut Corpus) -> Result<(), SiteError> {
        match self {
            Builtin::Md(p) => p.site_loaded(corpus),
            Builtin::Jinja(p) => p.site_loaded(corpus),
            Builtin::Tags(p) => p.site_loaded(corpus),
            Builtin::TagArchive(p) => p.site_loaded(corpus),
            Builtin::DateArchive(p) => p.site_loaded(corpus),
        }
    }

    fn global_render_context(&self, ctx: &mut RenderContext) -> Result<(), SiteError> {
        match self {
            Builtin::Md(p) => p.global_render_context(ctx),
            Builtin::Jinja(p) => p.global_render_context(ctx),
            Builtin::Tags(p) => p.global_render_context(ctx),
            Builtin::TagArchive(p) => p.global_render_context(ctx),
            Builtin::DateArchive(p) => p.global_render_context(ctx),
        }
    }

    fn page_rendering(&self, page: &Page, rendering: &mut RenderingPage) -> Result<(), SiteError> {
        match self {
            Builtin::Md(p) => p.page_rendering(page, rendering),
            Builtin::Jinja(p) => p.page_rendering(page, rendering),
            Builtin::Tags(p) => p.page_rendering(page, rendering),
            Builtin::TagArchive(p) => p.page_rendering(page, rendering),
            Builtin::DateArchive(p) => p.page_rendering(page, rendering),
        }
    }

    fn site_rendering<E: TemplateEngine>(&self, corpus: &Corpus, site: &mut RenderingSite<E>) -> (r: Result<(), SiteError>) {
        match self {
            Builtin::Md(p) => p.site_rendering(corpus, site),
            Builtin::Jinja(p) => p.site_rendering(corpus, site),
            Builtin::Tags(p) => p.site_rendering(corpus, site),
            Builtin::TagArchive(p) => p.site_rendering(corpus, site),
            Builtin::DateArchive(p) => p.site_rendering(corpus, site),
        }
    }

    fn finalize(&mut self) -> Result<(), SiteError> {
        match self {
            Builtin::Md(p) => p.finalize(),
            Builtin::Jinja(p) => p.finalize(),
            Builtin::Tags(p) => p.finalize(),
            Builtin::TagArchive(p) => p.finalize(),
            Builtin::DateArchive(p) => p.finalize(),
        }
    }
}

} // verus!
