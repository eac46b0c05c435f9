use crate::definitions::Definitions;
use crate::doctree::{Element, FootnoteDefinition, Group};
use crate::href::HrefDefinition;
use crate::ids::Id;
use vstd::prelude::*;

verus! {

/// A value of a page's metadata block.
pub enum Metadata {
    List(Vec<Metadata>),
    Dict(Vec<(String, Metadata)>),
    /// A number, as it was written.
    Number(String),
    Str(String),
    Bool(bool),
}

#[derive(Clone, Copy, PartialEq, Eq, Structural)]
pub enum PageStatus {
    Draft,
    Published,
}

/// The marker of the corpus's identity space.
pub struct CorpusSpace;

/// The source path backing a page.
pub struct Origin(pub String);

impl Origin {
    pub fn new(p: String) -> (r: Origin)
        ensures
            r.0@ == p@,
    {
        Origin(p)
    }

    pub fn as_str(&self) -> (r: &str)
        ensures
            r@ == self.0@,
    {
        self.0.as_str()
    }
}

/// Why a page could not be loaded; each error names the page's source.
pub enum LoadError {
    /// A required metadata key is absent: the origin, then the key.
    MissingRequiredMetadata(String, String),
    /// The source is malformed: the origin, then what is wrong.
    SourceFormat(String, String),
}

impl LoadError {
    pub fn origin(&self) -> (r: &String)
        ensures
            r@ == load_error_origin(*self),
    {
        match self {
            LoadError::MissingRequiredMetadata(o, _) => o,
            LoadError::SourceFormat(o, _) => o,
        }
    }
}

pub open spec fn load_error_origin(e: LoadError) -> Seq<char> {
    match e {
        LoadError::MissingRequiredMetadata(o, _) => o@,
        LoadError::SourceFormat(o, _) => o@,
    }
}

pub struct PageMetadata {
    pub title: String,
    pub origin: Origin,
    pub when: String,
    pub tpl_name: String,
    pub status: PageStatus,
    pub url: Option<String>,
    pub meta: Vec<(String, Metadata)>,
    pub summary: Option<Group>,
}

pub struct PageContents {
    pub content: Vec<Element>,
    pub footnotes: Definitions<FootnoteDefinition>,
    pub hrefs: Definitions<HrefDefinition>,
}

/// A page as it stands in the corpus: finished and no longer mutable.
pub struct Page {
    pub id: Id<CorpusSpace>,
    pub meta: PageMetadata,
    pub content: PageContents,
}

impl Page {
    pub fn title(&self) -> (r: &str)
        ensures
            r@ == self.meta.title@,
    {
        self.meta.title.as_str()
    }

    pub fn origin(&self) -> (r: &Origin)
        ensures
            *r == self.meta.origin,
    {
        &self.meta.origin
    }
}

/// The accumulator a loader and the processors fill before the page is
/// finished.
pub struct PageBuilder {
    pub id: Id<CorpusSpace>,
    pub title: Option<String>,
    pub contents: Vec<Element>,
    pub filepath: String,
    pub notes: Definitions<FootnoteDefinition>,
    pub page_hrefs: Definitions<HrefDefinition>,
    pub when: Option<String>,
    pub page_status: PageStatus,
    pub tpl_name: String,
    pub url_path: Option<String>,
    pub meta: Vec<(String, Metadata)>,
    pub summary: Option<Group>,
}

/// The metadata key that a builder still lacks, if any: the title first.
pub open spec fn missing_key(b: PageBuilder) -> Option<Seq<char>> {
    if b.title is None {
        Some("title"@)
    } else if b.when is None {
        Some("date"@)
    } else {
        None
    }
}

impl PageBuilder {
    /// A fresh builder: published, template `page.html`, nothing else set.
    pub fn new(id: Id<CorpusSpace>, f: String) -> (r: PageBuilder)
        ensures
            r.id == id,
            r.filepath@ == f@,
            r.title is None,
            r.when is None,
            r.url_path is None,
            r.summary is None,
            r.contents@.len() == 0,
            r.meta@.len() == 0,
            r.notes@.labels.len() == 0,
            r.notes@.defs.is_empty(),
            r.page_hrefs@.labels.len() == 0,
            r.page_hrefs@.defs.is_empty(),
            r.page_status == PageStatus::Published,
            r.tpl_name@ == "page.html"@,
    {
        PageBuilder {
            id,
            title: None,
            contents: Vec::new(),
            filepath: f,
            notes: Definitions::new(),
            page_hrefs: Definitions::new(),
            when: None,
            page_status: PageStatus::Published,
            tpl_name: String::from_str("page.html"),
            url_path: None,
            meta: Vec::new(),
            summary: None,
        }
    }

    pub fn with_title(&mut self, title: String)
        ensures
            *final(self) == (PageBuilder { title: Some(title), ..*old(self) }),
    {
        self.title = Some(title);
    }

    pub fn written(&mut self, d: String)
        ensures
            *final(self) == (PageBuilder { when: Some(d), ..*old(self) }),
    {
        self.when = Some(d);
    }

    pub fn status(&mut self, s: PageStatus)
        ensures
            *final(self) == (PageBuilder { page_status: s, ..*old(self) }),
    {
        self.page_status = s;
    }

    pub fn template(&mut self, name: String)
        ensures
            *final(self) == (PageBuilder { tpl_name: name, ..*old(self) }),
    {
        self.tpl_name = name;
    }

    pub fn content(&mut self, content: Element)
        ensures
            final(self).contents@ == old(self).contents@.push(content),
            *final(self) == (PageBuilder { contents: final(self).contents, ..*old(self) }),
    {
        self.contents.push(content);
    }

    /// Sets the destination, replacing any earlier one.
    pub fn url(&mut self, d: String)
        ensures
            *final(self) == (PageBuilder { url_path: Some(d), ..*old(self) }),
    {
        self.url_path = Some(d);
    }

    /// Sets the destination only if none was chosen yet.
    pub fn url_or(&mut self, d: String)
        ensures
            old(self).url_path is Some ==> *final(self) == *old(self),
            old(self).url_path is None ==> *final(self) == (PageBuilder { url_path: Some(d), ..*old(self) }),
    {
        if self.url_path.is_none() {
            self.url_path = Some(d);
        }
    }

    pub fn footnotes(&mut self) -> (r: &mut Definitions<FootnoteDefinition>)
        ensures
            *r == old(self).notes,
            *final(self) == (PageBuilder { notes: *final(r), ..*old(self) }),
    {
        &mut self.notes
    }

    pub fn hrefs(&mut self) -> (r: &mut Definitions<HrefDefinition>)
        ensures
            *r == old(self).page_hrefs,
            *final(self) == (PageBuilder { page_hrefs: *final(r), ..*old(self) }),
    {
        &mut self.page_hrefs
    }

    /// Finishes the page; fails, naming the page's source, when the title or
    /// the date is missing.
    pub fn build(self) -> (r: Result<Page, LoadError>)
        ensures
            r is Ok <==> missing_key(self) is None,
            r matches Err(LoadError::MissingRequiredMetadata(o, k)) ==> o@ == self.filepath@ && Some(k@) == missing_key(self),
            !(r matches Err(LoadError::SourceFormat(_, _))),
            r matches Ok(p) ==> built_from(p, self),
    {
        let PageBuilder {
            id, title, contents, filepath, notes, page_hrefs, when, page_status, tpl_name, url_path, meta, summary,
        } = self;
        match title {
            None => Err(LoadError::MissingRequiredMetadata(filepath, String::from_str("title"))),
            Some(title) => match when {
                None => Err(LoadError::MissingRequiredMetadata(filepath, String::from_str("date"))),
                Some(when) => Ok(Page {
                    id,
                    meta: PageMetadata {
                        title,
                        origin: Origin(filepath),
                        when,
                        tpl_name,
                        status: page_status,
                        url: url_path,
                        meta,
                        summary,
                    },
                    content: PageContents { content: contents, footnotes: notes, hrefs: page_hrefs },
                }),
            },
        }
    }
}

/// `p` carries exactly what the builder `b` held.
pub open spec fn built_from(p: Page, b: PageBuilder) -> bool {
    &&& p.id == b.id
    &&& b.title == Some(p.meta.title)
    &&& b.when == Some(p.meta.when)
    &&& p.meta.origin.0 == b.filepath
    &&& p.meta.tpl_name == b.tpl_name
    &&& p.meta.status == b.page_status
    &&& p.meta.url == b.url_path
    &&& p.meta.meta == b.meta
    &&& p.meta.summary == b.summary
    &&& p.content.content == b.contents
    &&& p.content.footnotes == b.notes
    &&& p.content.hrefs == b.page_hrefs
}

} // verus!
