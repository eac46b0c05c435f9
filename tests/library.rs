use donter::archive::{Buckets, TagArchivist, TagSorting};
use donter::context::{RenderContext, Value};
use donter::corpus::{Corpus, CorpusEntry};
use donter::definitions::Definitions;
use donter::doctree::{Element, Group, Text};
use donter::frontmatter::{frontmatter_to_page_meta, to_metadata, FrontValue};
use donter::href::Href;
use donter::ids::IdPool;
use donter::linker::{ArticleSlugStyle, Linker, LinkerOptions};
use donter::markdown::{build_document, heading_slug, MdNode};
use donter::page::{LoadError, Metadata, Page, PageStatus};
use donter::pipeline::{App, Builder, Processor};
use donter::processors::Builtin;
use donter::rendered::{PageTemplate, RenderingPage, SiteError, TemplateEngine, Writable};
use donter::text::decimal_string;

fn text(s: &str) -> Element {
    Element::Text(Text::create(s.to_string()))
}

fn group_of(n: usize) -> Group {
    let mut g = Group::new();
    for i in 0..n {
        g.push(text(&format!("t{}", i)));
    }
    g
}

fn show(v: &Value) -> String {
    match v {
        Value::Null => "null".to_string(),
        Value::Bool(b) => format!("{}", b),
        Value::Str(s) => s.clone(),
        Value::Safe(s) => s.clone(),
        Value::List(items) => {
            let parts: Vec<String> = items.iter().map(show).collect();
            format!("[{}]", parts.join(","))
        }
        Value::Dict(entries) => {
            let parts: Vec<String> = entries.iter().map(|(k, v)| format!("{}={}", k, show(v))).collect();
            format!("{{{}}}", parts.join(";"))
        }
    }
}

/// Writes the template name and the values, first binding of each key only.
struct EchoEngine;

impl TemplateEngine for EchoEngine {
    fn render(&mut self, template: &str, values: &RenderContext, _globals: &RenderContext) -> Result<String, String> {
        let mut seen: Vec<String> = Vec::new();
        let mut out = format!("{}:", template);
        for (k, v) in values.entries.iter() {
            if !seen.contains(k) {
                seen.push(k.clone());
                out.push_str(&format!("{}={}\n", k, show(v)));
            }
        }
        Ok(out)
    }
}

fn linker(style: ArticleSlugStyle, root: Option<&str>) -> Linker {
    Linker::new(LinkerOptions { page_root: root.map(|r| r.to_string()), slug_style: style })
}

fn s(x: &str) -> String {
    x.to_string()
}

fn page_doc(title: &str, body: Vec<MdNode>) -> MdNode {
    let mut nodes = vec![MdNode::Yaml(vec![FrontValue::Hash(vec![
        (FrontValue::Str(s("title")), FrontValue::Str(s(title))),
        (FrontValue::Str(s("date")), FrontValue::Str(s("2024-01-01"))),
    ])])];
    nodes.extend(body);
    MdNode::Root(nodes)
}

fn load(corpus: &mut Corpus, path: &str, doc: &MdNode) {
    let mut b = corpus.make_page(s(path));
    build_document(doc, &mut b).ok().expect("document translates");
    corpus.add_page(b).ok().expect("page is complete");
}

fn rendered_pages(corpus: &Corpus, l: Linker) -> Vec<(String, String)> {
    let app: App<NoProcessor> = match App::create(vec![], l.opts) {
        Ok(a) => a,
        Err(_) => panic!("create failed"),
    };
    let out = match app.render(corpus, EchoEngine) {
        Ok(o) => o,
        Err(_) => panic!("render failed"),
    };
    out.site
        .entries()
        .into_iter()
        .filter_map(|(_, w)| match w {
            Writable::Page(p) => Some((p.meta.url.clone(), p.content)),
            _ => None,
        })
        .collect()
}

struct NoProcessor;
impl Processor for NoProcessor {}

#[test]
fn group_normalization_by_arity() {
    assert!(matches!(group_of(0).into_element(), Element::Empty));
    match group_of(1).into_element() {
        Element::Text(t) => assert_eq!(t.inner(), "t0"),
        _ => panic!("one child is unwrapped"),
    }
    match group_of(2).into_element() {
        Element::Group(g) => assert_eq!(g.children().len(), 2),
        _ => panic!("two children stay a group"),
    }
    match group_of(5).into_element() {
        Element::Group(g) => assert_eq!(g.children().len(), 5),
        _ => panic!("five children stay a group"),
    }
}

#[test]
fn group_from_element() {
    assert_eq!(Group::from_element(text("x")).children().len(), 1);
    assert_eq!(Group::from_element(Element::Group(group_of(3))).children().len(), 3);
}

#[test]
fn definition_first_wins() {
    let mut d: Definitions<String> = Definitions::new();
    d.define(&s("a"), s("first"));
    d.define(&s("a"), s("second"));
    assert_eq!(d.lookup(&s("a")).map(|v| v.as_str()), Some("first"));
}

#[test]
fn label_before_definition_keeps_position() {
    let mut d: Definitions<String> = Definitions::new();
    d.add_label(&s("a"));
    assert!(d.lookup(&s("a")).is_none());
    d.add_label(&s("b"));
    d.add_label(&s("a"));
    assert_eq!(d.labels, vec![s("a"), s("b")]);
    d.define(&s("b"), s("B"));
    d.define(&s("a"), s("A"));
    let defs: Vec<&String> = d.definitions();
    assert_eq!(defs, vec![&s("A"), &s("B")]);
}

#[test]
fn undefined_labels_are_passed_over() {
    let mut d: Definitions<String> = Definitions::new();
    d.add_label(&s("x"));
    d.add_label(&s("y"));
    d.define(&s("y"), s("Y"));
    assert_eq!(d.definitions(), vec![&s("Y")]);
}

#[test]
fn slug_is_deterministic() {
    let l = linker(ArticleSlugStyle::Page, None);
    assert_eq!(l.slug("content/post.md"), l.slug("content/post.md"));
    assert_eq!(l.slug("content/post.md"), "post.html");
}

#[test]
fn slug_styles() {
    assert_eq!(linker(ArticleSlugStyle::Page, None).slug("dir/name.md"), "name.html");
    assert_eq!(linker(ArticleSlugStyle::Directory, None).slug("dir/name.md"), "name/index.html");
    assert_eq!(linker(ArticleSlugStyle::Page, Some("blog")).slug("name.md"), "blog/name.html");
    assert_eq!(linker(ArticleSlugStyle::Directory, Some("blog/")).slug("name.md"), "blog/name/index.html");
}

#[test]
fn slug_edge_cases() {
    let l = linker(ArticleSlugStyle::Page, None);
    assert_eq!(l.slug("archive.tar.gz"), "archive.tar.html");
    assert_eq!(l.slug(".hidden"), ".hidden.html");
    assert_eq!(l.slug("noext"), "noext.html");
}

#[test]
fn id_pool_counts_up() {
    let mut pool: IdPool<u8> = IdPool::new(7);
    let a = pool.next();
    let b = pool.next();
    assert_eq!((a.id, a.parent), (0, 7));
    assert_eq!((b.id, b.parent), (1, 7));
    assert!(!a.same(&b));
    assert!(a.same(&a.duplicate()));
}

#[test]
fn href_classification() {
    assert!(matches!(Href::parse("https://example.com/x"), Ok(Href::Url(_))));
    assert!(matches!(Href::parse("other.md"), Ok(Href::LocalFile(_))));
    assert!(Href::parse("").is_err());
}

#[test]
fn href_targets() {
    let l = linker(ArticleSlugStyle::Page, None);
    assert_eq!(Href::unparsed(s("other.md")).target(&l), "other.html");
    assert_eq!(Href::unparsed(s("https://x.org/a.md")).target(&l), "https://x.org/a.md");
    assert_eq!(Href::unparsed(s("img.png")).target(&l), "img.png");
}

#[test]
fn decimal_digits() {
    assert_eq!(decimal_string(0), "0");
    assert_eq!(decimal_string(6), "6");
    assert_eq!(decimal_string(1312), "1312");
}

#[test]
fn heading_ids() {
    assert_eq!(heading_slug("Hello Big World"), "hello-big-world");
}

#[test]
fn missing_title_is_reported_with_origin() {
    let mut corpus = Corpus::create(1);
    let mut b = corpus.make_page(s("posts/a.md"));
    b.written(s("2024-01-01"));
    match corpus.add_page(b) {
        Err(LoadError::MissingRequiredMetadata(o, k)) => {
            assert_eq!(o, "posts/a.md");
            assert_eq!(k, "title");
        }
        _ => panic!("a page without title is refused"),
    }
    assert_eq!(corpus.entries().len(), 0);
}

#[test]
fn missing_date_is_reported() {
    let mut corpus = Corpus::create(1);
    let mut b = corpus.make_page(s("a.md"));
    b.with_title(s("A"));
    assert!(matches!(corpus.add_page(b), Err(LoadError::MissingRequiredMetadata(_, k)) if k == "date"));
}

#[test]
fn frontmatter_reads_title_date_status() {
    let mut corpus = Corpus::create(1);
    let mut b = corpus.make_page(s("a.md"));
    let docs = vec![FrontValue::Hash(vec![
        (FrontValue::Str(s("Title")), FrontValue::Str(s("Hello"))),
        (FrontValue::Str(s("date")), FrontValue::Str(s("2024-02-03"))),
        (FrontValue::Str(s("status")), FrontValue::Str(s("DRAFT"))),
        (FrontValue::Str(s("count")), FrontValue::Integer(-42)),
    ])];
    assert!(frontmatter_to_page_meta(&docs, &mut b).is_ok());
    assert_eq!(b.title.as_deref(), Some("Hello"));
    assert_eq!(b.when.as_deref(), Some("2024-02-03"));
    assert!(b.page_status == PageStatus::Draft);
    assert!(matches!(&b.meta[3].1, Metadata::Number(n) if n == "-42"));
}

#[test]
fn frontmatter_rejects_non_string_title() {
    let mut corpus = Corpus::create(1);
    let mut b = corpus.make_page(s("a.md"));
    let docs = vec![FrontValue::Hash(vec![(FrontValue::Str(s("title")), FrontValue::Integer(3))])];
    assert!(matches!(frontmatter_to_page_meta(&docs, &mut b), Err(LoadError::SourceFormat(o, _)) if o == "a.md"));
    let not_map = vec![FrontValue::Str(s("x"))];
    assert!(frontmatter_to_page_meta(&not_map, &mut b).is_err());
    assert!(frontmatter_to_page_meta(&vec![], &mut b).is_err());
}

#[test]
fn metadata_lists_drop_unconvertible_items() {
    let v = FrontValue::Array(vec![FrontValue::Str(s("a")), FrontValue::Null, FrontValue::Boolean(true)]);
    match to_metadata(&v) {
        Ok(Metadata::List(items)) => assert_eq!(items.len(), 2),
        _ => panic!("lists convert"),
    }
    assert!(to_metadata(&FrontValue::Null).is_err());
    let bad_key = FrontValue::Hash(vec![(FrontValue::Integer(1), FrontValue::Str(s("x")))]);
    assert!(to_metadata(&bad_key).is_err());
}

#[test]
fn forward_reference_resolves() {
    let mut corpus = Corpus::create(1);
    let doc = page_doc(
        "Fwd",
        vec![
            MdNode::Paragraph(vec![MdNode::LinkReference { identifier: s("x"), children: vec![MdNode::Text(s("see x"))] }]),
            MdNode::Definition { identifier: s("x"), url: s("https://example.com/x") },
        ],
    );
    load(&mut corpus, "fwd.md", &doc);
    let pages = rendered_pages(&corpus, linker(ArticleSlugStyle::Page, None));
    assert_eq!(pages.len(), 1);
    assert!(pages[0].1.contains("<a href=\"https://example.com/x\">see x</a>"));
}

#[test]
fn unresolved_reference_is_marked() {
    let mut corpus = Corpus::create(1);
    let doc = page_doc(
        "Broken",
        vec![MdNode::Paragraph(vec![MdNode::LinkReference { identifier: s("nope"), children: vec![MdNode::Text(s("x"))] }])],
    );
    load(&mut corpus, "broken.md", &doc);
    let pages = rendered_pages(&corpus, linker(ArticleSlugStyle::Page, None));
    assert!(pages[0].1.contains("<a class=\"unresolved\">x</a>"));
}

#[test]
fn end_to_end_footnote_and_link() {
    let mut corpus = Corpus::create(1);
    let first = page_doc(
        "First",
        vec![
            MdNode::Paragraph(vec![
                MdNode::Text(s("see")),
                MdNode::FootnoteReference { identifier: s("1") },
                MdNode::Link { url: s("other.md"), children: vec![MdNode::Text(s("docs"))] },
            ]),
            MdNode::FootnoteDefinition { identifier: s("1"), children: vec![MdNode::Paragraph(vec![MdNode::Text(s("text"))])] },
        ],
    );
    let second = page_doc("Other", vec![MdNode::Paragraph(vec![MdNode::Text(s("hello"))])]);
    load(&mut corpus, "content/first.md", &first);
    load(&mut corpus, "content/other.md", &second);
    let l = linker(ArticleSlugStyle::Page, None);
    let other_slug = l.slug("content/other.md");
    let pages = rendered_pages(&corpus, l);
    let first_page = &pages.iter().find(|(u, _)| u == "first.html").expect("first page").1;
    assert!(first_page.contains("<a href=\"#1\">1</a>"));
    assert!(first_page.contains("<li id=\"1\">"));
    assert!(first_page.contains(&format!("<a href=\"{}\">docs</a>", other_slug)));
    assert!(pages.iter().any(|(u, _)| *u == other_slug));
}

#[test]
fn destination_collision_is_fatal() {
    let mut corpus = Corpus::create(1);
    load(&mut corpus, "a/post.md", &page_doc("One", vec![]));
    load(&mut corpus, "b/post.md", &page_doc("Two", vec![]));
    let app: App<NoProcessor> = match App::create(vec![], LinkerOptions::default_options()) {
        Ok(a) => a,
        Err(_) => panic!("create failed"),
    };
    match app.render(&corpus, EchoEngine) {
        Err(SiteError::AlreadyOccupied(d)) => assert_eq!(d, "post.html"),
        _ => panic!("a collision ends the build"),
    }
}

struct Trail(&'static str);

impl Processor for Trail {
    fn page_rendering(&self, _page: &Page, rendering: &mut RenderingPage) -> Result<(), SiteError> {
        let mut names: Vec<Value> = Vec::new();
        for (k, v) in rendering.values().entries.iter() {
            if k == "trail" {
                if let Value::List(items) = v {
                    for item in items {
                        if let Value::Str(s) = item {
                            names.push(Value::Str(s.clone()));
                        }
                    }
                }
                break;
            }
        }
        names.push(Value::Str(self.0.to_string()));
        rendering.values().insert("trail".to_string(), Value::List(names));
        Ok(())
    }
}

#[test]
fn processors_run_in_registration_order() {
    let mut corpus = Corpus::create(1);
    load(&mut corpus, "p.md", &page_doc("P", vec![]));
    let app = match App::create(vec![Trail("A"), Trail("B")], LinkerOptions::default_options()) {
        Ok(a) => a,
        Err(_) => panic!("create failed"),
    };
    let out = match app.render(&corpus, EchoEngine) {
        Ok(o) => o,
        Err(_) => panic!("render failed"),
    };
    let page = out
        .site
        .entries()
        .into_iter()
        .find_map(|(_, w)| match w {
            Writable::Page(p) => Some(p.content),
            _ => None,
        })
        .expect("one page");
    assert!(page.contains("trail=[A,B]"));
    assert!(!page.contains("trail=[B,A]"));
}

#[test]
fn same_url_shares_one_definition() {
    let mut corpus = Corpus::create(1);
    let mut b = corpus.make_page(s("l.md"));
    let doc = MdNode::Root(vec![MdNode::Paragraph(vec![
        MdNode::Link { url: s("https://a.org"), children: vec![MdNode::Text(s("one"))] },
        MdNode::Link { url: s("https://a.org"), children: vec![MdNode::Text(s("two"))] },
        MdNode::Image { url: s("https://b.org/i.png"), alt: s("pic") },
    ])]);
    assert!(build_document(&doc, &mut b).is_ok());
    assert_eq!(b.page_hrefs.defs.len(), 2);
    assert_ne!(b.page_hrefs.defs[0].0, "https://a.org");
}

#[test]
fn nested_definition_is_an_error() {
    let mut corpus = Corpus::create(1);
    let mut b = corpus.make_page(s("q.md"));
    let doc = MdNode::Root(vec![MdNode::BlockQuote(vec![MdNode::Definition { identifier: s("a"), url: s("x") }])]);
    assert!(matches!(build_document(&doc, &mut b), Err(LoadError::SourceFormat(o, _)) if o == "q.md"));
}

#[test]
fn unknown_top_level_nodes_are_skipped() {
    let mut corpus = Corpus::create(1);
    let mut b = corpus.make_page(s("o.md"));
    let doc = MdNode::Root(vec![MdNode::Other(s("Html")), MdNode::Paragraph(vec![MdNode::Text(s("ok"))])]);
    assert!(build_document(&doc, &mut b).is_ok());
    assert!(matches!(&b.contents[0], Element::Paragraph(_)));
    let nested = MdNode::Root(vec![MdNode::Paragraph(vec![MdNode::Other(s("Html"))])]);
    assert!(build_document(&nested, &mut b).is_err());
}

#[test]
fn heading_gets_generated_id() {
    let mut corpus = Corpus::create(1);
    let mut b = corpus.make_page(s("h.md"));
    let doc = MdNode::Root(vec![MdNode::Heading { depth: 2, children: vec![MdNode::Text(s("My Title"))] }]);
    assert!(build_document(&doc, &mut b).is_ok());
    match &b.contents[0] {
        Element::Heading(h) => {
            assert_eq!(h.depth(), 2);
            assert_eq!(h.label(), "my-title");
            assert_eq!(h.text(), "My Title");
        }
        _ => panic!("a heading"),
    }
}

#[test]
fn tags_are_case_folded_into_buckets() {
    let mut corpus = Corpus::create(1);
    let mut b = corpus.make_page(s("t.md"));
    b.with_title(s("T"));
    b.written(s("2024"));
    b.meta.push((s("tags"), Metadata::List(vec![Metadata::Str(s("Rust")), Metadata::Bool(true), Metadata::Str(s("rust"))])));
    assert!(corpus.add_page(b).is_ok());
    let pages = corpus.pages();
    let mut buckets = Buckets::with_capacity(1);
    TagArchivist(TagSorting::Alphabetical).archive(pages[0], &mut buckets);
    let id = pages[0].id.duplicate();
    assert!(buckets.buckets()[0].1.iter().all(|x| x.same(&id)));
    assert_eq!(buckets.len(), 1);
    assert_eq!(buckets.buckets()[0].0, "rust");
    assert_eq!(buckets.buckets()[0].1.len(), 2);
}

#[test]
fn buckets_keep_order() {
    let mut b: Buckets<u32> = Buckets::with_capacity(2);
    b.push(s("x"), 1);
    b.push(s("y"), 2);
    b.push(s("x"), 3);
    b.insert(s("y"), vec![4, 5]);
    let all = b.into_buckets();
    assert_eq!(all, vec![(s("x"), vec![1, 3]), (s("y"), vec![2, 4, 5])]);
}

#[test]
fn later_context_values_hide_earlier() {
    let mut ctx = RenderContext::empty();
    ctx.insert(s("k"), Value::Str(s("old")));
    let mut other = RenderContext::empty();
    other.insert(s("k"), Value::Str(s("new")));
    ctx.merge(other);
    assert!(matches!(&ctx.entries[0].1, Value::Str(v) if v == "new"));
}

#[test]
fn static_assets_go_under_assets() {
    let mut corpus = Corpus::create(1);
    corpus.include_asset(s("style.css"));
    let app: App<NoProcessor> = match App::create(vec![], LinkerOptions::default_options()) {
        Ok(a) => a,
        Err(_) => panic!("create failed"),
    };
    let out = match app.render(&corpus, EchoEngine) {
        Ok(o) => o,
        Err(_) => panic!("render failed"),
    };
    let entries = out.site.entries();
    assert_eq!(entries.len(), 1);
    assert!(matches!(&entries[0].1, Writable::Asset(a) if a.dest == "assets/style.css"));
    assert!(matches!(corpus.entries()[0].1, CorpusEntry::StaticAsset(_)));
}

struct FailingEngine;

impl TemplateEngine for FailingEngine {
    fn render(&mut self, template: &str, _values: &RenderContext, _globals: &RenderContext) -> Result<String, String> {
        Err(format!("no template {}", template))
    }
}

#[test]
fn template_failure_is_reported_per_page() {
    let mut corpus = Corpus::create(1);
    load(&mut corpus, "one.md", &page_doc("One", vec![]));
    load(&mut corpus, "two.md", &page_doc("Two", vec![]));
    let app: App<NoProcessor> = match App::create(vec![], LinkerOptions::default_options()) {
        Ok(a) => a,
        Err(_) => panic!("create failed"),
    };
    match app.render(&corpus, FailingEngine) {
        Ok(out) => {
            assert_eq!(out.page_errors.len(), 2);
            assert_eq!(out.page_errors[0].0, "one.md");
            assert!(matches!(&out.page_errors[0].1, SiteError::Template(t, _) if t == "page.html"));
            assert_eq!(out.from_corpus, 0);
            assert_eq!(out.site.entries().len(), 0);
        }
        Err(_) => panic!("template failures do not end the build"),
    }
}

#[test]
fn tag_archive_lists_rendered_pages() {
    let mut corpus = Corpus::create(1);
    let tagged = MdNode::Root(vec![MdNode::Yaml(vec![FrontValue::Hash(vec![
        (FrontValue::Str(s("title")), FrontValue::Str(s("Tagged"))),
        (FrontValue::Str(s("date")), FrontValue::Str(s("2024-01-01"))),
        (FrontValue::Str(s("tags")), FrontValue::Array(vec![FrontValue::Str(s("News"))])),
    ])])]);
    load(&mut corpus, "tagged.md", &tagged);
    let archive = donter::archive::Archive::new(
        TagArchivist(TagSorting::Alphabetical),
        PageTemplate { title: s("Tags"), url: s("tags"), template: s("tags.html") },
    );
    let mut app = match App::create(vec![Builtin::TagArchive(archive)], LinkerOptions::default_options()) {
        Ok(a) => a,
        Err(_) => panic!("create failed"),
    };
    assert!(app.process(&mut corpus).is_ok());
    let out = match app.render(&corpus, EchoEngine) {
        Ok(o) => o,
        Err(_) => panic!("render failed"),
    };
    let tags_page = out
        .site
        .entries()
        .into_iter()
        .find_map(|(_, w)| match w {
            Writable::Page(p) if p.meta.url == "tags/news.html" => Some((p.meta.title.clone(), p.content)),
            _ => None,
        })
        .expect("archive page");
    assert_eq!(tags_page.0, "Tags: news");
    assert!(tags_page.1.contains("archive={key=news;pages=[{title=Tagged;summary=null}]}"));
    assert!(app.finalize().is_ok());
}

#[test]
fn builder_registers_in_order() {
    let b: Builder<Trail> = Builder::new().with(Trail("A")).with_when(false, Trail("X")).with_when(true, Trail("B"));
    let names: Vec<&str> = b.processors.iter().map(|t| t.0).collect();
    assert_eq!(names, vec!["A", "B"]);
    match b.linker(LinkerOptions { page_root: None, slug_style: ArticleSlugStyle::Directory }).create() {
        Ok(app) => {
            assert_eq!(app.processors.len(), 2);
            assert_eq!(app.linker.slug("x.md"), "x/index.html");
        }
        Err(_) => panic!("create failed"),
    }
}

#[test]
fn one_archive_page_per_bucket() {
    let mut corpus = Corpus::create(1);
    for (path, title, tag) in [("a.md", "A", "x"), ("b.md", "B", "Y"), ("c.md", "C", "x")] {
        let doc = MdNode::Root(vec![MdNode::Yaml(vec![FrontValue::Hash(vec![
            (FrontValue::Str(s("title")), FrontValue::Str(s(title))),
            (FrontValue::Str(s("date")), FrontValue::Str(s("2024"))),
            (FrontValue::Str(s("tags")), FrontValue::Array(vec![FrontValue::Str(s(tag))])),
        ])])]);
        load(&mut corpus, path, &doc);
    }
    let archive = donter::archive::Archive::new(
        TagArchivist(TagSorting::Alphabetical),
        PageTemplate { title: s("Tags"), url: s("tags"), template: s("tags.html") },
    );
    let mut app = match Builder::new().with(Builtin::TagArchive(archive)).create() {
        Ok(a) => a,
        Err(_) => panic!("create failed"),
    };
    assert!(app.process(&mut corpus).is_ok());
    let out = match app.render(&corpus, EchoEngine) {
        Ok(o) => o,
        Err(_) => panic!("render failed"),
    };
    assert_eq!(out.from_corpus, 3);
    let urls: Vec<String> = out.site.entries().into_iter().map(|(_, w)| w.destination().clone()).collect();
    assert_eq!(urls, vec![s("a.html"), s("b.html"), s("c.html"), s("tags/x.html"), s("tags/y.html")]);
}

#[test]
fn collision_is_reported_before_rendering() {
    let mut corpus = Corpus::create(1);
    load(&mut corpus, "x/same.md", &page_doc("One", vec![]));
    load(&mut corpus, "y/same.md", &page_doc("Two", vec![]));
    let app: App<NoProcessor> = match App::create(vec![], LinkerOptions::default_options()) {
        Ok(a) => a,
        Err(_) => panic!("create failed"),
    };
    assert_eq!(app.find_collision(&corpus), Some(s("same.html")));
    assert!(matches!(app.render(&corpus, FailingEngine), Err(SiteError::AlreadyOccupied(d)) if d == "same.html"));
}

#[test]
fn make_page_gives_fresh_ids() {
    let mut corpus = Corpus::create(9);
    load(&mut corpus, "a.md", &page_doc("A", vec![]));
    let b = corpus.make_page(s("b.md"));
    assert!(corpus.entries().iter().all(|(id, _)| !id.same(&b.id)));
    assert_eq!(b.id.parent, 9);
}

#[test]
fn hex_digits() {
    assert_eq!(donter::text::hex_string(0), "0");
    assert_eq!(donter::text::hex_string(255), "ff");
    assert_eq!(donter::text::hex_string(4096), "1000");
}

#[test]
fn url_labels_are_hex_hashes() {
    let expected = format!(
        "{:x}",
        std::hash::BuildHasher::hash_one(
            &std::hash::BuildHasherDefault::<std::hash::DefaultHasher>::default(),
            "https://a.org"
        )
    );
    assert_eq!(donter::markdown::url_label_of("https://a.org"), expected);
    assert_eq!(donter::markdown::url_label_of("https://a.org"), donter::markdown::url_label_of("https://a.org"));
    assert_ne!(donter::markdown::url_label_of("https://a.org"), "https://a.org");
}
