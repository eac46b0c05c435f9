use crate::definitions::DefinitionsModel;
use crate::doctree::{
    lemma_normalized_shape, lemma_shapes_index, lemma_shapes_push, shape, shapes, Code, CodeLanguage,
    CodeLiteral, Element, FootnoteDefinition, FootnoteReference, Group, Header, HrefReference,
    ImageReference, List, ListItem, Shape, Table, TableCell, TableRow, Text, normalized_shape,
    item_shapes, row_shapes, cell_shapes,
};
use crate::frontmatter::{frontmatter_ok, frontmatter_to_page_meta, FrontValue};
use crate::href::{href_text, Href, HrefDefinition};
use crate::page::{LoadError, PageBuilder};
use crate::text::{hex, hex_string, lower_of, lowercase};
use vstd::prelude::*;
use vstd::string::*;

verus! {

/// A node of a parsed Markdown document, as the Markdown reader gives it.
pub enum MdNode {
    Root(Vec<MdNode>),
    /// The document's metadata block, already read as YAML.
    Yaml(Vec<FrontValue>),
    /// A metadata block that is not valid YAML, with the reader's message.
    BadYaml(String),
    BlockQuote(Vec<MdNode>),
    Code { value: String, lang: Option<String> },
    Definition { identifier: String, url: String },
    Delete(Vec<MdNode>),
    Emphasis(Vec<MdNode>),
    FootnoteDefinition { identifier: String, children: Vec<MdNode> },
    FootnoteReference { identifier: String },
    Heading { depth: u8, children: Vec<MdNode> },
    Image { url: String, alt: String },
    ImageReference { identifier: String, alt: String },
    InlineCode(String),
    Link { url: String, children: Vec<MdNode> },
    LinkReference { identifier: String, children: Vec<MdNode> },
    List(Vec<MdNode>),
    ListItem(Vec<MdNode>),
    Paragraph(Vec<MdNode>),
    Strong(Vec<MdNode>),
    Table(Vec<MdNode>),
    TableRow(Vec<MdNode>),
    TableCell(Vec<MdNode>),
    Text(String),
    Break,
    ThematicBreak,
    /// Any other kind of node, by name.
    Other(String),
}

/// What std's `DefaultHasher` gives for a URL.
pub uninterp spec fn url_hash(url: Seq<char>) -> u64;

/// The label that a bare link or image target is filed under: its hash in
/// hexadecimal.
pub open spec fn url_label(url: Seq<char>) -> Seq<char> {
    hex(url_hash(url) as nat)
}

/// Relies on std's `DefaultHasher` (through `BuildHasherDefault`, which
/// seeds it the same way every time): the hash depends on the URL alone, so
/// repeated uses of one URL share one definition.
#[verifier::external_body]
fn hash_url(url: &str) -> (r: u64)
    ensures
        r == url_hash(url@),
{
    std::hash::BuildHasher::hash_one(&std::hash::BuildHasherDefault::<std::hash::DefaultHasher>::default(), url)
}

/// The label of a bare link or image target.
pub fn url_label_of(url: &str) -> (r: String)
    ensures
        r@ == url_label(url@),
{
    hex_string(hash_url(url))
}

/// A change that walking a document makes to a page's definitions.
pub enum Event {
    FootLabel(Seq<char>),
    FootDef(Seq<char>, Seq<Shape>),
    HrefLabel(Seq<char>),
    HrefDef(Seq<char>, Seq<char>),
}

/// The outcome of walking one node: whether it translates, the element it
/// gives (definitions and breaks give none), and its changes to definitions.
pub struct Walked {
    pub ok: bool,
    pub elem: Option<Shape>,
    pub events: Seq<Event>,
}

/// The outcome of walking a sequence of nodes.
pub struct WalkedSeq {
    pub ok: bool,
    pub kids: Seq<Shape>,
    pub events: Seq<Event>,
}

/// The outcome of walking list items or table cells.
pub struct WalkedGroups {
    pub ok: bool,
    pub groups: Seq<Seq<Shape>>,
    pub events: Seq<Event>,
}

/// The outcome of walking table rows.
pub struct WalkedRows {
    pub ok: bool,
    pub rows: Seq<Seq<Seq<Shape>>>,
    pub events: Seq<Event>,
}

pub open spec fn failed() -> Walked {
    Walked { ok: false, elem: None, events: Seq::empty() }
}

pub open spec fn opt_seq(o: Option<String>) -> Option<Seq<char>> {
    match o {
        Some(s) => Some(s@),
        None => None,
    }
}

/// The id of a heading: its text, lower-cased, with spaces turned to dashes.
pub open spec fn heading_id(t: Seq<char>) -> Seq<char> {
    lower_of(t.map_values(|c: char| if c == ' ' { '-' } else { c }))
}

pub open spec fn wrapped(c: WalkedSeq, s: Shape) -> Walked {
    if c.ok {
        Walked { ok: true, elem: Some(s), events: c.events }
    } else {
        failed()
    }
}

/// How one node translates. `top` says whether it stands at the top level of
/// the document, where definitions may appear and unknown kinds of node are
/// passed over.
pub open spec fn walk_spec(n: MdNode, top: bool) -> Walked
    decreases n, 1nat,
{
    match n {
        MdNode::BlockQuote(cs) => {
            let c = walk_seq_spec(cs@, false);
            wrapped(c, Shape::BlockQuote(c.kids))
        },
        MdNode::Code { value, lang } => Walked {
            ok: true,
            elem: Some(Shape::CodeBlock(value@, opt_seq(lang))),
            events: Seq::empty(),
        },
        MdNode::Definition { identifier, url } => if top {
            Walked { ok: true, elem: None, events: seq![Event::HrefDef(identifier@, url@)] }
        } else {
            failed()
        },
        MdNode::Delete(cs) => {
            let c = walk_seq_spec(cs@, false);
            wrapped(c, Shape::Delete(c.kids))
        },
        MdNode::Emphasis(cs) => {
            let c = walk_seq_spec(cs@, false);
            wrapped(c, Shape::Emphasis(c.kids))
        },
        MdNode::FootnoteDefinition { identifier, children } => {
            let c = walk_seq_spec(children@, false);
            if top && c.ok {
                Walked { ok: true, elem: None, events: c.events.push(Event::FootDef(identifier@, c.kids)) }
            } else {
                failed()
            }
        },
        MdNode::FootnoteReference { identifier } => Walked {
            ok: true,
            elem: Some(Shape::FootnoteReference(identifier@)),
            events: seq![Event::FootLabel(identifier@)],
        },
        MdNode::Heading { depth, children } => {
            let c = walk_seq_spec(children@, false);
            if c.ok && c.kids.len() == 1 && c.kids[0] is Text {
                let t = c.kids[0]->Text_0;
                Walked { ok: true, elem: Some(Shape::Heading(depth, t, heading_id(t))), events: c.events }
            } else {
                failed()
            }
        },
        MdNode::Image { url, alt } => Walked {
            ok: true,
            elem: Some(Shape::ImageReference(url_label(url@), alt@)),
            events: seq![Event::HrefDef(url_label(url@), url@)],
        },
        MdNode::ImageReference { identifier, alt } => Walked {
            ok: true,
            elem: Some(Shape::ImageReference(identifier@, alt@)),
            events: seq![Event::HrefLabel(identifier@)],
        },
        MdNode::InlineCode(v) => Walked { ok: true, elem: Some(Shape::InlineCode(v@, None)), events: Seq::empty() },
        MdNode::Link { url, children } => {
            let c = walk_seq_spec(children@, false);
            if c.ok {
                Walked {
                    ok: true,
                    elem: Some(Shape::HrefReference(url_label(url@), c.kids)),
                    events: c.events.push(Event::HrefDef(url_label(url@), url@)),
                }
            } else {
                failed()
            }
        },
        MdNode::LinkReference { identifier, children } => {
            let c = walk_seq_spec(children@, false);
            if c.ok {
                Walked {
                    ok: true,
                    elem: Some(Shape::HrefReference(identifier@, c.kids)),
                    events: seq![Event::HrefLabel(identifier@)] + c.events,
                }
            } else {
                failed()
            }
        },
        MdNode::List(cs) => {
            let l = walk_items_spec(cs@);
            if l.ok {
                Walked { ok: true, elem: Some(Shape::List(l.groups)), events: l.events }
            } else {
                failed()
            }
        },
        MdNode::Paragraph(cs) => {
            let c = walk_seq_spec(cs@, false);
            wrapped(c, Shape::Paragraph(c.kids))
        },
        MdNode::Strong(cs) => {
            let c = walk_seq_spec(cs@, false);
            wrapped(c, Shape::Strong(c.kids))
        },
        MdNode::Table(rs) => {
            let t = walk_rows_spec(rs@);
            if t.ok {
                Walked { ok: true, elem: Some(Shape::Table(t.rows)), events: t.events }
            } else {
                failed()
            }
        },
        MdNode::Text(v) => Walked { ok: true, elem: Some(Shape::Text(v@)), events: Seq::empty() },
        MdNode::Break | MdNode::ThematicBreak => Walked { ok: true, elem: None, events: Seq::empty() },
        MdNode::Other(_) => if top {
            Walked { ok: true, elem: None, events: Seq::empty() }
        } else {
            failed()
        },
        _ => failed(),
    }
}

pub open spec fn opt_push(s: Seq<Shape>, o: Option<Shape>) -> Seq<Shape> {
    match o {
        Some(x) => s.push(x),
        None => s,
    }
}

/// How a sequence of sibling nodes translates: the elements in order, and
/// the changes to definitions in the order the nodes are walked.
pub open spec fn walk_seq_spec(ns: Seq<MdNode>, top: bool) -> WalkedSeq
    decreases ns, 0nat,
{
    if ns.len() == 0 {
        WalkedSeq { ok: true, kids: Seq::empty(), events: Seq::empty() }
    } else {
        let a = walk_seq_spec(ns.drop_last(), top);
        let b = walk_spec(ns.last(), top);
        if a.ok && b.ok {
            WalkedSeq { ok: true, kids: opt_push(a.kids, b.elem), events: a.events + b.events }
        } else {
            WalkedSeq { ok: false, kids: Seq::empty(), events: Seq::empty() }
        }
    }
}

/// List items: each node must be an item.
pub open spec fn walk_items_spec(ns: Seq<MdNode>) -> WalkedGroups
    decreases ns, 0nat,
{
    if ns.len() == 0 {
        WalkedGroups { ok: true, groups: Seq::empty(), events: Seq::empty() }
    } else {
        let a = walk_items_spec(ns.drop_last());
        match ns.last() {
            MdNode::ListItem(cs) => {
                let c = walk_seq_spec(cs@, false);
                if a.ok && c.ok {
                    WalkedGroups { ok: true, groups: a.groups.push(c.kids), events: a.events + c.events }
                } else {
                    WalkedGroups { ok: false, groups: Seq::empty(), events: Seq::empty() }
                }
            },
            _ => WalkedGroups { ok: false, groups: Seq::empty(), events: Seq::empty() },
        }
    }
}

/// Table cells: each node must be a cell.
pub open spec fn walk_cells_spec(ns: Seq<MdNode>) -> WalkedGroups
    decreases ns, 0nat,
{
    if ns.len() == 0 {
        WalkedGroups { ok: true, groups: Seq::empty(), events: Seq::empty() }
    } else {
        let a = walk_cells_spec(ns.drop_last());
        match ns.last() {
            MdNode::TableCell(cs) => {
                let c = walk_seq_spec(cs@, false);
                if a.ok && c.ok {
                    WalkedGroups { ok: true, groups: a.groups.push(c.kids), events: a.events + c.events }
                } else {
                    WalkedGroups { ok: false, groups: Seq::empty(), events: Seq::empty() }
                }
            },
            _ => WalkedGroups { ok: false, groups: Seq::empty(), events: Seq::empty() },
        }
    }
}

/// Table rows: each node must be a row of cells.
pub open spec fn walk_rows_spec(ns: Seq<MdNode>) -> WalkedRows
    decreases ns, 0nat,
{
    if ns.len() == 0 {
        WalkedRows { ok: true, rows: Seq::empty(), events: Seq::empty() }
    } else {
        let a = walk_rows_spec(ns.drop_last());
        match ns.last() {
            MdNode::TableRow(cs) => {
                let c = walk_cells_spec(cs@);
                if a.ok && c.ok {
                    WalkedRows { ok: true, rows: a.rows.push(c.groups), events: a.events + c.events }
                } else {
                    WalkedRows { ok: false, rows: Seq::empty(), events: Seq::empty() }
                }
            },
            _ => WalkedRows { ok: false, rows: Seq::empty(), events: Seq::empty() },
        }
    }
}

/// A page's definitions as mathematical values: footnote bodies by shape,
/// href targets by text.
pub struct Defs {
    pub notes: DefinitionsModel<Seq<Shape>>,
    pub hrefs: DefinitionsModel<Seq<char>>,
}

pub open spec fn apply_event(d: Defs, e: Event) -> Defs {
    match e {
        Event::FootLabel(l) => Defs { notes: d.notes.add_label(l), hrefs: d.hrefs },
        Event::FootDef(l, k) => Defs { notes: d.notes.define(l, k), hrefs: d.hrefs },
        Event::HrefLabel(l) => Defs { notes: d.notes, hrefs: d.hrefs.add_label(l) },
        Event::HrefDef(l, u) => Defs { notes: d.notes, hrefs: d.hrefs.define(l, u) },
    }
}

pub open spec fn apply_events(d: Defs, evs: Seq<Event>) -> Defs
    decreases evs.len(),
{
    if evs.len() == 0 {
        d
    } else {
        apply_event(apply_events(d, evs.drop_last()), evs.last())
    }
}

pub proof fn lemma_apply_concat(d: Defs, a: Seq<Event>, b: Seq<Event>)
    ensures
        apply_events(d, a + b) == apply_events(apply_events(d, a), b),
    decreases b.len(),
{
    if b.len() == 0 {
        assert(a + b =~= a);
    } else {
        assert((a + b).drop_last() =~= a + b.drop_last());
        lemma_apply_concat(d, a, b.drop_last());
    }
}

pub open spec fn foot_view(m: DefinitionsModel<FootnoteDefinition>) -> DefinitionsModel<Seq<Shape>> {
    DefinitionsModel {
        labels: m.labels,
        defs: m.defs.map_values(|d: FootnoteDefinition| shapes(d.content.kids@)),
    }
}

pub open spec fn href_view(m: DefinitionsModel<HrefDefinition>) -> DefinitionsModel<Seq<char>> {
    DefinitionsModel { labels: m.labels, defs: m.defs.map_values(|d: HrefDefinition| href_text(d.href_)) }
}

/// The definitions that a builder holds, as mathematical values.
pub open spec fn defs_view(b: PageBuilder) -> Defs {
    Defs { notes: foot_view(b.notes@), hrefs: href_view(b.page_hrefs@) }
}

/// Only the builder's definitions differ between `a` and `b`.
pub open spec fn only_defs_changed(a: PageBuilder, b: PageBuilder) -> bool {
    b == (PageBuilder { notes: b.notes, page_hrefs: b.page_hrefs, ..a })
}

pub open spec fn opt_shape(o: Option<Element>) -> Option<Shape> {
    match o {
        Some(e) => Some(shape(e)),
        None => None,
    }
}

proof fn lemma_foot_view_define(m: DefinitionsModel<FootnoteDefinition>, k: Seq<char>, d: FootnoteDefinition)
    ensures
        foot_view(m.define(k, d)) == foot_view(m).define(k, shapes(d.content.kids@)),
{
    assert(foot_view(m.define(k, d)).defs =~= foot_view(m).define(k, shapes(d.content.kids@)).defs);
}

proof fn lemma_href_view_define(m: DefinitionsModel<HrefDefinition>, k: Seq<char>, d: HrefDefinition)
    ensures
        href_view(m.define(k, d)) == href_view(m).define(k, href_text(d.href_)),
{
    assert(href_view(m.define(k, d)).defs =~= href_view(m).define(k, href_text(d.href_)).defs);
}

fn note_label(b: &mut PageBuilder, id: &String)
    ensures
        only_defs_changed(*old(b), *final(b)),
        defs_view(*final(b)) == apply_event(defs_view(*old(b)), Event::FootLabel(id@)),
{
    b.footnotes().add_label(id);
}

fn note_define(b: &mut PageBuilder, id: &String, content: Group)
    ensures
        only_defs_changed(*old(b), *final(b)),
        defs_view(*final(b)) == apply_event(defs_view(*old(b)), Event::FootDef(id@, shapes(content.kids@))),
{
    let def = FootnoteDefinition::create(id.clone(), content);
    proof {
        lemma_foot_view_define(b.notes@, id@, def);
    }
    b.footnotes().define(id, def);
}

fn href_label(b: &mut PageBuilder, id: &String)
    ensures
        only_defs_changed(*old(b), *final(b)),
        defs_view(*final(b)) == apply_event(defs_view(*old(b)), Event::HrefLabel(id@)),
{
    b.hrefs().add_label(id);
}

fn href_define(b: &mut PageBuilder, id: &String, url: &String)
    ensures
        only_defs_changed(*old(b), *final(b)),
        defs_view(*final(b)) == apply_event(defs_view(*old(b)), Event::HrefDef(id@, url@)),
{
    let def = HrefDefinition::create(id.clone(), Href::unparsed(url.clone()));
    proof {
        lemma_href_view_define(b.page_hrefs@, id@, def);
    }
    b.hrefs().define(id, def);
}

/// The id of a heading with text `s`.
pub fn heading_slug(s: &str) -> (r: String)
    ensures
        r@ == heading_id(s@),
{
    let n = s.unicode_len();
    let mut out = String::new();
    let mut i: usize = 0;
    while i < n
        invariant
            0 <= i <= n,
            n == s@.len(),
            out@ == s@.take(i as int).map_values(|c: char| if c == ' ' { '-' } else { c }),
        decreases n - i,
    {
        let ghost prev = out@;
        if s.get_char(i) == ' ' {
            out.append("-");
            proof {
                reveal_strlit("-");
            }
        } else {
            out.append(s.substring_char(i, i + 1));
        }
        i = i + 1;
        assert(out@ =~= s@.take(i as int).map_values(|c: char| if c == ' ' { '-' } else { c }));
    }
    assert(s@.take(n as int) =~= s@);
    lowercase(out.as_str())
}

proof fn lemma_seq_fail_prefix(ns: Seq<MdNode>, i: int, top: bool)
    requires
        0 <= i <= ns.len(),
        !walk_seq_spec(ns.take(i), top).ok,
    ensures
        !walk_seq_spec(ns, top).ok,
    decreases ns.len() - i,
{
    if i == ns.len() {
        assert(ns.take(i) =~= ns);
    } else {
        assert(ns.drop_last().take(i) =~= ns.take(i));
        lemma_seq_fail_prefix(ns.drop_last(), i, top);
    }
}

proof fn lemma_items_fail_prefix(ns: Seq<MdNode>, i: int)
    requires
        0 <= i <= ns.len(),
        !walk_items_spec(ns.take(i)).ok,
    ensures
        !walk_items_spec(ns).ok,
    decreases ns.len() - i,
{
    if i == ns.len() {
        assert(ns.take(i) =~= ns);
    } else {
        assert(ns.drop_last().take(i) =~= ns.take(i));
        lemma_items_fail_prefix(ns.drop_last(), i);
    }
}

proof fn lemma_cells_fail_prefix(ns: Seq<MdNode>, i: int)
    requires
        0 <= i <= ns.len(),
        !walk_cells_spec(ns.take(i)).ok,
    ensures
        !walk_cells_spec(ns).ok,
    decreases ns.len() - i,
{
    if i == ns.len() {
        assert(ns.take(i) =~= ns);
    } else {
        assert(ns.drop_last().take(i) =~= ns.take(i));
        lemma_cells_fail_prefix(ns.drop_last(), i);
    }
}

proof fn lemma_rows_fail_prefix(ns: Seq<MdNode>, i: int)
    requires
        0 <= i <= ns.len(),
        !walk_rows_spec(ns.take(i)).ok,
    ensures
        !walk_rows_spec(ns).ok,
    decreases ns.len() - i,
{
    if i == ns.len() {
        assert(ns.take(i) =~= ns);
    } else {
        assert(ns.drop_last().take(i) =~= ns.take(i));
        lemma_rows_fail_prefix(ns.drop_last(), i);
    }
}

/// Translates sibling nodes into a group.
pub fn collect_children(ns: &Vec<MdNode>, top: bool, b: &mut PageBuilder) -> (r: Result<Group, LoadError>)
    ensures
        only_defs_changed(*old(b), *final(b)),
        r is Ok <==> walk_seq_spec(ns@, top).ok,
        r matches Ok(g) ==> shapes(g.kids@) == walk_seq_spec(ns@, top).kids && defs_view(*final(b)) == apply_events(
            defs_view(*old(b)),
            walk_seq_spec(ns@, top).events,
        ),
        r matches Err(e) ==> (e matches LoadError::SourceFormat(o, _) && o == old(b).filepath),
    decreases ns, 1nat,
{
    assert(ns@.skip(0) =~= ns@);
    collect_children_from(ns, 0, top, b)
}

/// Translates the sibling nodes from position `start` on into a group.
pub fn collect_children_from(ns: &Vec<MdNode>, start: usize, top: bool, b: &mut PageBuilder) -> (r: Result<Group, LoadError>)
    requires
        start <= ns@.len(),
    ensures
        only_defs_changed(*old(b), *final(b)),
        r is Ok <==> walk_seq_spec(ns@.skip(start as int), top).ok,
        r matches Ok(g) ==> shapes(g.kids@) == walk_seq_spec(ns@.skip(start as int), top).kids && defs_view(*final(b)) == apply_events(
            defs_view(*old(b)),
            walk_seq_spec(ns@.skip(start as int), top).events,
        ),
        r matches Err(e) ==> (e matches LoadError::SourceFormat(o, _) && o == old(b).filepath),
    decreases ns, 0nat,
{
    let ghost rest = ns@.skip(start as int);
    let mut g = Group::new();
    let mut i: usize = start;
    assert(rest.take(0) =~= Seq::<MdNode>::empty());
    while i < ns.len()
        invariant
            start <= i <= ns@.len(),
            rest == ns@.skip(start as int),
            only_defs_changed(*old(b), *b),
            walk_seq_spec(rest.take(i - start), top).ok,
            shapes(g.kids@) == walk_seq_spec(rest.take(i - start), top).kids,
            defs_view(*b) == apply_events(defs_view(*old(b)), walk_seq_spec(rest.take(i - start), top).events),
        decreases ns@.len() - i,
    {
        let ghost pre = rest.take(i - start);
        let ghost gk = g.kids@;
        assert(rest.take(i - start + 1).drop_last() =~= pre);
        assert(rest.take(i - start + 1).last() == ns@[i as int]);
        assert(decreases_to!(ns => ns@[i as int]));
        match walk(&ns[i], top, b) {
            Ok(o) => {
                match o {
                    Some(e) => {
                        proof {
                            lemma_shapes_push(gk, e);
                        }
                        g.push(e);
                    },
                    None => {},
                }
                proof {
                    lemma_apply_concat(defs_view(*old(b)), walk_seq_spec(pre, top).events, walk_spec(ns@[i as int], top).events);
                }
            },
            Err(e) => {
                proof {
                    lemma_seq_fail_prefix(rest, i - start + 1, top);
                }
                return Err(e);
            },
        }
        i = i + 1;
    }
    assert(rest.take(i - start) =~= rest);
    Ok(g)
}

fn walk_list(cs: &Vec<MdNode>, b: &mut PageBuilder) -> (r: Result<List, LoadError>)
    ensures
        only_defs_changed(*old(b), *final(b)),
        r is Ok <==> walk_items_spec(cs@).ok,
        r matches Ok(l) ==> item_shapes(l.li@) == walk_items_spec(cs@).groups && defs_view(*final(b)) == apply_events(
            defs_view(*old(b)),
            walk_items_spec(cs@).events,
        ),
        r matches Err(e) ==> (e matches LoadError::SourceFormat(o, _) && o == old(b).filepath),
    decreases cs, 0nat,
{
    let mut l = List::new();
    let mut i: usize = 0;
    assert(cs@.take(0) =~= Seq::<MdNode>::empty());
    while i < cs.len()
        invariant
            0 <= i <= cs@.len(),
            only_defs_changed(*old(b), *b),
            walk_items_spec(cs@.take(i as int)).ok,
            item_shapes(l.li@) == walk_items_spec(cs@.take(i as int)).groups,
            defs_view(*b) == apply_events(defs_view(*old(b)), walk_items_spec(cs@.take(i as int)).events),
        decreases cs@.len() - i,
    {
        let ghost pre = cs@.take(i as int);
        let ghost li = l.li@;
        assert(cs@.take(i as int + 1).drop_last() =~= pre);
        match &cs[i] {
            MdNode::ListItem(children) => {
                match collect_children(children, false, b) {
                    Ok(g) => {
                        let item = ListItem::from_group(g);
                        l.push(item);
                        assert(l.li@.drop_last() =~= li);
                        proof {
                            lemma_apply_concat(defs_view(*old(b)), walk_items_spec(pre).events, walk_seq_spec(children@, false).events);
                        }
                    },
                    Err(e) => {
                        proof {
                            lemma_items_fail_prefix(cs@, i as int + 1);
                        }
                        return Err(e);
                    },
                }
            },
            _ => {
                proof {
                    lemma_items_fail_prefix(cs@, i as int + 1);
                }
                return Err(LoadError::SourceFormat(b.filepath.clone(), String::from_str("a list holds a node that is not a list item")));
            },
        }
        i = i + 1;
    }
    assert(cs@.take(i as int) =~= cs@);
    Ok(l)
}

fn walk_row(cs: &Vec<MdNode>, b: &mut PageBuilder) -> (r: Result<TableRow, LoadError>)
    ensures
        only_defs_changed(*old(b), *final(b)),
        r is Ok <==> walk_cells_spec(cs@).ok,
        r matches Ok(row) ==> cell_shapes(row.c@) == walk_cells_spec(cs@).groups && defs_view(*final(b)) == apply_events(
            defs_view(*old(b)),
            walk_cells_spec(cs@).events,
        ),
        r matches Err(e) ==> (e matches LoadError::SourceFormat(o, _) && o == old(b).filepath),
    decreases cs, 0nat,
{
    let mut row = TableRow::new();
    let mut i: usize = 0;
    assert(cs@.take(0) =~= Seq::<MdNode>::empty());
    while i < cs.len()
        invariant
            0 <= i <= cs@.len(),
            only_defs_changed(*old(b), *b),
            walk_cells_spec(cs@.take(i as int)).ok,
            cell_shapes(row.c@) == walk_cells_spec(cs@.take(i as int)).groups,
            defs_view(*b) == apply_events(defs_view(*old(b)), walk_cells_spec(cs@.take(i as int)).events),
        decreases cs@.len() - i,
    {
        let ghost pre = cs@.take(i as int);
        let ghost rc = row.c@;
        assert(cs@.take(i as int + 1).drop_last() =~= pre);
        match &cs[i] {
            MdNode::TableCell(children) => {
                match collect_children(children, false, b) {
                    Ok(g) => {
                        row.push(TableCell::create(g));
                        assert(row.c@.drop_last() =~= rc);
                        proof {
                            lemma_apply_concat(defs_view(*old(b)), walk_cells_spec(pre).events, walk_seq_spec(children@, false).events);
                        }
                    },
                    Err(e) => {
                        proof {
                            lemma_cells_fail_prefix(cs@, i as int + 1);
                        }
                        return Err(e);
                    },
                }
            },
            _ => {
                proof {
                    lemma_cells_fail_prefix(cs@, i as int + 1);
                }
                return Err(LoadError::SourceFormat(b.filepath.clone(), String::from_str("a table row holds a node that is not a cell")));
            },
        }
        i = i + 1;
    }
    assert(cs@.take(i as int) =~= cs@);
    Ok(row)
}

fn walk_table(rs: &Vec<MdNode>, b: &mut PageBuilder) -> (r: Result<Table, LoadError>)
    ensures
        only_defs_changed(*old(b), *final(b)),
        r is Ok <==> walk_rows_spec(rs@).ok,
        r matches Ok(t) ==> row_shapes(t.r@) == walk_rows_spec(rs@).rows && defs_view(*final(b)) == apply_events(
            defs_view(*old(b)),
            walk_rows_spec(rs@).events,
        ),
        r matches Err(e) ==> (e matches LoadError::SourceFormat(o, _) && o == old(b).filepath),
    decreases rs, 0nat,
{
    let mut table = Table::new();
    let mut i: usize = 0;
    assert(rs@.take(0) =~= Seq::<MdNode>::empty());
    while i < rs.len()
        invariant
            0 <= i <= rs@.len(),
            only_defs_changed(*old(b), *b),
            walk_rows_spec(rs@.take(i as int)).ok,
            row_shapes(table.r@) == walk_rows_spec(rs@.take(i as int)).rows,
            defs_view(*b) == apply_events(defs_view(*old(b)), walk_rows_spec(rs@.take(i as int)).events),
        decreases rs@.len() - i,
    {
        let ghost pre = rs@.take(i as int);
        let ghost tr = table.r@;
        assert(rs@.take(i as int + 1).drop_last() =~= pre);
        match &rs[i] {
            MdNode::TableRow(cells) => {
                match walk_row(cells, b) {
                    Ok(row) => {
                        table.push(row);
                        assert(table.r@.drop_last() =~= tr);
                        proof {
                            lemma_apply_concat(defs_view(*old(b)), walk_rows_spec(pre).events, walk_cells_spec(cells@).events);
                        }
                    },
                    Err(e) => {
                        proof {
                            lemma_rows_fail_prefix(rs@, i as int + 1);
                        }
                        return Err(e);
                    },
                }
            },
            _ => {
                proof {
                    lemma_rows_fail_prefix(rs@, i as int + 1);
                }
                return Err(LoadError::SourceFormat(b.filepath.clone(), String::from_str("a table holds a node that is not a row")));
            },
        }
        i = i + 1;
    }
    assert(rs@.take(i as int) =~= rs@);
    Ok(table)
}

fn unexpected(b: &PageBuilder, what: &str) -> (r: LoadError)
    ensures
        r matches LoadError::SourceFormat(o, _) && o == b.filepath,
{
    let mut msg = String::from_str("unexpected ");
    msg.append(what);
    LoadError::SourceFormat(b.filepath.clone(), msg)
}

/// Translates one node: the element it gives, if any, with its definitions
/// and references recorded in the builder.
pub fn walk(node: &MdNode, top: bool, b: &mut PageBuilder) -> (r: Result<Option<Element>, LoadError>)
    ensures
        only_defs_changed(*old(b), *final(b)),
        r is Ok <==> walk_spec(*node, top).ok,
        r matches Ok(o) ==> opt_shape(o) == walk_spec(*node, top).elem && defs_view(*final(b)) == apply_events(
            defs_view(*old(b)),
            walk_spec(*node, top).events,
        ),
        r matches Err(e) ==> (e matches LoadError::SourceFormat(o, _) && o == old(b).filepath),
    decreases node, 1nat,
{
    let ghost d0 = defs_view(*b);
    proof {
        assert(apply_events(d0, Seq::<Event>::empty()) == d0);
    }
    match node {
        MdNode::Root(_) => Err(unexpected(b, "nested document root")),
        MdNode::Yaml(_) => Err(unexpected(b, "metadata block")),
        MdNode::BadYaml(msg) => Err(LoadError::SourceFormat(b.filepath.clone(), msg.clone())),
        MdNode::BlockQuote(cs) => {
            let g = collect_children(cs, false, b)?;
            Ok(Some(Element::BlockQuote(g)))
        },
        MdNode::Code { value, lang } => {
            let l = match lang {
                Some(x) => Some(CodeLanguage::from_string(x.clone())),
                None => None,
            };
            Ok(Some(Code::new(CodeLiteral::from_string(value.clone()), l).block()))
        },
        MdNode::Definition { identifier, url } => {
            if !top {
                return Err(unexpected(b, "definition inside another construct"));
            }
            href_define(b, identifier, url);
            proof {
                assert(seq![Event::HrefDef(identifier@, url@)].drop_last() =~= Seq::<Event>::empty());
            }
            Ok(None)
        },
        MdNode::Delete(cs) => {
            let g = collect_children(cs, false, b)?;
            Ok(Some(Element::Delete(g)))
        },
        MdNode::Emphasis(cs) => {
            let g = collect_children(cs, false, b)?;
            Ok(Some(Element::Emphasis(g)))
        },
        MdNode::FootnoteDefinition { identifier, children } => {
            if !top {
                return Err(unexpected(b, "footnote definition inside another construct"));
            }
            let content = collect_children(children, false, b)?;
            let ghost k = shapes(content.kids@);
            let ghost evs = walk_seq_spec(children@, false).events;
            note_define(b, identifier, content);
            proof {
                assert(evs.push(Event::FootDef(identifier@, k)).drop_last() =~= evs);
            }
            Ok(None)
        },
        MdNode::FootnoteReference { identifier } => {
            note_label(b, identifier);
            proof {
                assert(seq![Event::FootLabel(identifier@)].drop_last() =~= Seq::<Event>::empty());
            }
            Ok(Some(Element::FootnoteReference(FootnoteReference::create(identifier.clone()))))
        },
        MdNode::Heading { depth, children } => {
            let g = collect_children(children, false, b)?;
            let ghost kids = g.kids@;
            let e = g.into_element();
            proof {
                lemma_normalized_shape(g, e);
            }
            match e {
                Element::Text(t) => {
                    let display = t.inner();
                    let id = heading_slug(display.as_str());
                    Ok(Some(Element::Heading(Header::create(*depth, display, id))))
                },
                _ => {
                    proof {
                        lemma_shapes_index(kids);
                    }
                    Err(unexpected(b, "heading that is not plain text"))
                },
            }
        },
        MdNode::Image { url, alt } => {
            let label = url_label_of(url.as_str());
            href_define(b, &label, url);
            proof {
                assert(seq![Event::HrefDef(label@, url@)].drop_last() =~= Seq::<Event>::empty());
            }
            Ok(Some(Element::ImageReference(ImageReference::create(label, alt.clone()))))
        },
        MdNode::ImageReference { identifier, alt } => {
            href_label(b, identifier);
            proof {
                assert(seq![Event::HrefLabel(identifier@)].drop_last() =~= Seq::<Event>::empty());
            }
            Ok(Some(Element::ImageReference(ImageReference::create(identifier.clone(), alt.clone()))))
        },
        MdNode::InlineCode(v) => Ok(Some(Code::new(CodeLiteral::from_string(v.clone()), None).inline())),
        MdNode::Link { url, children } => {
            let label = url_label_of(url.as_str());
            let content = collect_children(children, false, b)?;
            let ghost evs = walk_seq_spec(children@, false).events;
            href_define(b, &label, url);
            proof {
                assert(evs.push(Event::HrefDef(label@, url@)).drop_last() =~= evs);
            }
            Ok(Some(Element::HrefReference(HrefReference::create(label, content))))
        },
        MdNode::LinkReference { identifier, children } => {
            href_label(b, identifier);
            let content = collect_children(children, false, b)?;
            proof {
                let evs = walk_seq_spec(children@, false).events;
                let one = seq![Event::HrefLabel(identifier@)];
                assert(one.drop_last() =~= Seq::<Event>::empty());
                lemma_apply_concat(d0, one, evs);
            }
            Ok(Some(Element::HrefReference(HrefReference::create(identifier.clone(), content))))
        },
        MdNode::List(cs) => {
            let l = walk_list(cs, b)?;
            Ok(Some(Element::List(l)))
        },
        MdNode::ListItem(_) => Err(unexpected(b, "list item outside a list")),
        MdNode::Paragraph(cs) => {
            let g = collect_children(cs, false, b)?;
            Ok(Some(Element::Paragraph(g)))
        },
        MdNode::Strong(cs) => {
            let g = collect_children(cs, false, b)?;
            Ok(Some(Element::Strong(g)))
        },
        MdNode::Table(rs) => {
            let t = walk_table(rs, b)?;
            Ok(Some(Element::Table(t)))
        },
        MdNode::TableRow(_) => Err(unexpected(b, "table row outside a table")),
        MdNode::TableCell(_) => Err(unexpected(b, "table cell outside a table")),
        MdNode::Text(v) => Ok(Some(Element::Text(Text::create(v.clone())))),
        MdNode::Break | MdNode::ThematicBreak => Ok(None),
        MdNode::Other(name) => {
            if top {
                Ok(None)
            } else {
                Err(unexpected(b, name.as_str()))
            }
        },
    }
}

/// The nodes of a document that carry content: everything but a leading
/// metadata block.
pub open spec fn doc_body(ns: Seq<MdNode>) -> Seq<MdNode> {
    if ns.len() > 0 && ns[0] is Yaml {
        ns.skip(1)
    } else {
        ns
    }
}

/// A leading metadata block that cannot be applied.
pub open spec fn leading_yaml_rejected(ns: Seq<MdNode>) -> bool {
    ns.len() > 0 && match ns[0] {
        MdNode::Yaml(docs) => crate::frontmatter::frontmatter_rejects(docs@),
        _ => false,
    }
}

/// A leading metadata block, if there is one, applies to `m`.
pub open spec fn leading_yaml_ok(ns: Seq<MdNode>, m: Seq<(String, crate::page::Metadata)>) -> bool {
    ns.len() > 0 ==> match ns[0] {
        MdNode::Yaml(docs) => frontmatter_ok(docs@, m),
        _ => true,
    }
}

/// Translates a whole document into the builder: a leading metadata block
/// is applied to the page's metadata, and the rest becomes one content
/// element, normalised. Unknown kinds of node at the top level are passed over.
pub fn build_document(root: &MdNode, b: &mut PageBuilder) -> (r: Result<(), LoadError>)
    ensures
        r matches Err(e) ==> (e matches LoadError::SourceFormat(o, _) && o == old(b).filepath),
        !(root is Root) ==> r is Err,
        root matches MdNode::Root(ns) ==> (r is Ok ==> leading_yaml_ok(ns@, final(b).meta@)
            && walk_seq_spec(doc_body(ns@), true).ok),
        root matches MdNode::Root(ns) ==> (!walk_seq_spec(doc_body(ns@), true).ok ==> r is Err),
        root matches MdNode::Root(ns) ==> (r is Err ==> !walk_seq_spec(doc_body(ns@), true).ok || leading_yaml_rejected(ns@)),
        root matches MdNode::Root(ns) ==> (r is Ok ==> (
            final(b).contents@.len() == old(b).contents@.len() + 1
            && final(b).contents@.drop_last() == old(b).contents@
            && shape(final(b).contents@.last()) == normalized_shape(walk_seq_spec(doc_body(ns@), true).kids)
            && defs_view(*final(b)) == apply_events(defs_view(*old(b)), walk_seq_spec(doc_body(ns@), true).events)
            && final(b).summary == old(b).summary
            && final(b).url_path == old(b).url_path
            && final(b).tpl_name == old(b).tpl_name)),
        root matches MdNode::Root(ns) ==> (r is Ok && !(ns@.len() > 0 && ns@[0] is Yaml) ==> (
            final(b).meta == old(b).meta && final(b).title == old(b).title && final(b).when == old(b).when)),
{
    match root {
        MdNode::Root(ns) => {
            let mut start: usize = 0;
            if ns.len() > 0 {
                match &ns[0] {
                    MdNode::Yaml(docs) => {
                        frontmatter_to_page_meta(docs, b)?;
                        start = 1;
                    },
                    _ => {},
                }
            }
            assert(ns@.skip(0) =~= ns@);
            let g = match collect_children_from(ns, start, true, b) {
                Ok(g) => g,
                Err(e) => {
                    return Err(e);
                },
            };
            let e = g.into_element();
            proof {
                lemma_normalized_shape(g, e);
            }
            b.content(e);
            Ok(())
        },
        _ => Err(unexpected(b, "document without a root")),
    }
}

/// The summary text in a page's metadata, if there is one to translate.
pub fn pending_summary(b: &PageBuilder) -> (r: Option<String>)
    ensures
        r == crate::frontmatter::str_field(b.meta@, "summary"@),
{
    match crate::archive::find_meta(&b.meta, "summary") {
        Some(crate::page::Metadata::Str(s)) => Some(s.clone()),
        _ => None,
    }
}

/// Installs a page's translated summary.
pub fn apply_summary(b: &mut PageBuilder, summary: &MdNode) -> (r: Result<(), LoadError>)
    ensures
        r matches Err(e) ==> (e matches LoadError::SourceFormat(o, _) && o == old(b).filepath),
        !(summary is Root) ==> r is Err,
        summary matches MdNode::Root(ns) ==> (r is Ok <==> walk_seq_spec(ns@, true).ok),
        summary matches MdNode::Root(ns) ==> (r is Ok ==> (final(b).summary matches Some(g)
            && shapes(g.kids@) == walk_seq_spec(ns@, true).kids
            && defs_view(*final(b)) == apply_events(defs_view(*old(b)), walk_seq_spec(ns@, true).events)
            && final(b).contents == old(b).contents)),
{
    match summary {
        MdNode::Root(ns) => {
            let g = collect_children(ns, true, b)?;
            b.summary = Some(g);
            Ok(())
        },
        _ => Err(unexpected(b, "summary without a root")),
    }
}

/// The label a node defines as a link target, if it is a definition.
pub open spec fn defined_label(n: MdNode) -> Option<Seq<char>> {
    match n {
        MdNode::Definition { identifier, url } => Some(identifier@),
        _ => None,
    }
}

proof fn lemma_defined_stays(d: Defs, evs: Seq<Event>, k: Seq<char>)
    requires
        d.hrefs.defs.contains_key(k),
    ensures
        apply_events(d, evs).hrefs.defs.contains_key(k),
    decreases evs.len(),
{
    if evs.len() > 0 {
        lemma_defined_stays(d, evs.drop_last(), k);
    }
}

/// References are resolved against the whole document, never while it is
/// read: every label that a top-level definition binds is bound once the
/// document has been walked, whether references to it come before or after
/// the definition. (Rendering then resolves a reference exactly when its
/// label is bound.)
pub proof fn law_forward_reference(ns: Seq<MdNode>, j: int, d: Defs)
    requires
        walk_seq_spec(ns, true).ok,
        0 <= j < ns.len(),
        defined_label(ns[j]) is Some,
    ensures
        apply_events(d, walk_seq_spec(ns, true).events).hrefs.defs.contains_key(defined_label(ns[j])->0),
    decreases ns.len(),
{
    let k = defined_label(ns[j])->0;
    let a = walk_seq_spec(ns.drop_last(), true);
    let b = walk_spec(ns.last(), true);
    lemma_apply_concat(d, a.events, b.events);
    if j == ns.len() - 1 {
        let mid = apply_events(d, a.events);
        assert(b.events.drop_last() =~= Seq::<Event>::empty());
        assert(apply_events(mid, b.events).hrefs.defs.contains_key(k));
    } else {
        assert(ns.drop_last()[j] == ns[j]);
        law_forward_reference(ns.drop_last(), j, d);
        lemma_defined_stays(apply_events(d, a.events), b.events, k);
    }
}

} // verus!
