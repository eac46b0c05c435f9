use vstd::prelude::*;

verus! {

/// One node of a document's content tree.
pub enum Element {
    BlockQuote(Group),
    CodeBlock(Code),
    Delete(Group),
    Emphasis(Group),
    Empty,
    FootnoteReference(FootnoteReference),
    Group(Group),
    Heading(Header),
    HrefReference(HrefReference),
    ImageReference(ImageReference),
    InlineCode(Code),
    List(List),
    Paragraph(Group),
    Strong(Group),
    Table(Table),
    Text(Text),
}

/// An ordered sequence of elements: the generic container.
pub struct Group {
    pub kids: Vec<Element>,
}

/// The children an element contributes when it is made into a group.
pub open spec fn group_kids_of(e: Element) -> Seq<Element> {
    match e {
        Element::Group(g) => g.kids@,
        _ => seq![e],
    }
}

impl Group {
    pub fn new() -> (r: Group)
        ensures
            r.kids@.len() == 0,
    {
        Group { kids: Vec::new() }
    }

    pub fn push(&mut self, elm: Element)
        ensures
            final(self).kids@ == old(self).kids@.push(elm),
    {
        self.kids.push(elm)
    }

    pub fn children(&self) -> (r: &Vec<Element>)
        ensures
            r@ == self.kids@,
    {
        &self.kids
    }

    /// Normalises the group: no children give `Empty`, one child is unwrapped,
    /// more stay a `Group`.
    pub fn into_element(self) -> (r: Element)
        ensures
            self.kids@.len() == 0 ==> r == Element::Empty,
            self.kids@.len() == 1 ==> r == self.kids@[0],
            self.kids@.len() >= 2 ==> (r matches Element::Group(g) && g.kids@ == self.kids@),
    {
        let mut value = self;
        let n = value.kids.len();
        if n == 0 {
            Element::Empty
        } else if n == 1 {
            value.kids.remove(0)
        } else {
            Element::Group(value)
        }
    }

    /// Wraps an element as a group: a group stays itself, anything else becomes
    /// the single child.
    pub fn from_element(value: Element) -> (r: Group)
        ensures
            r.kids@ == group_kids_of(value),
    {
        match value {
            Element::Group(g) => g,
            v => {
                let mut kids = Vec::new();
                kids.push(v);
                Group { kids }
            },
        }
    }
}

pub struct List {
    pub li: Vec<ListItem>,
}

impl List {
    pub fn new() -> (r: List)
        ensures
            r.li@.len() == 0,
    {
        List { li: Vec::new() }
    }

    pub fn push(&mut self, item: ListItem)
        ensures
            final(self).li@ == old(self).li@.push(item),
    {
        self.li.push(item);
    }

    pub fn items(&self) -> (r: &Vec<ListItem>)
        ensures
            r@ == self.li@,
    {
        &self.li
    }
}

pub struct ListItem(pub Group);

impl ListItem {
    pub fn from_group(g: Group) -> (r: ListItem)
        ensures
            r.0 == g,
    {
        ListItem(g)
    }

    pub fn children(&self) -> (r: &Group)
        ensures
            *r == self.0,
    {
        &self.0
    }
}

/// The literal text of a code block.
pub struct CodeLiteral(pub String);

impl CodeLiteral {
    pub fn from_string(value: String) -> (r: CodeLiteral)
        ensures
            r.0@ == value@,
    {
        CodeLiteral(value)
    }

    pub fn as_str(&self) -> (r: &str)
        ensures
            r@ == self.0@,
    {
        self.0.as_str()
    }
}

/// The language a code block is tagged with.
pub struct CodeLanguage(pub String);

impl CodeLanguage {
    pub fn from_string(value: String) -> (r: CodeLanguage)
        ensures
            r.0@ == value@,
    {
        CodeLanguage(value)
    }

    pub fn as_str(&self) -> (r: &str)
        ensures
            r@ == self.0@,
    {
        self.0.as_str()
    }
}

pub struct Code {
    pub code: CodeLiteral,
    pub lang: Option<CodeLanguage>,
}

impl Code {
    pub fn new(code: CodeLiteral, lang: Option<CodeLanguage>) -> (r: Code)
        ensures
            r.code == code,
            r.lang == lang,
    {
        Code { code, lang }
    }

    pub fn lang(&self) -> (r: &Option<CodeLanguage>)
        ensures
            *r == self.lang,
    {
        &self.lang
    }

    pub fn content(&self) -> (r: &CodeLiteral)
        ensures
            *r == self.code,
    {
        &self.code
    }

    /// This code as a block element.
    pub fn block(self) -> (r: Element)
        ensures
            r == Element::CodeBlock(self),
    {
        Element::CodeBlock(self)
    }

    /// This code as an inline element.
    pub fn inline(self) -> (r: Element)
        ensures
            r == Element::InlineCode(self),
    {
        Element::InlineCode(self)
    }
}

/// A heading: its depth, its text, and the id generated for it.
pub struct Header {
    pub depth: u8,
    pub display: String,
    pub id: String,
}

impl Header {
    pub fn create(depth: u8, display: String, id: String) -> (r: Header)
        ensures
            r.depth == depth,
            r.display@ == display@,
            r.id@ == id@,
    {
        Header { depth, display, id }
    }

    pub fn depth(&self) -> (r: u8)
        ensures
            r == self.depth,
    {
        self.depth
    }

    pub fn text(&self) -> (r: &str)
        ensures
            r@ == self.display@,
    {
        self.display.as_str()
    }

    pub fn label(&self) -> (r: &str)
        ensures
            r@ == self.id@,
    {
        self.id.as_str()
    }
}

pub struct Text(pub String);

impl Text {
    pub fn create(s: String) -> (r: Text)
        ensures
            r.0@ == s@,
    {
        Text(s)
    }

    pub fn inner(self) -> (r: String)
        ensures
            r@ == self.0@,
    {
        self.0
    }

    pub fn as_str(&self) -> (r: &str)
        ensures
            r@ == self.0@,
    {
        self.0.as_str()
    }
}

/// A link whose target is looked up by label among the page's href definitions.
pub struct HrefReference {
    pub content: Group,
    pub label: String,
}

impl HrefReference {
    pub fn create(label: String, content: Group) -> (r: HrefReference)
        ensures
            r.label@ == label@,
            r.content == content,
    {
        HrefReference { content, label }
    }

    pub fn children(&self) -> (r: &Group)
        ensures
            *r == self.content,
    {
        &self.content
    }

    pub fn label(&self) -> (r: &String)
        ensures
            r@ == self.label@,
    {
        &self.label
    }
}

/// An image whose source is looked up by label among the page's href definitions.
pub struct ImageReference {
    pub href_label: String,
    pub alt: String,
}

impl ImageReference {
    pub fn create(href: String, alt: String) -> (r: ImageReference)
        ensures
            r.href_label@ == href@,
            r.alt@ == alt@,
    {
        ImageReference { href_label: href, alt }
    }

    pub fn label(&self) -> (r: &String)
        ensures
            r@ == self.href_label@,
    {
        &self.href_label
    }
}

pub struct Table {
    pub r: Vec<TableRow>,
}

impl Table {
    pub fn new() -> (t: Table)
        ensures
            t.r@.len() == 0,
    {
        Table { r: Vec::new() }
    }

    pub fn push(&mut self, row: TableRow)
        ensures
            final(self).r@ == old(self).r@.push(row),
    {
        self.r.push(row);
    }

    pub fn rows(&self) -> (t: &Vec<TableRow>)
        ensures
            t@ == self.r@,
    {
        &self.r
    }
}

pub struct TableRow {
    pub c: Vec<TableCell>,
}

impl TableRow {
    pub fn new() -> (r: TableRow)
        ensures
            r.c@.len() == 0,
    {
        TableRow { c: Vec::new() }
    }

    pub fn push(&mut self, cell: TableCell)
        ensures
            final(self).c@ == old(self).c@.push(cell),
    {
        self.c.push(cell);
    }

    pub fn cells(&self) -> (r: &Vec<TableCell>)
        ensures
            r@ == self.c@,
    {
        &self.c
    }
}

pub struct TableCell(pub Group);

impl TableCell {
    pub fn create(g: Group) -> (r: TableCell)
        ensures
            r.0 == g,
    {
        TableCell(g)
    }

    pub fn children(&self) -> (r: &Group)
        ensures
            *r == self.0,
    {
        &self.0
    }
}

/// A marker pointing at a footnote by label.
pub struct FootnoteReference(pub String);

impl FootnoteReference {
    pub fn create(label: String) -> (r: FootnoteReference)
        ensures
            r.0@ == label@,
    {
        FootnoteReference(label)
    }

    pub fn label(&self) -> (r: &String)
        ensures
            r@ == self.0@,
    {
        &self.0
    }
}

/// The body of a footnote, under its label.
pub struct FootnoteDefinition {
    pub label: String,
    pub content: Group,
}

impl FootnoteDefinition {
    pub fn create(id: String, content: Group) -> (r: FootnoteDefinition)
        ensures
            r.label@ == id@,
            r.content == content,
    {
        FootnoteDefinition { label: id, content }
    }

    pub fn children(&self) -> (r: &Group)
        ensures
            *r == self.content,
    {
        &self.content
    }

    pub fn label(&self) -> (r: &String)
        ensures
            r@ == self.label@,
    {
        &self.label
    }
}

/// The content of an element as a mathematical tree: what a content tree
/// says, without its storage.
pub enum Shape {
    BlockQuote(Seq<Shape>),
    CodeBlock(Seq<char>, Option<Seq<char>>),
    Delete(Seq<Shape>),
    Emphasis(Seq<Shape>),
    Empty,
    FootnoteReference(Seq<char>),
    Group(Seq<Shape>),
    Heading(u8, Seq<char>, Seq<char>),
    HrefReference(Seq<char>, Seq<Shape>),
    ImageReference(Seq<char>, Seq<char>),
    InlineCode(Seq<char>, Option<Seq<char>>),
    List(Seq<Seq<Shape>>),
    Paragraph(Seq<Shape>),
    Strong(Seq<Shape>),
    Table(Seq<Seq<Seq<Shape>>>),
    Text(Seq<char>),
}

pub open spec fn lang_shape(l: Option<CodeLanguage>) -> Option<Seq<char>> {
    match l {
        Some(c) => Some(c.0@),
        None => None,
    }
}

pub open spec fn shape(e: Element) -> Shape
    decreases e, 1nat,
{
    match e {
        Element::BlockQuote(g) => Shape::BlockQuote(shapes(g.kids@)),
        Element::CodeBlock(c) => Shape::CodeBlock(c.code.0@, lang_shape(c.lang)),
        Element::Delete(g) => Shape::Delete(shapes(g.kids@)),
        Element::Emphasis(g) => Shape::Emphasis(shapes(g.kids@)),
        Element::Empty => Shape::Empty,
        Element::FootnoteReference(f) => Shape::FootnoteReference(f.0@),
        Element::Group(g) => Shape::Group(shapes(g.kids@)),
        Element::Heading(h) => Shape::Heading(h.depth, h.display@, h.id@),
        Element::HrefReference(h) => Shape::HrefReference(h.label@, shapes(h.content.kids@)),
        Element::ImageReference(i) => Shape::ImageReference(i.href_label@, i.alt@),
        Element::InlineCode(c) => Shape::InlineCode(c.code.0@, lang_shape(c.lang)),
        Element::List(l) => Shape::List(item_shapes(l.li@)),
        Element::Paragraph(g) => Shape::Paragraph(shapes(g.kids@)),
        Element::Strong(g) => Shape::Strong(shapes(g.kids@)),
        Element::Table(t) => Shape::Table(row_shapes(t.r@)),
        Element::Text(t) => Shape::Text(t.0@),
    }
}

pub open spec fn shapes(s: Seq<Element>) -> Seq<Shape>
    decreases s, 0nat,
{
    if s.len() == 0 {
        Seq::empty()
    } else {
        shapes(s.drop_last()).push(shape(s.last()))
    }
}

pub open spec fn item_shapes(s: Seq<ListItem>) -> Seq<Seq<Shape>>
    decreases s, 0nat,
{
    if s.len() == 0 {
        Seq::empty()
    } else {
        item_shapes(s.drop_last()).push(shapes(s.last().0.kids@))
    }
}

pub open spec fn cell_shapes(s: Seq<TableCell>) -> Seq<Seq<Shape>>
    decreases s, 0nat,
{
    if s.len() == 0 {
        Seq::empty()
    } else {
        cell_shapes(s.drop_last()).push(shapes(s.last().0.kids@))
    }
}

pub open spec fn row_shapes(s: Seq<TableRow>) -> Seq<Seq<Seq<Shape>>>
    decreases s, 0nat,
{
    if s.len() == 0 {
        Seq::empty()
    } else {
        row_shapes(s.drop_last()).push(cell_shapes(s.last().c@))
    }
}

/// What a group with children of these shapes normalises to.
pub open spec fn normalized_shape(kids: Seq<Shape>) -> Shape {
    if kids.len() == 0 {
        Shape::Empty
    } else if kids.len() == 1 {
        kids[0]
    } else {
        Shape::Group(kids)
    }
}

pub proof fn lemma_shapes_push(s: Seq<Element>, e: Element)
    ensures
        shapes(s.push(e)) == shapes(s).push(shape(e)),
{
    assert(s.push(e).drop_last() =~= s);
}

pub proof fn lemma_shapes_index(s: Seq<Element>)
    ensures
        shapes(s).len() == s.len(),
        forall|i: int| 0 <= i < s.len() ==> #[trigger] shapes(s)[i] == shape(s[i]),
    decreases s.len(),
{
    if s.len() > 0 {
        lemma_shapes_index(s.drop_last());
    }
}

/// The shape of a normalised group is the normalised shape of its children.
pub proof fn lemma_normalized_shape(g: Group, e: Element)
    requires
        g.kids@.len() == 0 ==> e == Element::Empty,
        g.kids@.len() == 1 ==> e == g.kids@[0],
        g.kids@.len() >= 2 ==> (e matches Element::Group(h) && h.kids@ == g.kids@),
    ensures
        shape(e) == normalized_shape(shapes(g.kids@)),
{
    lemma_shapes_index(g.kids@);
}

} // verus!
