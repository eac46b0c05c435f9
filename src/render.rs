use crate::buffer::{deeper, line_at, PageBuffer};
use crate::doctree::{
    Code, Element, FootnoteDefinition, FootnoteReference, Group, Header, HrefReference,
    ImageReference, List, ListItem, Table, TableCell, TableRow,
};
use crate::href::{href_target, HrefDefinition};
use crate::linker::Linker;
use crate::page::PageContents;
use crate::text::decimal;
use vstd::prelude::*;
use vstd::string::*;

verus! {

/// What resolving references needs: the page's href definitions and the linker.
pub struct RenderEnv {
    pub hrefs: Map<Seq<char>, HrefDefinition>,
    pub linker: Linker,
}

/// The position of the first `c` in `s`, or -1.
pub open spec fn first_index_of(s: Seq<char>, c: char) -> int
    decreases s.len(),
{
    if s.len() == 0 {
        -1
    } else if s[0] == c {
        0
    } else {
        let r = first_index_of(s.skip(1), c);
        if r < 0 { -1 } else { r + 1 }
    }
}

pub open spec fn span_line(l: Seq<char>) -> Seq<char> {
    "<span>"@ + l + "</span>\n"@
}

/// The code, one `<span>` per line.
pub open spec fn highlight_spec(s: Seq<char>) -> Seq<char>
    decreases s.len(),
{
    if s.len() == 0 {
        Seq::empty()
    } else {
        let k = first_index_of(s, '\n');
        if k < 0 || k >= s.len() {
            span_line(s)
        } else {
            span_line(s.take(k)) + highlight_spec(s.skip(k + 1))
        }
    }
}

pub open spec fn lang_text(c: Code) -> Seq<char> {
    match c.lang {
        Some(l) => l.0@,
        None => Seq::empty(),
    }
}

pub open spec fn codeblock_spec(c: Code, level: usize) -> Seq<char> {
    line_at(level, "<div class=\"codeblock "@ + lang_text(c) + "\"><pre><code>"@)
        + line_at(level, highlight_spec(c.code.0@))
        + line_at(level, "</code></pre></div>"@)
}

pub open spec fn footnote_ref_spec(f: FootnoteReference) -> Seq<char> {
    "<span class=\"footnote reference\"><a href=\"#"@ + f.0@ + "\">"@ + f.0@ + "</a></span>"@
}

pub open spec fn heading_spec(h: Header, level: usize) -> Seq<char> {
    line_at(
        level,
        "<h"@ + decimal(h.depth as nat) + " id=\""@ + h.id@ + "\"><span>"@ + h.display@ + "</span></h"@
            + decimal(h.depth as nat) + ">"@,
    )
}

/// The opening tag of a link: its resolved target, or a visible marker when
/// the label has no definition.
pub open spec fn href_open_spec(env: RenderEnv, label: Seq<char>) -> Seq<char> {
    if env.hrefs.contains_key(label) {
        "<a href=\""@ + href_target(env.hrefs[label].href_, env.linker) + "\">"@
    } else {
        "<a class=\"unresolved\">"@
    }
}

pub open spec fn image_spec(env: RenderEnv, i: ImageReference) -> Seq<char> {
    if env.hrefs.contains_key(i.href_label@) {
        "<img src=\""@ + href_target(env.hrefs[i.href_label@].href_, env.linker) + "\" alt=\""@ + i.alt@
            + "\" />"@
    } else {
        "<img class=\"unresolved\" alt=\""@ + i.alt@ + "\" />"@
    }
}

pub open spec fn inline_code_spec(c: Code) -> Seq<char> {
    "<span class=\"code inline\"><code>"@ + c.code.0@ + "</code></span>"@
}

/// The markup of one element at indentation `level`.
pub open spec fn render_elm_spec(env: RenderEnv, e: Element, level: usize) -> Seq<char>
    decreases e, 1nat,
{
    match e {
        Element::BlockQuote(g) => block_spec(env, "<blockquote>"@, g, "</blockquote>"@, level),
        Element::CodeBlock(c) => codeblock_spec(c, level),
        Element::Delete(g) => "<s>"@ + render_elms_spec(env, g.kids@, level) + "</s>"@,
        Element::Emphasis(g) => "<em>"@ + render_elms_spec(env, g.kids@, level) + "</em>"@,
        Element::Empty => Seq::empty(),
        Element::FootnoteReference(f) => footnote_ref_spec(f),
        Element::Group(g) => render_elms_spec(env, g.kids@, level),
        Element::Heading(h) => heading_spec(h, level),
        Element::HrefReference(h) => href_open_spec(env, h.label@) + render_elms_spec(env, h.content.kids@, level)
            + "</a>"@,
        Element::ImageReference(i) => image_spec(env, i),
        Element::InlineCode(c) => inline_code_spec(c),
        Element::List(l) => line_at(level, "<ul>"@) + render_items_spec(env, l.li@, level) + line_at(
            level,
            "</ul>"@,
        ),
        Element::Paragraph(g) => block_spec(env, "<p>"@, g, "</p>"@, level),
        Element::Strong(g) => "<strong>"@ + render_elms_spec(env, g.kids@, level) + "</strong>"@,
        Element::Table(t) => line_at(level, "<table>"@) + render_rows_spec(env, t.r@, level) + line_at(
            level,
            "</table>"@,
        ),
        Element::Text(t) => t.0@,
    }
}

/// `open` and `close` on lines of their own, the children one level deeper.
pub open spec fn block_spec(env: RenderEnv, open: Seq<char>, g: Group, close: Seq<char>, level: usize) -> Seq<char>
    decreases g, 0nat,
{
    line_at(level, open) + render_elms_spec(env, g.kids@, deeper(level)) + line_at(level, close)
}

pub open spec fn render_elms_spec(env: RenderEnv, s: Seq<Element>, level: usize) -> Seq<char>
    decreases s, 0nat,
{
    if s.len() == 0 {
        Seq::empty()
    } else {
        render_elms_spec(env, s.drop_last(), level) + render_elm_spec(env, s.last(), level)
    }
}

pub open spec fn render_items_spec(env: RenderEnv, s: Seq<ListItem>, level: usize) -> Seq<char>
    decreases s, 0nat,
{
    if s.len() == 0 {
        Seq::empty()
    } else {
        render_items_spec(env, s.drop_last(), level) + block_spec(env, "<li>"@, s.last().0, "</li>"@, level)
    }
}

pub open spec fn render_cells_spec(env: RenderEnv, s: Seq<TableCell>, level: usize) -> Seq<char>
    decreases s, 0nat,
{
    if s.len() == 0 {
        Seq::empty()
    } else {
        render_cells_spec(env, s.drop_last(), level) + block_spec(env, "<td>"@, s.last().0, "</td>"@, level)
    }
}

pub open spec fn render_rows_spec(env: RenderEnv, s: Seq<TableRow>, level: usize) -> Seq<char>
    decreases s, 0nat,
{
    if s.len() == 0 {
        Seq::empty()
    } else {
        render_rows_spec(env, s.drop_last(), level) + line_at(level, "<tr>"@) + render_cells_spec(
            env,
            s.last().c@,
            level,
        ) + line_at(level, "</tr>"@)
    }
}

proof fn lemma_first_index(t: Seq<char>, c: char, j: int)
    requires
        0 <= j <= t.len(),
        forall|i: int| 0 <= i < j ==> t[i] != c,
        j < t.len() ==> t[j] == c,
    ensures
        first_index_of(t, c) == (if j < t.len() { j } else { -1 }),
    decreases t.len(),
{
    if t.len() > 0 && t[0] != c {
        lemma_first_index(t.skip(1), c, j - 1);
    }
}

/// The first `c` at or after `start`, or the length of `s` when there is none.
fn find_from(s: &str, c: char, start: usize) -> (k: usize)
    requires
        start <= s@.len(),
    ensures
        start <= k <= s@.len(),
        forall|i: int| start <= i < k ==> s@[i] != c,
        k < s@.len() ==> s@[k as int] == c,
{
    let n = s.unicode_len();
    let mut k = start;
    while k < n
        invariant
            start <= k <= n,
            n == s@.len(),
            forall|i: int| start <= i < k ==> s@[i] != c,
        decreases n - k,
    {
        if s.get_char(k) == c {
            return k;
        }
        k = k + 1;
    }
    k
}

/// Renders code with one `<span>` per line.
pub fn highlight(code: &Code) -> (r: String)
    ensures
        r@ == highlight_spec(code.code.0@),
{
    let s = code.code.as_str();
    let n = s.unicode_len();
    let mut out = String::new();
    let mut start: usize = 0;
    assert(s@.skip(0) =~= s@);
    while start < n
        invariant
            start <= n,
            n == s@.len(),
            out@ + highlight_spec(s@.skip(start as int)) == highlight_spec(s@),
        decreases n - start,
    {
        let k = find_from(s, '\n', start);
        let ghost t = s@.skip(start as int);
        let ghost prev = out@;
        proof {
            lemma_first_index(t, '\n', k - start);
            assert(t.take(k - start) =~= s@.subrange(start as int, k as int));
            if k < n {
                assert(t.skip(k - start + 1) =~= s@.skip(k + 1));
            } else {
                assert(t =~= s@.subrange(start as int, k as int));
            }
        }
        out.append("<span>");
        out.append(s.substring_char(start, k));
        out.append("</span>\n");
        assert(out@ =~= prev + span_line(s@.subrange(start as int, k as int)));
        if k < n {
            start = k + 1;
            assert(out@ + highlight_spec(s@.skip(start as int)) =~= prev + highlight_spec(t));
        } else {
            start = n;
            assert(s@.skip(n as int) =~= Seq::<char>::empty());
            assert(out@ + highlight_spec(s@.skip(start as int)) =~= prev + highlight_spec(t));
        }
    }
    assert(s@.skip(n as int) =~= Seq::<char>::empty());
    assert(out@ + Seq::<char>::empty() =~= out@);
    out
}


pub open spec fn footnote_items_spec(env: RenderEnv, s: Seq<FootnoteDefinition>, level: usize) -> Seq<char>
    decreases s.len(),
{
    if s.len() == 0 {
        Seq::empty()
    } else {
        footnote_items_spec(env, s.drop_last(), level) + block_spec(
            env,
            "<li id=\""@ + s.last().label@ + "\">"@,
            s.last().content,
            "</li>"@,
            level,
        )
    }
}

/// The footnote list: each defined footnote that was referenced, in the order
/// of first reference, under an anchor named by its label.
pub open spec fn footnotes_spec(env: RenderEnv, s: Seq<FootnoteDefinition>, level: usize) -> Seq<char> {
    line_at(level, "<div class=\"footnotes\">"@) + line_at(deeper(level), "<ol>"@) + footnote_items_spec(
        env,
        s,
        deeper(level),
    ) + line_at(deeper(level), "</ol>"@) + line_at(level, "</div>"@)
}

pub open spec fn page_env(page: PageContents, linker: Linker) -> RenderEnv {
    RenderEnv { hrefs: page.hrefs@.defs, linker }
}

/// The markup of a whole page: its content, then its footnotes, in an article.
pub open spec fn page_markup(page: PageContents, linker: Linker) -> Seq<char> {
    line_at(0, "<article>"@) + render_elms_spec(page_env(page, linker), page.content@, 1) + footnotes_spec(
        page_env(page, linker),
        page.footnotes@.resolved(),
        1,
    ) + line_at(1, "</article>"@)
}

/// Flattens one page's content tree to markup, resolving references against
/// the page's definitions.
pub struct DoctreeRenderer<'a> {
    pub page: &'a PageContents,
    pub linker: &'a Linker,
}

impl<'a> DoctreeRenderer<'a> {
    pub open spec fn env(&self) -> RenderEnv {
        RenderEnv { hrefs: self.page.hrefs@.defs, linker: *self.linker }
    }

    pub fn new(page: &'a PageContents, linker: &'a Linker) -> (r: DoctreeRenderer<'a>)
        ensures
            r.page == page,
            r.linker == linker,
    {
        DoctreeRenderer { page, linker }
    }

    pub fn render_elms(&self, elms: &Vec<Element>, buffer: &mut PageBuffer)
        ensures
            final(buffer).buffer@ == old(buffer).buffer@ + render_elms_spec(self.env(), elms@, old(buffer).indent_level),
            final(buffer).indent_level == old(buffer).indent_level,
        decreases elms, 0nat,
    {
        let ghost level = buffer.indent_level;
        let mut i: usize = 0;
        assert(elms@.take(0) =~= Seq::<Element>::empty());
        assert(old(buffer).buffer@ + Seq::<char>::empty() =~= old(buffer).buffer@);
        while i < elms.len()
            invariant
                0 <= i <= elms@.len(),
                buffer.indent_level == level,
                level == old(buffer).indent_level,
                buffer.buffer@ == old(buffer).buffer@ + render_elms_spec(self.env(), elms@.take(i as int), level),
            decreases elms@.len() - i,
        {
            assert(elms@.take(i as int + 1).drop_last() =~= elms@.take(i as int));
            self.render_elm(&elms[i], buffer);
            i = i + 1;
            assert(buffer.buffer@ =~= old(buffer).buffer@ + render_elms_spec(self.env(), elms@.take(i as int), level));
        }
        assert(elms@.take(i as int) =~= elms@);
    }

    fn wrap_children_inline(&self, open: &str, children: &Group, close: &str, buffer: &mut PageBuffer)
        ensures
            final(buffer).buffer@ == old(buffer).buffer@ + open@ + render_elms_spec(
                self.env(),
                children.kids@,
                old(buffer).indent_level,
            ) + close@,
            final(buffer).indent_level == old(buffer).indent_level,
        decreases children, 1nat,
    {
        buffer.push(open);
        self.render_elms(&children.kids, buffer);
        buffer.push(close);
    }

    fn wrap_children_block(&self, open: &str, children: &Group, close: &str, buffer: &mut PageBuffer)
        ensures
            final(buffer).buffer@ == old(buffer).buffer@ + block_spec(
                self.env(),
                open@,
                *children,
                close@,
                old(buffer).indent_level,
            ),
            final(buffer).indent_level == old(buffer).indent_level,
        decreases children, 1nat,
    {
        let level = buffer.indent_level;
        buffer.push_line(open);
        buffer.indent();
        self.render_elms(&children.kids, buffer);
        buffer.set_indent(level);
        buffer.push_line(close);
        assert(buffer.buffer@ =~= old(buffer).buffer@ + block_spec(self.env(), open@, *children, close@, level));
    }

    fn codeblock(&self, c: &Code, buffer: &mut PageBuffer)
        ensures
            final(buffer).buffer@ == old(buffer).buffer@ + codeblock_spec(*c, old(buffer).indent_level),
            final(buffer).indent_level == old(buffer).indent_level,
    {
        let mut open = String::from_str("<div class=\"codeblock ");
        match &c.lang {
            Some(l) => open.append(l.as_str()),
            None => {},
        }
        open.append("\"><pre><code>");
        buffer.push_line(open.as_str());
        let body = highlight(c);
        buffer.push_line(body.as_str());
        buffer.push_line("</code></pre></div>");
        assert(buffer.buffer@ =~= old(buffer).buffer@ + codeblock_spec(*c, old(buffer).indent_level));
    }

    fn footnote_reference(&self, f: &FootnoteReference, buffer: &mut PageBuffer)
        ensures
            final(buffer).buffer@ == old(buffer).buffer@ + footnote_ref_spec(*f),
            final(buffer).indent_level == old(buffer).indent_level,
    {
        let mut s = String::from_str("<span class=\"footnote reference\"><a href=\"#");
        s.append(f.0.as_str());
        s.append("\">");
        s.append(f.0.as_str());
        s.append("</a></span>");
        buffer.push(s.as_str());
        assert(buffer.buffer@ =~= old(buffer).buffer@ + footnote_ref_spec(*f));
    }

    fn heading(&self, h: &Header, buffer: &mut PageBuffer)
        ensures
            final(buffer).buffer@ == old(buffer).buffer@ + heading_spec(*h, old(buffer).indent_level),
            final(buffer).indent_level == old(buffer).indent_level,
    {
        let depth = crate::text::decimal_string(h.depth as u64);
        let mut s = String::from_str("<h");
        s.append(depth.as_str());
        s.append(" id=\"");
        s.append(h.label());
        s.append("\"><span>");
        s.append(h.text());
        s.append("</span></h");
        s.append(depth.as_str());
        s.append(">");
        buffer.push_line(s.as_str());
        assert(buffer.buffer@ =~= old(buffer).buffer@ + heading_spec(*h, old(buffer).indent_level));
    }

    fn href_reference(&self, d: &HrefReference, buffer: &mut PageBuffer)
        ensures
            final(buffer).buffer@ == old(buffer).buffer@ + href_open_spec(self.env(), d.label@)
                + render_elms_spec(self.env(), d.content.kids@, old(buffer).indent_level) + "</a>"@,
            final(buffer).indent_level == old(buffer).indent_level,
        decreases d, 2nat,
    {
        let open = match self.page.hrefs.lookup(&d.label) {
            Some(def) => {
                let mut o = String::from_str("<a href=\"");
                let t = def.href().target(self.linker);
                o.append(t.as_str());
                o.append("\">");
                o
            },
            None => String::from_str("<a class=\"unresolved\">"),
        };
        assert(open@ == href_open_spec(self.env(), d.label@));
        self.wrap_children_inline(open.as_str(), &d.content, "</a>", buffer);
    }

    fn image_reference(&self, i: &ImageReference, buffer: &mut PageBuffer)
        ensures
            final(buffer).buffer@ == old(buffer).buffer@ + image_spec(self.env(), *i),
            final(buffer).indent_level == old(buffer).indent_level,
    {
        let mut s = match self.page.hrefs.lookup(&i.href_label) {
            Some(def) => {
                let mut o = String::from_str("<img src=\"");
                let t = def.href().target(self.linker);
                o.append(t.as_str());
                o.append("\" alt=\"");
                o
            },
            None => String::from_str("<img class=\"unresolved\" alt=\""),
        };
        s.append(i.alt.as_str());
        s.append("\" />");
        buffer.push(s.as_str());
        assert(buffer.buffer@ =~= old(buffer).buffer@ + image_spec(self.env(), *i));
    }

    fn inline_code(&self, c: &Code, buffer: &mut PageBuffer)
        ensures
            final(buffer).buffer@ == old(buffer).buffer@ + inline_code_spec(*c),
            final(buffer).indent_level == old(buffer).indent_level,
    {
        buffer.push("<span class=\"code inline\"><code>");
        buffer.push(c.code.as_str());
        buffer.push("</code></span>");
        assert(buffer.buffer@ =~= old(buffer).buffer@ + inline_code_spec(*c));
    }

    fn list(&self, l: &List, buffer: &mut PageBuffer)
        ensures
            final(buffer).buffer@ == old(buffer).buffer@ + line_at(old(buffer).indent_level, "<ul>"@)
                + render_items_spec(self.env(), l.li@, old(buffer).indent_level) + line_at(
                old(buffer).indent_level,
                "</ul>"@,
            ),
            final(buffer).indent_level == old(buffer).indent_level,
        decreases l, 1nat,
    {
        let ghost level = buffer.indent_level;
        buffer.push_line("<ul>");
        let ghost start = buffer.buffer@;
        let mut i: usize = 0;
        assert(l.li@.take(0) =~= Seq::<ListItem>::empty());
        assert(start + Seq::<char>::empty() =~= start);
        while i < l.li.len()
            invariant
                0 <= i <= l.li@.len(),
                buffer.indent_level == level,
                buffer.buffer@ == start + render_items_spec(self.env(), l.li@.take(i as int), level),
            decreases l.li@.len() - i,
        {
            assert(l.li@.take(i as int + 1).drop_last() =~= l.li@.take(i as int));
            self.wrap_children_block("<li>", &l.li[i].0, "</li>", buffer);
            i = i + 1;
            assert(buffer.buffer@ =~= start + render_items_spec(self.env(), l.li@.take(i as int), level));
        }
        assert(l.li@.take(i as int) =~= l.li@);
        buffer.push_line("</ul>");
        assert(buffer.buffer@ =~= old(buffer).buffer@ + line_at(level, "<ul>"@) + render_items_spec(self.env(), l.li@, level)
            + line_at(level, "</ul>"@));
    }

    fn table_row(&self, row: &TableRow, buffer: &mut PageBuffer)
        ensures
            final(buffer).buffer@ == old(buffer).buffer@ + line_at(old(buffer).indent_level, "<tr>"@)
                + render_cells_spec(self.env(), row.c@, old(buffer).indent_level) + line_at(
                old(buffer).indent_level,
                "</tr>"@,
            ),
            final(buffer).indent_level == old(buffer).indent_level,
        decreases row, 1nat,
    {
        let ghost level = buffer.indent_level;
        buffer.push_line("<tr>");
        let ghost start = buffer.buffer@;
        let mut i: usize = 0;
        assert(row.c@.take(0) =~= Seq::<TableCell>::empty());
        assert(start + Seq::<char>::empty() =~= start);
        while i < row.c.len()
            invariant
                0 <= i <= row.c@.len(),
                buffer.indent_level == level,
                buffer.buffer@ == start + render_cells_spec(self.env(), row.c@.take(i as int), level),
            decreases row.c@.len() - i,
        {
            assert(row.c@.take(i as int + 1).drop_last() =~= row.c@.take(i as int));
            self.wrap_children_block("<td>", &row.c[i].0, "</td>", buffer);
            i = i + 1;
            assert(buffer.buffer@ =~= start + render_cells_spec(self.env(), row.c@.take(i as int), level));
        }
        assert(row.c@.take(i as int) =~= row.c@);
        buffer.push_line("</tr>");
        assert(buffer.buffer@ =~= old(buffer).buffer@ + line_at(level, "<tr>"@) + render_cells_spec(self.env(), row.c@, level)
            + line_at(level, "</tr>"@));
    }

    fn table(&self, t: &Table, buffer: &mut PageBuffer)
        ensures
            final(buffer).buffer@ == old(buffer).buffer@ + line_at(old(buffer).indent_level, "<table>"@)
                + render_rows_spec(self.env(), t.r@, old(buffer).indent_level) + line_at(
                old(buffer).indent_level,
                "</table>"@,
            ),
            final(buffer).indent_level == old(buffer).indent_level,
        decreases t, 1nat,
    {
        let ghost level = buffer.indent_level;
        buffer.push_line("<table>");
        let ghost start = buffer.buffer@;
        let mut i: usize = 0;
        assert(t.r@.take(0) =~= Seq::<TableRow>::empty());
        assert(start + Seq::<char>::empty() =~= start);
        while i < t.r.len()
            invariant
                0 <= i <= t.r@.len(),
                buffer.indent_level == level,
                buffer.buffer@ == start + render_rows_spec(self.env(), t.r@.take(i as int), level),
            decreases t.r@.len() - i,
        {
            assert(t.r@.take(i as int + 1).drop_last() =~= t.r@.take(i as int));
            self.table_row(&t.r[i], buffer);
            i = i + 1;
            assert(buffer.buffer@ =~= start + render_rows_spec(self.env(), t.r@.take(i as int), level));
        }
        assert(t.r@.take(i as int) =~= t.r@);
        buffer.push_line("</table>");
        assert(buffer.buffer@ =~= old(buffer).buffer@ + line_at(level, "<table>"@) + render_rows_spec(self.env(), t.r@, level)
            + line_at(level, "</table>"@));
    }

    fn include_footnotes(&self, buffer: &mut PageBuffer)
        ensures
            final(buffer).buffer@ == old(buffer).buffer@ + footnotes_spec(
                self.env(),
                self.page.footnotes@.resolved(),
                old(buffer).indent_level,
            ),
            final(buffer).indent_level == old(buffer).indent_level,
    {
        let ghost level = buffer.indent_level;
        let saved = buffer.indent_level;
        buffer.push_line("<div class=\"footnotes\">");
        buffer.indent();
        buffer.push_line("<ol>");
        let ghost start = buffer.buffer@;
        let defs = self.page.footnotes.definitions();
        let ghost rs = self.page.footnotes@.resolved();
        let mut i: usize = 0;
        assert(rs.take(0) =~= Seq::<FootnoteDefinition>::empty());
        assert(start + Seq::<char>::empty() =~= start);
        while i < defs.len()
            invariant
                0 <= i <= defs@.len(),
                defs@.len() == rs.len(),
                forall|j: int| 0 <= j < defs@.len() ==> *defs@[j] == rs[j],
                buffer.indent_level == deeper(level),
                buffer.buffer@ == start + footnote_items_spec(self.env(), rs.take(i as int), deeper(level)),
            decreases defs@.len() - i,
        {
            assert(rs.take(i as int + 1).drop_last() =~= rs.take(i as int));
            let ftn: &FootnoteDefinition = defs[i];
            let mut open = String::from_str("<li id=\"");
            open.append(ftn.label.as_str());
            open.append("\">");
            self.wrap_children_block(open.as_str(), &ftn.content, "</li>", buffer);
            i = i + 1;
            assert(buffer.buffer@ =~= start + footnote_items_spec(self.env(), rs.take(i as int), deeper(level)));
        }
        assert(rs.take(i as int) =~= rs);
        buffer.push_line("</ol>");
        buffer.set_indent(saved);
        buffer.push_line("</div>");
        assert(buffer.buffer@ =~= old(buffer).buffer@ + footnotes_spec(self.env(), rs, level));
    }

    /// Appends the page's content, then its footnotes.
    pub fn render(&self, buffer: &mut PageBuffer)
        ensures
            final(buffer).buffer@ == old(buffer).buffer@ + render_elms_spec(
                self.env(),
                self.page.content@,
                old(buffer).indent_level,
            ) + footnotes_spec(self.env(), self.page.footnotes@.resolved(), old(buffer).indent_level),
            final(buffer).indent_level == old(buffer).indent_level,
    {
        self.render_elms(&self.page.content, buffer);
        self.include_footnotes(buffer);
    }

    /// Appends the markup of one element.
    pub fn render_elm(&self, elm: &Element, buffer: &mut PageBuffer)
        ensures
            final(buffer).buffer@ == old(buffer).buffer@ + render_elm_spec(self.env(), *elm, old(buffer).indent_level),
            final(buffer).indent_level == old(buffer).indent_level,
        decreases elm, 3nat,
    {
        match elm {
            Element::BlockQuote(q) => self.wrap_children_block("<blockquote>", q, "</blockquote>", buffer),
            Element::CodeBlock(c) => self.codeblock(c, buffer),
            Element::Delete(d) => self.wrap_children_inline("<s>", d, "</s>", buffer),
            Element::Emphasis(e) => self.wrap_children_inline("<em>", e, "</em>", buffer),
            Element::Empty => {
                assert(buffer.buffer@ =~= old(buffer).buffer@ + Seq::<char>::empty());
            },
            Element::FootnoteReference(f) => self.footnote_reference(f, buffer),
            Element::Group(g) => self.render_elms(&g.kids, buffer),
            Element::Heading(h) => self.heading(h, buffer),
            Element::HrefReference(h) => self.href_reference(h, buffer),
            Element::ImageReference(i) => self.image_reference(i, buffer),
            Element::InlineCode(i) => self.inline_code(i, buffer),
            Element::List(l) => self.list(l, buffer),
            Element::Paragraph(p) => self.wrap_children_block("<p>", p, "</p>", buffer),
            Element::Strong(s) => self.wrap_children_inline("<strong>", s, "</strong>", buffer),
            Element::Table(t) => self.table(t, buffer),
            Element::Text(t) => buffer.push(t.as_str()),
        }
    }
}

/// Renders a page's content tree to markup. References are resolved only
/// here, against the page's finished definitions, so a reference may come
/// before its definition.
pub fn render_page(page: &PageContents, linker: &Linker) -> (r: String)
    ensures
        r@ == page_markup(*page, *linker),
{
    let mut buffer = PageBuffer::new();
    let helper = DoctreeRenderer::new(page, linker);
    buffer.push_line("<article>");
    buffer.indent();
    helper.render(&mut buffer);
    buffer.push_line("</article>");
    assert(buffer.buffer@ =~= page_markup(*page, *linker));
    buffer.flush()
}

/// Renders a fragment of a page, such as its summary, resolving references
/// against the page's definitions.
pub fn render_summary(g: &Group, page: &PageContents, linker: &Linker) -> (r: String)
    ensures
        r@ == render_elms_spec(page_env(*page, *linker), g.kids@, 0),
{
    let mut buffer = PageBuffer::new();
    let helper = DoctreeRenderer::new(page, linker);
    helper.render_elms(&g.kids, &mut buffer);
    assert(buffer.buffer@ =~= render_elms_spec(page_env(*page, *linker), g.kids@, 0));
    buffer.flush()
}

} // verus!
