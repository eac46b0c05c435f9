use crate::text::{find_last, last_index_of, lemma_last_index_of_range};
use vstd::prelude::*;
use vstd::string::*;

verus! {

/// How a page's destination is laid out.
#[derive(Clone, Copy, PartialEq, Eq, Structural)]
pub enum ArticleSlugStyle {
    /// `name/index.html`
    Directory,
    /// `name.html`
    Page,
}

/// The last component of a path.
pub open spec fn file_name(p: Seq<char>) -> Seq<char> {
    p.subrange(last_index_of(p, '/') + 1, p.len() as int)
}

/// The file name without its extension; a leading dot does not start one.
pub open spec fn file_stem(p: Seq<char>) -> Seq<char> {
    let n = file_name(p);
    let d = last_index_of(n, '.');
    if d > 0 {
        n.subrange(0, d)
    } else {
        n
    }
}

/// What a style appends to the stem.
pub open spec fn style_suffix(style: ArticleSlugStyle) -> Seq<char> {
    match style {
        ArticleSlugStyle::Page => ".html"@,
        ArticleSlugStyle::Directory => "/index.html"@,
    }
}

/// `rel` placed under the directory `root`, if there is one.
pub open spec fn join_root(root: Option<Seq<char>>, rel: Seq<char>) -> Seq<char> {
    match root {
        None => rel,
        Some(r) => if r.len() == 0 {
            rel
        } else if r.last() == '/' {
            r + rel
        } else {
            r + "/"@ + rel
        },
    }
}

/// The destination of the page whose source is `origin`.
pub open spec fn slug_of(origin: Seq<char>, style: ArticleSlugStyle, root: Option<Seq<char>>) -> Seq<char> {
    join_root(root, file_stem(origin) + style_suffix(style))
}

pub open spec fn root_view(root: Option<String>) -> Option<Seq<char>> {
    match root {
        None => None,
        Some(r) => Some(r@),
    }
}

/// How the linker lays out destinations.
pub struct LinkerOptions {
    /// A directory that every page destination is placed under.
    pub page_root: Option<String>,
    pub slug_style: ArticleSlugStyle,
}

impl LinkerOptions {
    /// Pages as `name.html`, with no root directory.
    pub fn default_options() -> (r: LinkerOptions)
        ensures
            r.page_root is None,
            r.slug_style == ArticleSlugStyle::Page,
    {
        LinkerOptions { page_root: None, slug_style: ArticleSlugStyle::Page }
    }
}

/// Maps a page's source path to its destination path.
pub struct Linker {
    pub opts: LinkerOptions,
}

impl Linker {
    pub fn new(opts: LinkerOptions) -> (r: Linker)
        ensures
            r.opts == opts,
    {
        Linker { opts }
    }

    pub open spec fn slug_spec(&self, origin: Seq<char>) -> Seq<char> {
        slug_of(origin, self.opts.slug_style, root_view(self.opts.page_root))
    }

    /// The destination of the page at `origin`: its stem with the style's
    /// suffix, under the page root. It depends on nothing else.
    pub fn slug(&self, origin: &str) -> (r: String)
        ensures
            r@ == self.slug_spec(origin@),
    {
        let len = origin.unicode_len();
        proof {
            lemma_last_index_of_range(origin@, '/');
        }
        let name_start: usize = match find_last(origin, '/') {
            None => 0,
            Some(k) => k + 1,
        };
        let name = origin.substring_char(name_start, len);
        assert(name@ == file_name(origin@));
        proof {
            lemma_last_index_of_range(name@, '.');
        }
        let stem: &str = match find_last(name, '.') {
            Some(d) => if d > 0 {
                name.substring_char(0, d)
            } else {
                name
            },
            None => name,
        };
        assert(stem@ == file_stem(origin@));
        let mut rel = String::from_str(stem);
        match self.opts.slug_style {
            ArticleSlugStyle::Page => rel.append(".html"),
            ArticleSlugStyle::Directory => rel.append("/index.html"),
        }
        match &self.opts.page_root {
            None => rel,
            Some(root) => {
                let rlen = root.as_str().unicode_len();
                if rlen == 0 {
                    rel
                } else if root.as_str().get_char(rlen - 1) == '/' {
                    let mut out = root.clone();
                    out.append(rel.as_str());
                    out
                } else {
                    let mut out = root.clone();
                    out.append("/");
                    out.append(rel.as_str());
                    out
                }
            },
        }
    }
}

/// The destination depends on the source path, the style and the root alone;
/// switching from `Page` to `Directory` turns `stem.html` into
/// `stem/index.html` under the same root.
pub proof fn law_slug_styles(origin: Seq<char>, root: Option<Seq<char>>)
    ensures
        slug_of(origin, ArticleSlugStyle::Page, root) == join_root(root, file_stem(origin) + ".html"@),
        slug_of(origin, ArticleSlugStyle::Directory, root) == join_root(root, file_stem(origin) + "/index.html"@),
{
}

/// Two linkers with the same options give byte-identical destinations for
/// the same source path.
pub proof fn law_slug_deterministic(a: Linker, b: Linker, origin: Seq<char>)
    requires
        a.opts.slug_style == b.opts.slug_style,
        root_view(a.opts.page_root) == root_view(b.opts.page_root),
    ensures
        a.slug_spec(origin) == b.slug_spec(origin),
{
}

} // verus!
