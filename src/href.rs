use crate::linker::Linker;
use vstd::prelude::*;
use vstd::string::*;

verus! {

/// Whether `url::Url::parse` accepts a string, that is whether it reads as an
/// absolute URL.
pub uninterp spec fn absolute_url(s: Seq<char>) -> bool;

/// Relies on `url::Url::parse`: it succeeds on absolute URLs and fails on
/// anything else; the answer depends on the text alone.
#[verifier::external_body]
fn parses_as_url(s: &str) -> (r: bool)
    ensures
        r == absolute_url(s@),
{
    url::Url::parse(s).is_ok()
}

/// The target of a link or image.
pub enum Href {
    /// Text that has not been classified yet.
    Unparsed(String),
    /// An absolute URL.
    Url(String),
    /// A path relative to the site.
    LocalFile(String),
}

pub enum HrefError {
    Unsupported(String),
}

/// Whether a path names a source document, which links are rewritten to the
/// document's destination.
pub open spec fn is_document(p: Seq<char>) -> bool {
    p.len() >= 3 && p.subrange(p.len() - 3, p.len() as int) == ".md"@
}

/// Where a link to the text `s` points once destinations are known: absolute
/// URLs and other files stay as written, source documents go to their slug.
pub open spec fn target_of(s: Seq<char>, is_url: bool, linker: Linker) -> Seq<char> {
    if !is_url && is_document(s) {
        linker.slug_spec(s)
    } else {
        s
    }
}

/// The target text of an `Href`, before destinations are applied.
pub open spec fn href_text(h: Href) -> Seq<char> {
    match h {
        Href::Unparsed(s) => s@,
        Href::Url(s) => s@,
        Href::LocalFile(s) => s@,
    }
}

/// Where an `Href` points once destinations are known.
pub open spec fn href_target(h: Href, linker: Linker) -> Seq<char> {
    match h {
        Href::Unparsed(s) => target_of(s@, absolute_url(s@), linker),
        Href::Url(s) => s@,
        Href::LocalFile(s) => target_of(s@, false, linker),
    }
}

pub fn ends_with_document_ext(p: &str) -> (r: bool)
    ensures
        r == is_document(p@),
{
    let n = p.unicode_len();
    if n < 3 {
        return false;
    }
    let r = p.get_char(n - 3) == '.' && p.get_char(n - 2) == 'm' && p.get_char(n - 1) == 'd';
    proof {
        reveal_strlit(".md");
        let t = p@.subrange(n - 3, n as int);
        if r {
            assert(t =~= ".md"@);
        } else {
            assert(t[0] != '.' || t[1] != 'm' || t[2] != 'd');
        }
    }
    r
}

impl Href {
    pub fn unparsed(s: String) -> (r: Href)
        ensures
            r == Href::Unparsed(s),
    {
        Href::Unparsed(s)
    }

    /// Classifies a target text, given whether it reads as an absolute URL:
    /// empty text is refused, a URL is kept as one, anything else is a local path.
    pub fn classify(s: &str, is_url: bool) -> (r: Result<Href, HrefError>)
        ensures
            r matches Err(HrefError::Unsupported(t)) ==> s@.len() == 0 && t@ == s@,
            r matches Ok(Href::Url(t)) ==> s@.len() > 0 && is_url && t@ == s@,
            r matches Ok(Href::LocalFile(t)) ==> s@.len() > 0 && !is_url && t@ == s@,
            r is Err <==> s@.len() == 0,
            !(r matches Ok(Href::Unparsed(_))),
    {
        let owned = String::from_str(s);
        if s.unicode_len() == 0 {
            Err(HrefError::Unsupported(owned))
        } else if is_url {
            Ok(Href::Url(owned))
        } else {
            Ok(Href::LocalFile(owned))
        }
    }

    /// Classifies a target text as an absolute URL or a local path.
    pub fn parse(s: &str) -> (r: Result<Href, HrefError>)
        ensures
            r is Err <==> s@.len() == 0,
            r matches Ok(Href::Url(t)) ==> absolute_url(s@) && t@ == s@,
            r matches Ok(Href::LocalFile(t)) ==> !absolute_url(s@) && t@ == s@,
            !(r matches Ok(Href::Unparsed(_))),
    {
        let is_url = parses_as_url(s);
        Href::classify(s, is_url)
    }

    /// The target text as written.
    pub fn as_str(&self) -> (r: &str)
        ensures
            r@ == href_text(*self),
    {
        match self {
            Href::Unparsed(s) => s.as_str(),
            Href::Url(s) => s.as_str(),
            Href::LocalFile(s) => s.as_str(),
        }
    }

    /// Where the link points, given whether its text reads as an absolute URL.
    pub fn resolve_text(s: &str, is_url: bool, linker: &Linker) -> (r: String)
        ensures
            r@ == target_of(s@, is_url, *linker),
    {
        if !is_url && ends_with_document_ext(s) {
            linker.slug(s)
        } else {
            String::from_str(s)
        }
    }

    /// Where the link points: source documents are sent to their destination.
    pub fn target(&self, linker: &Linker) -> (r: String)
        ensures
            r@ == href_target(*self, *linker),
    {
        match self {
            Href::Unparsed(s) => {
                let is_url = parses_as_url(s.as_str());
                Href::resolve_text(s.as_str(), is_url, linker)
            },
            Href::Url(s) => s.clone(),
            Href::LocalFile(s) => Href::resolve_text(s.as_str(), false, linker),
        }
    }
}

/// A link or image target under its label.
pub struct HrefDefinition {
    pub label: String,
    pub href_: Href,
}

impl HrefDefinition {
    pub fn create(label: String, href: Href) -> (r: HrefDefinition)
        ensures
            r.label@ == label@,
            r.href_ == href,
    {
        HrefDefinition { label, href_: href }
    }

    pub fn href(&self) -> (r: &Href)
        ensures
            *r == self.href_,
    {
        &self.href_
    }

    pub fn label(&self) -> (r: &String)
        ensures
            r@ == self.label@,
    {
        &self.label
    }
}

} // verus!
