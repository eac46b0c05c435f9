use crate::archive::{find_meta, meta_lookup, str_eq};
use crate::page::{LoadError, Metadata, PageBuilder, PageStatus};
use crate::text::{decimal, decimal_string, lower_of, lowercase};
use vstd::prelude::*;
use vstd::string::*;

verus! {

/// A node of a parsed metadata block, as the YAML reader gives it.
pub enum FrontValue {
    /// A floating-point number, as written.
    Real(String),
    Integer(i64),
    Str(String),
    Boolean(bool),
    Array(Vec<FrontValue>),
    Hash(Vec<(FrontValue, FrontValue)>),
    Alias(usize),
    Null,
    BadValue,
}

/// An integer in decimal, with a leading `-` when it is negative.
pub open spec fn signed_decimal(i: int) -> Seq<char> {
    if i < 0 {
        seq!['-'] + decimal((-i) as nat)
    } else {
        decimal(i as nat)
    }
}

pub fn signed_decimal_string(i: i64) -> (r: String)
    ensures
        r@ == signed_decimal(i as int),
{
    if i < 0 {
        let abs: u64 = (-(i as i128)) as u64;
        let digits = decimal_string(abs);
        let mut out = String::from_str("-");
        out.append(digits.as_str());
        proof {
            reveal_strlit("-");
        }
        assert(out@ =~= signed_decimal(i as int));
        out
    } else {
        decimal_string(i as u64)
    }
}

/// Whether a value can stand in page metadata: no nulls or aliases, and
/// every map key a string.
pub open spec fn convertible(v: FrontValue) -> bool
    decreases v,
{
    match v {
        FrontValue::Null | FrontValue::Alias(_) | FrontValue::BadValue => false,
        FrontValue::Hash(ps) => forall|i: int|
            0 <= i < ps@.len() ==> (#[trigger] ps@[i]).0 is Str && convertible(ps@[i].1),
        _ => true,
    }
}

/// `m` is what the metadata value `v` becomes: numbers keep their text,
/// map keys are lower-cased, and list items that cannot be converted are
/// left out.
pub open spec fn converts(v: FrontValue, m: Metadata) -> bool
    decreases v,
{
    match v {
        FrontValue::Real(s) => m matches Metadata::Number(t) && t@ == s@,
        FrontValue::Integer(i) => m matches Metadata::Number(t) && t@ == signed_decimal(i as int),
        FrontValue::Str(s) => m matches Metadata::Str(t) && t@ == s@,
        FrontValue::Boolean(b) => m == Metadata::Bool(b),
        FrontValue::Array(xs) => m matches Metadata::List(ys) && list_converts(xs@, ys@),
        FrontValue::Hash(ps) => m matches Metadata::Dict(qs) && qs@.len() == ps@.len() && forall|i: int|
            0 <= i < ps@.len() ==> ((#[trigger] ps@[i]).0 matches FrontValue::Str(k) && qs@[i].0@ == lower_of(k@)
                && converts(ps@[i].1, qs@[i].1)),
        _ => false,
    }
}

pub open spec fn list_converts(xs: Seq<FrontValue>, ys: Seq<Metadata>) -> bool
    decreases xs,
{
    if xs.len() == 0 {
        ys.len() == 0
    } else if convertible(xs.last()) {
        ys.len() > 0 && list_converts(xs.drop_last(), ys.drop_last()) && converts(xs.last(), ys.last())
    } else {
        list_converts(xs.drop_last(), ys)
    }
}

/// Converts a metadata value, or says why it cannot be.
pub fn to_metadata(v: &FrontValue) -> (r: Result<Metadata, String>)
    ensures
        r is Ok <==> convertible(*v),
        r matches Ok(m) ==> converts(*v, m),
    decreases v, 1nat,
{
    match v {
        FrontValue::Real(s) => Ok(Metadata::Number(s.clone())),
        FrontValue::Integer(i) => Ok(Metadata::Number(signed_decimal_string(*i))),
        FrontValue::Str(s) => Ok(Metadata::Str(s.clone())),
        FrontValue::Boolean(b) => Ok(Metadata::Bool(*b)),
        FrontValue::Array(xs) => Ok(Metadata::List(convert_list(xs))),
        FrontValue::Hash(ps) => match convert_map(ps) {
            Ok(qs) => Ok(Metadata::Dict(qs)),
            Err(e) => Err(e),
        },
        _ => Err(String::from_str("unsupported value in metadata")),
    }
}

/// Converts the items of a metadata list, leaving out those that cannot be.
pub fn convert_list(xs: &Vec<FrontValue>) -> (r: Vec<Metadata>)
    ensures
        list_converts(xs@, r@),
    decreases xs, 0nat,
{
    let mut ys: Vec<Metadata> = Vec::new();
    let mut i: usize = 0;
    assert(xs@.take(0) =~= Seq::<FrontValue>::empty());
    while i < xs.len()
        invariant
            0 <= i <= xs@.len(),
            list_converts(xs@.take(i as int), ys@),
        decreases xs@.len() - i,
    {
        assert(xs@.take(i as int + 1).drop_last() =~= xs@.take(i as int));
        let ghost prev = ys@;
        match to_metadata(&xs[i]) {
            Ok(m) => {
                ys.push(m);
                assert(ys@.drop_last() =~= prev);
            },
            Err(_) => {},
        }
        i = i + 1;
    }
    assert(xs@.take(i as int) =~= xs@);
    ys
}

/// Converts the pairs of a metadata map; keys must be strings and are lower-cased.
pub fn convert_map(ps: &Vec<(FrontValue, FrontValue)>) -> (r: Result<Vec<(String, Metadata)>, String>)
    ensures
        r is Ok <==> convertible(FrontValue::Hash(*ps)),
        r matches Ok(qs) ==> converts(FrontValue::Hash(*ps), Metadata::Dict(qs)),
    decreases ps, 0nat,
{
    let mut qs: Vec<(String, Metadata)> = Vec::new();
    let mut i: usize = 0;
    while i < ps.len()
        invariant
            0 <= i <= ps@.len(),
            qs@.len() == i,
            forall|j: int| 0 <= j < i ==> ((#[trigger] ps@[j]).0 matches FrontValue::Str(k) && qs@[j].0@ == lower_of(k@)
                && converts(ps@[j].1, qs@[j].1) && convertible(ps@[j].1)),
        decreases ps@.len() - i,
    {
        match &ps[i].0 {
            FrontValue::Str(k) => {
                assert(decreases_to!(ps => ps@[i as int].1));
                match to_metadata(&ps[i].1) {
                    Ok(m) => {
                        qs.push((lowercase(k.as_str()), m));
                    },
                    Err(e) => {
                        return Err(e);
                    },
                }
            },
            _ => {
                return Err(String::from_str("metadata keys must be strings"));
            },
        }
        i = i + 1;
    }
    Ok(qs)
}

/// Whether `key` is absent or bound to a string.
pub open spec fn str_field_ok(m: Seq<(String, Metadata)>, key: Seq<char>) -> bool {
    match meta_lookup(m, key) {
        None => true,
        Some(Metadata::Str(_)) => true,
        _ => false,
    }
}

/// The string bound to `key`, if it is bound to one.
pub open spec fn str_field(m: Seq<(String, Metadata)>, key: Seq<char>) -> Option<String> {
    match meta_lookup(m, key) {
        Some(Metadata::Str(s)) => Some(s),
        _ => None,
    }
}

/// The status a metadata map asks for: drafts say so, in any case; the
/// default is published. `None` when `status` is not a string.
pub open spec fn status_from(m: Seq<(String, Metadata)>) -> Option<PageStatus> {
    match meta_lookup(m, "status"@) {
        None => Some(PageStatus::Published),
        Some(Metadata::Str(s)) => Some(if lower_of(s@) == "draft"@ { PageStatus::Draft } else { PageStatus::Published }),
        _ => None,
    }
}

/// Whether the metadata block `docs` can be applied: its first document is
/// a map that converts, and `title`, `date` and `status` are strings where
/// they are given.
pub open spec fn frontmatter_ok(docs: Seq<FrontValue>, m: Seq<(String, Metadata)>) -> bool {
    &&& docs.len() > 0
    &&& docs[0] is Hash
    &&& convertible(docs[0])
    &&& str_field_ok(m, "title"@)
    &&& str_field_ok(m, "date"@)
    &&& status_from(m) is Some
}

/// The metadata block cannot be applied: its first document is missing, is
/// not a map that converts, or converts to a map whose `title`, `date` or
/// `status` is not a string.
pub open spec fn frontmatter_rejects(docs: Seq<FrontValue>) -> bool {
    ||| !(docs.len() > 0 && docs[0] is Hash && convertible(docs[0]))
    ||| exists|qs: Vec<(String, Metadata)>| #[trigger] converts(docs[0], Metadata::Dict(qs)) && !frontmatter_ok(docs, qs@)
}

fn string_field(meta: &Vec<(String, Metadata)>, key: &str, origin: &String) -> (r: Result<Option<String>, LoadError>)
    ensures
        r is Ok <==> str_field_ok(meta@, key@),
        r matches Ok(v) ==> v == str_field(meta@, key@),
        r matches Err(e) ==> (e matches LoadError::SourceFormat(o, _) && o == origin),
{
    match find_meta(meta, key) {
        None => Ok(None),
        Some(Metadata::Str(s)) => Ok(Some(s.clone())),
        Some(_) => {
            let mut msg = String::from_str(key);
            msg.append(" must be a string");
            Err(LoadError::SourceFormat(origin.clone(), msg))
        },
    }
}

/// Applies a page's parsed metadata block to its builder: the whole map is
/// kept, with lower-cased keys, and `title`, `date` and `status` are taken
/// from it. A required key that is absent is left for `build` to report.
pub fn frontmatter_to_page_meta(docs: &Vec<FrontValue>, b: &mut PageBuilder) -> (r: Result<(), LoadError>)
    ensures
        r is Ok ==> frontmatter_ok(docs@, final(b).meta@),
        r is Err ==> *final(b) == *old(b) && frontmatter_rejects(docs@),
        !(docs@.len() > 0 && docs@[0] is Hash && convertible(docs@[0])) ==> r is Err,
        r matches Err(e) ==> (e matches LoadError::SourceFormat(o, _) && o == old(b).filepath),
        r is Ok ==> converts(docs@[0], Metadata::Dict(final(b).meta))
            && final(b).title == (match str_field(final(b).meta@, "title"@) {
                Some(s) => Some(s),
                None => old(b).title,
            })
            && final(b).when == (match str_field(final(b).meta@, "date"@) {
                Some(s) => Some(s),
                None => old(b).when,
            })
            && final(b).page_status == status_from(final(b).meta@)->0
            && *final(b) == (PageBuilder {
                meta: final(b).meta,
                title: final(b).title,
                when: final(b).when,
                page_status: final(b).page_status,
                ..*old(b)
            }),
{
    if docs.len() == 0 {
        return Err(LoadError::SourceFormat(b.filepath.clone(), String::from_str("empty metadata block")));
    }
    let meta = match &docs[0] {
        FrontValue::Hash(ps) => match convert_map(ps) {
            Ok(m) => m,
            Err(msg) => {
                return Err(LoadError::SourceFormat(b.filepath.clone(), msg));
            },
        },
        _ => {
            return Err(
                LoadError::SourceFormat(
                    b.filepath.clone(),
                    String::from_str("metadata must be a map at the top level"),
                ),
            );
        },
    };
    let title = string_field(&meta, "title", &b.filepath)?;
    let date = string_field(&meta, "date", &b.filepath)?;
    let status = match find_meta(&meta, "status") {
        None => PageStatus::Published,
        Some(Metadata::Str(s)) => {
            let folded = lowercase(s.as_str());
            if str_eq(folded.as_str(), "draft") {
                PageStatus::Draft
            } else {
                PageStatus::Published
            }
        },
        Some(_) => {
            return Err(LoadError::SourceFormat(b.filepath.clone(), String::from_str("status must be a string")));
        },
    };
    b.meta = meta;
    match title {
        Some(t) => b.with_title(t),
        None => {},
    }
    match date {
        Some(d) => b.written(d),
        None => {},
    }
    b.status(status);
    Ok(())
}

} // verus!
