//! Sanitizing of HTML fragments and slugs for URIs. Both are computed by
//! outside crates; the library names their results and proves what it does
//! with them.
use vstd::prelude::*;
use vstd::string::*;
use crate::utils::text::{decimal, decimal_text};

verus! {

/// What the HTML sanitizer makes of `text` when only the elements in `tags` are let through.
pub uninterp spec fn cleaned(tags: Set<Seq<char>>, text: Seq<char>) -> Seq<char>;

/// The slug of a text.
pub uninterp spec fn slug_of(text: Seq<char>) -> Seq<char>;

/// The views of a list of tags.
pub open spec fn tag_views(tags: Seq<&'static str>) -> Seq<Seq<char>> {
    Seq::new(tags.len(), |i: int| tags[i]@)
}

/// The set of element names in a list of tags.
pub open spec fn tag_set(tags: Seq<&'static str>) -> Set<Seq<char>> {
    tag_views(tags).to_set()
}

/// An element that the sanitizer can be told to let through.
pub open spec fn admissible_tag(tag: Seq<char>) -> bool {
    tag != "script"@ && tag != "style"@
}

/// A tag list that the sanitizer accepts.
pub open spec fn admissible(tags: Seq<&'static str>) -> bool {
    forall|i: int| 0 <= i < tags.len() ==> admissible_tag((#[trigger] tags[i])@)
}

/// Elements allowed in a short description.
pub open spec fn inline_tags() -> Seq<Seq<char>> {
    seq!["b"@]
}

/// Elements allowed in the body of an article.
pub open spec fn article_tags() -> Seq<Seq<char>> {
    seq!["b"@, "ul"@, "ol"@, "li"@, "a"@, "p"@, "br"@]
}

/// Elements allowed in the body of a project.
pub open spec fn project_tags() -> Seq<Seq<char>> {
    seq!["b"@, "h2"@, "h3"@, "ul"@, "ol"@, "li"@, "a"@, "p"@, "br"@]
}

/// Calls `ammonia::Builder::default().tags(..).clean(..)` and renders the
/// document: the text with every element outside `tags` taken out, the
/// builder's other settings left at their defaults. The builder refuses a
/// tag list with `script` or `style`, whose content it always drops, so
/// those two are not admitted. The result is a function of the tag set and
/// the text, which the contract names.
#[verifier::external_body]
pub(crate) fn clean(tags: &Vec<&'static str>, text: &str) -> (r: String)
    requires
        admissible(tags@),
    ensures
        r@ == cleaned(tag_set(tags@), text@),
{
    let allowed: std::collections::HashSet<&str> = tags.iter().copied().collect();
    ammonia::Builder::default().tags(allowed).clean(text).to_string()
}

/// The characters that a slug is made of: lower-case letters, digits and the hyphen.
pub open spec fn slug_char(c: char) -> bool {
    ('a' <= c && c <= 'z') || ('0' <= c && c <= '9') || c == '-'
}

/// Calls `slugmin::slugify`: the ASCII slug of the text, which the contract
/// names; it consists of lower-case letters, digits and hyphens.
#[verifier::external_body]
pub(crate) fn slugify(text: &str) -> (r: String)
    ensures
        r@ == slug_of(text@),
        forall|i: int| 0 <= i < r@.len() ==> slug_char(#[trigger] r@[i]),
{
    slugmin::slugify(text)
}

/// The list of elements allowed in a short description.
fn inline_tag_list() -> (r: Vec<&'static str>)
    ensures
        tag_views(r@) == inline_tags(),
        admissible(r@),
{
    let r = vec!["b"];
    proof {
        reveal_strlit("b");
        reveal_strlit("script");
        reveal_strlit("style");
        assert forall|i: int| 0 <= i < r@.len() implies admissible_tag((#[trigger] r@[i])@) by {
            assert(r@[i]@.len() <= 2);
        }
        assert(tag_views(r@) =~= inline_tags());
    }
    r
}

/// The list of elements allowed in the body of an article.
fn article_tag_list() -> (r: Vec<&'static str>)
    ensures
        tag_views(r@) == article_tags(),
        admissible(r@),
{
    let r = vec!["b", "ul", "ol", "li", "a", "p", "br"];
    proof {
        reveal_strlit("b");
        reveal_strlit("ul");
        reveal_strlit("ol");
        reveal_strlit("li");
        reveal_strlit("a");
        reveal_strlit("p");
        reveal_strlit("br");
        reveal_strlit("script");
        reveal_strlit("style");
        assert forall|i: int| 0 <= i < r@.len() implies admissible_tag((#[trigger] r@[i])@) by {
            assert(r@[i]@.len() <= 2);
        }
        assert(tag_views(r@) =~= article_tags());
    }
    r
}

/// The list of elements allowed in the body of a project.
fn project_tag_list() -> (r: Vec<&'static str>)
    ensures
        tag_views(r@) == project_tags(),
        admissible(r@),
{
    let r = vec!["b", "h2", "h3", "ul", "ol", "li", "a", "p", "br"];
    proof {
        reveal_strlit("b");
        reveal_strlit("h2");
        reveal_strlit("h3");
        reveal_strlit("ul");
        reveal_strlit("ol");
        reveal_strlit("li");
        reveal_strlit("a");
        reveal_strlit("p");
        reveal_strlit("br");
        reveal_strlit("script");
        reveal_strlit("style");
        assert forall|i: int| 0 <= i < r@.len() implies admissible_tag((#[trigger] r@[i])@) by {
            assert(r@[i]@.len() <= 2);
        }
        assert(tag_views(r@) =~= project_tags());
    }
    r
}

/// The kinds of markup that the site stores, each with its list of allowed elements.
#[derive(Debug, Clone, Copy, PartialEq, Eq, Structural)]
pub enum Markup {
    /// A short description: bold text only.
    Inline,
    /// The body of an article.
    Article,
    /// The body of a project.
    Project,
}

impl Markup {
    /// The elements that the markup lets through.
    pub open spec fn allowed(self) -> Set<Seq<char>> {
        match self {
            Markup::Inline => inline_tags().to_set(),
            Markup::Article => article_tags().to_set(),
            Markup::Project => project_tags().to_set(),
        }
    }

    /// Sanitizes a text: every element outside the markup's list is taken out.
    pub fn sanitize(self, text: &str) -> (r: String)
        ensures
            r@ == cleaned(self.allowed(), text@),
    {
        let tags = match self {
            Markup::Inline => inline_tag_list(),
            Markup::Article => article_tag_list(),
            Markup::Project => project_tag_list(),
        };
        clean(&tags, text)
    }
}

/// The URI of an entity: the slug of its name, a hyphen and its id.
pub open spec fn uri_of(name: Seq<char>, id: int) -> Seq<char> {
    slug_of(name + "-"@ + decimal(id))
}

/// Computes the URI of an entity from its current name and its id.
pub fn entity_uri(name: &str, id: i16) -> (r: String)
    ensures
        r@ == uri_of(name@, id as int),
        forall|i: int| 0 <= i < r@.len() ==> slug_char(#[trigger] r@[i]),
{
    let mut text = String::from_str(name);
    text.append("-");
    let number = decimal_text(id as i64);
    text.append(number.as_str());
    slugify(text.as_str())
}

} // verus!
