//! Reading the macros' attributes: doc comments, `key = "value"` and
//! `tags = [...]` entries, and the arguments of `#[server]`, `#[tool]`,
//! `#[resource]` and `#[prompt]`.

use vstd::prelude::*;
use crate::text::{
    chars_of, collect_quoted, contains_seq, find_char, find_from, find_seq, join, quoted_items,
    string_of, trim, trim_quotes, trim_quotes_seq, trim_seq, trim_start, trim_start_seq, views,
};
use super::syntax::{AttrArgs, AttrModel, MacroError, attr_is, parse_string_literal, path_is, string_literal_value};

verus! {

/// The lines of the doc comments among `attrs`, each trimmed (on both ends
/// where `both_ends`, else at its start).
pub open spec fn doc_lines(attrs: Seq<AttrModel>, both_ends: bool) -> Seq<Seq<char>>
    decreases attrs.len(),
{
    if attrs.len() == 0 {
        Seq::empty()
    } else {
        let rest = doc_lines(attrs.drop_last(), both_ends);
        let a = attrs.last();
        match a.args {
            AttrArgs::NameValue(Some(v)) => if path_is(a, "doc"@) {
                rest.push(
                    if both_ends {
                        trim_seq(v@)
                    } else {
                        trim_start_seq(v@)
                    },
                )
            } else {
                rest
            },
            _ => rest,
        }
    }
}

/// The doc comment made of `attrs`: its lines joined with spaces, or nothing
/// where there are none.
pub open spec fn doc_comment(attrs: Seq<AttrModel>, both_ends: bool) -> Option<Seq<char>> {
    let lines = doc_lines(attrs, both_ends);
    if lines.len() == 0 {
        None
    } else {
        Some(join(lines, " "@))
    }
}

/// The view of an optional string.
pub open spec fn opt_view(s: Option<String>) -> Option<Seq<char>> {
    match s {
        Some(s) => Some(s@),
        None => None,
    }
}

/// The doc comment made of `attrs` (lines trimmed on both ends where
/// `both_ends`, else at their start, and joined with spaces).
pub fn doc_comment_of(attrs: &Vec<AttrModel>, both_ends: bool) -> (r: Option<String>)
    ensures
        opt_view(r) == doc_comment(attrs@, both_ends),
{
    let mut lines: Vec<String> = Vec::new();
    let mut i: usize = 0;
    while i < attrs.len()
        invariant
            i <= attrs@.len(),
            views(lines@) == doc_lines(attrs@.take(i as int), both_ends),
        decreases attrs@.len() - i,
    {
        let a = &attrs[i];
        proof {
            let t = attrs@.take(i + 1);
            assert(t.drop_last() =~= attrs@.take(i as int));
            assert(t.last() == *a);
        }
        match &a.args {
            AttrArgs::NameValue(Some(v)) => {
                if attr_is(a, "doc") {
                    let line = if both_ends {
                        trim(v.as_str())
                    } else {
                        trim_start(v.as_str())
                    };
                    let ghost before = views(lines@);
                    lines.push(line);
                    assert(views(lines@) =~= before.push(line@));
                }
            },
            _ => {},
        }
        i = i + 1;
    }
    assert(attrs@.take(attrs@.len() as int) =~= attrs@);
    if lines.len() == 0 {
        None
    } else {
        Some(crate::text::join_strings(&lines, " "))
    }
}

/// The value of the first `key = "value"` entry in the token text `s`.
pub open spec fn quoted_value(s: Seq<char>, key: Seq<char>) -> Option<Seq<char>> {
    let pat = key + " = \""@;
    match find_from(s, pat, 0) {
        Some(i) => match find_from(s, seq!['"'], i + pat.len()) {
            Some(j) => Some(s.subrange((i + pat.len()) as int, j as int)),
            None => None,
        },
        None => None,
    }
}

/// The strings of the first `tags = [...]` entry in the token text `s`.
pub open spec fn tags_array(s: Seq<char>) -> Seq<Seq<char>> {
    let pat = "tags = ["@;
    match find_from(s, pat, 0) {
        Some(i) => {
            let start = i + pat.len();
            let end = match find_from(s, seq![']'], start) {
                Some(j) => j,
                None => s.len(),
            };
            quoted_items(s.subrange(start as int, end as int))
        },
        None => Seq::empty(),
    }
}

/// The value of the first `key = "value"` entry in the token text `tokens`.
pub fn parse_quoted_value(tokens: &Vec<char>, key: &str) -> (r: Option<String>)
    ensures
        opt_view(r) == quoted_value(tokens@, key@),
{
    let mut pat_text = key.to_string();
    crate::text::push_str(&mut pat_text, " = \"");
    let pat = chars_of(pat_text.as_str());
    match find_seq(tokens, &pat, 0) {
        Some(i) => {
            let n = tokens.len();
            assert(i + pat@.len() <= n);
            let start = i + pat.len();
            match find_char(tokens, '"', start) {
                Some(j) => Some(string_of(tokens, start, j)),
                None => None,
            }
        },
        None => None,
    }
}

/// The strings of the first `tags = [...]` entry in the token text `tokens`.
pub fn parse_tags_array(tokens: &Vec<char>) -> (r: Vec<String>)
    ensures
        views(r@) == tags_array(tokens@),
{
    let pat = chars_of("tags = [");
    match find_seq(tokens, &pat, 0) {
        Some(i) => {
            let n = tokens.len();
            assert(i + pat@.len() <= n);
            let start = i + pat.len();
            let end = match find_char(tokens, ']', start) {
                Some(j) => j,
                None => tokens.len(),
            };
            collect_quoted(tokens, start, end)
        },
        None => {
            let r: Vec<String> = Vec::new();
            assert(views(r@) =~= Seq::<Seq<char>>::empty());
            r
        },
    }
}

/// What a handler attribute says besides its target: a description, tags
/// and a version.
#[derive(Debug, Clone, PartialEq, Eq)]
pub struct HandlerAttrs {
    pub description: Option<String>,
    pub tags: Vec<String>,
    pub version: Option<String>,
}

/// What a handler attribute says, as mathematical values.
pub ghost struct HandlerAttrsView {
    pub description: Option<Seq<char>>,
    pub tags: Seq<Seq<char>>,
    pub version: Option<Seq<char>>,
}

impl View for HandlerAttrs {
    type V = HandlerAttrsView;

    open spec fn view(&self) -> HandlerAttrsView {
        HandlerAttrsView {
            description: opt_view(self.description),
            tags: views(self.tags@),
            version: opt_view(self.version),
        }
    }
}

/// What `#[prompt]`, `#[prompt("description")]` or
/// `#[prompt(description = "...", tags = [...], version = "...")]` says.
pub open spec fn handler_attrs(args: AttrArgs) -> HandlerAttrsView {
    match args {
        AttrArgs::List(t) => match string_literal_value(t@) {
            Some(d) => HandlerAttrsView { description: Some(d), tags: Seq::empty(), version: None },
            None => HandlerAttrsView {
                description: quoted_value(t@, "description"@),
                tags: tags_array(t@),
                version: quoted_value(t@, "version"@),
            },
        },
        _ => HandlerAttrsView { description: None, tags: Seq::empty(), version: None },
    }
}

/// Reads the arguments of a handler attribute: a lone string literal is the
/// description; otherwise the `description`, `tags` and `version` entries.
pub fn parse_handler_attrs(attr: &AttrModel) -> (r: HandlerAttrs)
    ensures
        r@ == handler_attrs(attr.args),
{
    match &attr.args {
        AttrArgs::List(t) => match parse_string_literal(t.as_str()) {
            Some(d) => {
                let tags: Vec<String> = Vec::new();
                assert(views(tags@) =~= Seq::<Seq<char>>::empty());
                HandlerAttrs { description: Some(d), tags, version: None }
            },
            None => {
                let tokens = chars_of(t.as_str());
                HandlerAttrs {
                    description: parse_quoted_value(&tokens, "description"),
                    tags: parse_tags_array(&tokens),
                    version: parse_quoted_value(&tokens, "version"),
                }
            },
        },
        _ => {
            let tags: Vec<String> = Vec::new();
            assert(views(tags@) =~= Seq::<Seq<char>>::empty());
            HandlerAttrs { description: None, tags, version: None }
        },
    }
}

/// What a `#[resource(...)]` attribute says.
#[derive(Debug, Clone, PartialEq, Eq)]
pub struct ResourceAttrInfo {
    pub uri_template: String,
    pub mime_type: Option<String>,
    pub tags: Vec<String>,
    pub version: Option<String>,
}

/// What a `#[resource(...)]` attribute says, as mathematical values.
pub ghost struct ResourceAttrView {
    pub uri_template: Seq<char>,
    pub mime_type: Option<Seq<char>>,
    pub tags: Seq<Seq<char>>,
    pub version: Option<Seq<char>>,
}

impl View for ResourceAttrInfo {
    type V = ResourceAttrView;

    open spec fn view(&self) -> ResourceAttrView {
        ResourceAttrView {
            uri_template: self.uri_template@,
            mime_type: opt_view(self.mime_type),
            tags: views(self.tags@),
            version: opt_view(self.version),
        }
    }
}

/// The message for a `#[resource]` attribute without a URI template.
pub open spec fn resource_attr_message() -> Seq<char> {
    "Expected #[resource(\"uri://template\")] or #[resource(\"uri://template\", mime_type = \"text/plain\")]"@
}

/// What a `#[resource(...)]` attribute says: a lone string literal is the URI
/// template; a list with a comma or a bracket starts with the template (up to
/// the first comma, trimmed and unquoted) and may give `mime_type`, `tags`
/// and `version`; anything else says nothing.
pub open spec fn resource_attr(args: AttrArgs) -> Option<ResourceAttrView> {
    match args {
        AttrArgs::List(t) => match string_literal_value(t@) {
            Some(uri) => Some(
                ResourceAttrView {
                    uri_template: uri,
                    mime_type: None,
                    tags: Seq::empty(),
                    version: None,
                },
            ),
            None => if contains_seq(t@, seq![',']) || contains_seq(t@, seq!['[']) {
                let uri_end = match find_from(t@, seq![','], 0) {
                    Some(k) => k,
                    None => t@.len(),
                };
                Some(
                    ResourceAttrView {
                        uri_template: trim_quotes_seq(trim_seq(t@.subrange(0, uri_end as int))),
                        mime_type: quoted_value(t@, "mime_type"@),
                        tags: tags_array(t@),
                        version: quoted_value(t@, "version"@),
                    },
                )
            } else {
                None
            },
        },
        _ => None,
    }
}

/// Reads a `#[resource(...)]` attribute.
pub fn extract_resource_attrs(attr: &AttrModel) -> (r: Result<ResourceAttrInfo, MacroError>)
    ensures
        match resource_attr(attr.args) {
            Some(v) => r matches Ok(info) && info@ == v,
            None => r matches Err(e) && e.message@ == resource_attr_message(),
        },
{
    match &attr.args {
        AttrArgs::List(t) => {
            match parse_string_literal(t.as_str()) {
                Some(uri) => {
                    let tags: Vec<String> = Vec::new();
                    assert(views(tags@) =~= Seq::<Seq<char>>::empty());
                    return Ok(ResourceAttrInfo { uri_template: uri, mime_type: None, tags, version: None });
                },
                None => {},
            }
            let tokens = chars_of(t.as_str());
            let comma = find_char(&tokens, ',', 0);
            let bracket = find_char(&tokens, '[', 0);
            if comma.is_some() || bracket.is_some() {
                let uri_end = match comma {
                    Some(k) => k,
                    None => tokens.len(),
                };
                let head = string_of(&tokens, 0, uri_end);
                let trimmed = trim(head.as_str());
                let uri = trim_quotes(trimmed.as_str());
                return Ok(
                    ResourceAttrInfo {
                        uri_template: uri,
                        mime_type: parse_quoted_value(&tokens, "mime_type"),
                        tags: parse_tags_array(&tokens),
                        version: parse_quoted_value(&tokens, "version"),
                    },
                );
            }
        },
        _ => {},
    }
    Err(
        MacroError {
            message: "Expected #[resource(\"uri://template\")] or #[resource(\"uri://template\", mime_type = \"text/plain\")]".to_string(),
        },
    )
}

} // verus!
