//! Frontmatter extraction: locate the YAML block that leads a Markdown
//! document and decode it into a caller-supplied schema.
//!
//! The position of the block is fixed: the parsed document's root must be
//! a root node and its first child must be the frontmatter node.  Nothing
//! is searched for, and extraction is all-or-nothing.

use vstd::prelude::*;

use crate::errors::{DecodeError, DecodeErrorV, ExtractError, ExtractErrorV};
use crate::yaml::{parse_yaml, yaml_doc_of, YamlDoc, YamlDocV};

verus! {

/// What the Markdown engine found at the head of a document.
pub(crate) enum DocShape {
    /// The parse did not produce a root node.
    Invalid,
    /// A root node whose first child is not a frontmatter block.
    NoFrontmatter,
    /// A root node led by a frontmatter block with this raw YAML text.
    Frontmatter(String),
}

/// What the Markdown engine finds at the head of document text `s`:
/// `None` when the parse yields no root node, `Some(None)` when the root's
/// first child is not a frontmatter block, and `Some(Some(y))` when it is
/// one with raw YAML text `y`.  The result depends on the text alone.
pub uninterp spec fn md_frontmatter(s: Seq<char>) -> Option<Option<Seq<char>>>;

/// Relies on markdown::to_mdast with the frontmatter construct enabled:
/// parses the text into a syntax tree, deterministically in the text.
/// Only the root's first child is kept; the rest of the tree is dropped.
#[verifier::external_body]
pub(crate) fn parse_shape(s: &str) -> (r: DocShape)
    ensures
        match r {
            DocShape::Invalid => md_frontmatter(s@) is None,
            DocShape::NoFrontmatter => md_frontmatter(s@) == Some(None::<Seq<char>>),
            DocShape::Frontmatter(y) => md_frontmatter(s@) == Some(Some(y@)),
        },
{
    let options = markdown::ParseOptions {
        constructs: markdown::Constructs { frontmatter: true, ..markdown::Constructs::default() },
        ..markdown::ParseOptions::default()
    };
    match markdown::to_mdast(s, &options) {
        Ok(markdown::mdast::Node::Root(root)) => match root.children.into_iter().next() {
            Some(markdown::mdast::Node::Yaml(y)) => DocShape::Frontmatter(y.value),
            Some(_) => DocShape::NoFrontmatter,
            None => DocShape::NoFrontmatter,
        },
        _ => DocShape::Invalid,
    }
}

/// A frontmatter schema: a type decodable from a YAML mapping.
pub trait FromYaml: View + Sized {
    /// The decoding relation: the model a parsed document decodes to, or
    /// why it does not.
    spec fn spec_from_yaml(doc: YamlDocV) -> Result<Self::V, DecodeErrorV>;

    /// Decode a parsed YAML document into the schema.
    fn from_yaml(doc: &YamlDoc) -> (r: Result<Self, DecodeError>)
        ensures
            match r {
                Ok(f) => Self::spec_from_yaml(doc@) == Ok::<Self::V, DecodeErrorV>(f@),
                Err(e) => Self::spec_from_yaml(doc@) == Err::<Self::V, DecodeErrorV>(e@),
            },
    ;
}

/// Whether `r` is the outcome extraction owes for document text `t`.
///
/// A document without a root node is invalid; one whose first child is
/// not a frontmatter block has no frontmatter; otherwise the block's YAML
/// text decides: unparseable YAML is a syntax failure, and a parsed
/// document decodes by the schema's own relation.
pub open spec fn extract_outcome<F: FromYaml>(t: Seq<char>, r: Result<F, ExtractError>) -> bool {
    match md_frontmatter(t) {
        Option::None => r matches Err(e) && e@ == ExtractErrorV::InvalidDocument,
        Option::Some(fm) => match fm {
            Option::None => r matches Err(e) && e@ == ExtractErrorV::MissingFrontmatter,
            Option::Some(y) => match yaml_doc_of(y) {
                Option::None => r matches Err(e) && e@ matches ExtractErrorV::Decode(d) && (
                d matches DecodeErrorV::Syntax(_)),
                Option::Some(d) => match F::spec_from_yaml(d) {
                    Ok(fv) => r matches Ok(f) && f@ == fv,
                    Err(ev) => r matches Err(e) && e@ == ExtractErrorV::Decode(ev),
                },
            },
        },
    }
}

/// Extract the leading frontmatter block of `text` and decode it into `F`.
pub fn extract<F: FromYaml>(text: &str) -> (r: Result<F, ExtractError>)
    ensures
        extract_outcome::<F>(text@, r),
{
    match parse_shape(text) {
        DocShape::Invalid => Err(ExtractError::InvalidDocument),
        DocShape::NoFrontmatter => Err(ExtractError::MissingFrontmatter),
        DocShape::Frontmatter(y) => match parse_yaml(y.as_str()) {
            Err(msg) => Err(ExtractError::Decode(DecodeError::Syntax(msg))),
            Ok(doc) => match F::from_yaml(&doc) {
                Ok(f) => Ok(f),
                Err(e) => Err(ExtractError::Decode(e)),
            },
        },
    }
}

} // verus!
