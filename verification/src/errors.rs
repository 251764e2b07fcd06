//! Error taxonomy of the document pipeline.  Every failure is returned to
//! the caller as a typed error; the core never recovers or retries.

use vstd::prelude::*;

verus! {

/// Why frontmatter decoding failed.
#[derive(Debug, Clone, PartialEq, Eq)]
pub enum DecodeError {
    /// The frontmatter text is not valid YAML; carries the parser's message.
    Syntax(String),
    /// The frontmatter is valid YAML but not a mapping.
    NotMapping,
    /// A required field is absent; carries the field name.
    MissingField(String),
    /// A field holds a value of the wrong shape; carries the field name.
    WrongType(String),
}

/// The mathematical value of a [`DecodeError`].
pub enum DecodeErrorV {
    /// See [`DecodeError::Syntax`].
    Syntax(Seq<char>),
    /// See [`DecodeError::NotMapping`].
    NotMapping,
    /// See [`DecodeError::MissingField`].
    MissingField(Seq<char>),
    /// See [`DecodeError::WrongType`].
    WrongType(Seq<char>),
}

impl View for DecodeError {
    type V = DecodeErrorV;

    open spec fn view(&self) -> DecodeErrorV {
        match self {
            DecodeError::Syntax(m) => DecodeErrorV::Syntax(m@),
            DecodeError::NotMapping => DecodeErrorV::NotMapping,
            DecodeError::MissingField(f) => DecodeErrorV::MissingField(f@),
            DecodeError::WrongType(f) => DecodeErrorV::WrongType(f@),
        }
    }
}

/// Why frontmatter extraction failed.
#[derive(Debug, Clone, PartialEq, Eq)]
pub enum ExtractError {
    /// The parsed document's root was not the expected root node.
    InvalidDocument,
    /// The document has no leading frontmatter block.
    MissingFrontmatter,
    /// The frontmatter block would not decode into the schema.
    Decode(DecodeError),
}

/// The mathematical value of an [`ExtractError`].
pub enum ExtractErrorV {
    /// See [`ExtractError::InvalidDocument`].
    InvalidDocument,
    /// See [`ExtractError::MissingFrontmatter`].
    MissingFrontmatter,
    /// See [`ExtractError::Decode`].
    Decode(DecodeErrorV),
}

impl View for ExtractError {
    type V = ExtractErrorV;

    open spec fn view(&self) -> ExtractErrorV {
        match self {
            ExtractError::InvalidDocument => ExtractErrorV::InvalidDocument,
            ExtractError::MissingFrontmatter => ExtractErrorV::MissingFrontmatter,
            ExtractError::Decode(d) => ExtractErrorV::Decode(d@),
        }
    }
}

/// Why rendering a document's content failed.
#[derive(Debug, Clone, PartialEq, Eq, Structural)]
pub enum RenderError {
    /// The Markdown engine could not convert the content.
    RenderFailure,
    /// Rendering was requested for content that is already HTML.
    AlreadyRendered,
}

} // verus!
