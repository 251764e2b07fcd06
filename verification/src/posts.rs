//! Generic post type.
//!
//! This can then be used to generate different types of posts (e.g.
//! projects, wishlist entries).  A post owns its lifecycle: it is built
//! from a file's text, its frontmatter is decoded once, and its content
//! moves from raw Markdown to rendered HTML exactly once.

use vstd::prelude::*;
use vstd::string::StringExecFns;

use crate::errors::{ExtractError, RenderError};
use crate::frontmatter::{extract, extract_outcome, FromYaml};
use crate::render::{html_of, replace_anchors, rewrite_anchors, to_html};

verus! {

/// The content of a post: exactly one of raw Markdown or rendered HTML.
///
/// The tagged form makes "treated as HTML while still Markdown"
/// unrepresentable; the only transition is [`Post::parse_content`].
#[derive(Debug, Clone, PartialEq, Eq)]
pub enum Content {
    /// Raw Markdown text, the state of a freshly loaded post.
    Markdown(String),
    /// Rendered HTML text.
    Html(String),
}

/// The text a content value carries, whichever form it is in.
pub open spec fn content_text(c: Content) -> Seq<char> {
    match c {
        Content::Markdown(s) => s@,
        Content::Html(s) => s@,
    }
}

impl Content {
    /// Is the content rendered HTML?
    pub fn is_html(&self) -> (r: bool)
        ensures
            r == (self matches Content::Html(_)),
    {
        match self {
            Content::Html(_) => true,
            Content::Markdown(_) => false,
        }
    }

    /// Is the content raw Markdown?
    pub fn is_markdown(&self) -> (r: bool)
        ensures
            r == (self matches Content::Markdown(_)),
    {
        match self {
            Content::Markdown(_) => true,
            Content::Html(_) => false,
        }
    }

    /// The underlying text.
    pub fn text(&self) -> (r: &String)
        ensures
            r@ == content_text(*self),
    {
        match self {
            Content::Markdown(s) => s,
            Content::Html(s) => s,
        }
    }
}

/// A post with some generic frontmatter and parsed markdown content.
#[derive(Debug, Clone)]
pub struct Post<Frontmatter, Metadata> {
    /// Frontmatter decoded from the markdown file, immutable after load.
    pub frontmatter: Frontmatter,
    /// The content of the post.  A fresh post holds `Markdown`.
    pub content: Content,
    /// Additional metadata supplied by the caller, never parsed from the
    /// document body (e.g. a URL slug derived from the file name).
    pub metadata: Metadata,
}

impl<F: FromYaml> Post<F, ()> {
    /// Create a new post from the text of a file, without metadata.
    pub fn from_file(text: &str) -> (r: Result<Post<F, ()>, ExtractError>)
        ensures
            match r {
                Ok(p) => {
                    &&& extract_outcome::<F>(text@, Ok(p.frontmatter))
                    &&& p.content matches Content::Markdown(c) && c@ == text@
                },
                Err(e) => extract_outcome::<F>(text@, Err::<F, ExtractError>(e)),
            },
    {
        Self::from_file_with_metadata(text, ())
    }
}

impl<F: FromYaml, M> Post<F, M> {
    /// Create a new post from the text of a file and metadata.
    ///
    /// The *entire* text, frontmatter block included, is retained as the
    /// Markdown body; the renderer treats the block as inert.
    pub fn from_file_with_metadata(text: &str, metadata: M) -> (r: Result<Post<F, M>, ExtractError>)
        ensures
            match r {
                Ok(p) => {
                    &&& extract_outcome::<F>(text@, Ok(p.frontmatter))
                    &&& p.content matches Content::Markdown(c) && c@ == text@
                    &&& p.metadata == metadata
                },
                Err(e) => extract_outcome::<F>(text@, Err::<F, ExtractError>(e)),
            },
    {
        let frontmatter = match extract::<F>(text) {
            Ok(f) => f,
            Err(e) => {
                return Err(e);
            },
        };
        Ok(
            Post {
                frontmatter,
                content: Content::Markdown(String::from_str(text)),
                metadata,
            },
        )
    }
}

impl<F, M> Post<F, M> {
    /// Parse the Markdown content within the post into HTML.
    ///
    /// This replaces the `Markdown` variant with the `Html` variant,
    /// anchors rewritten; content that is already HTML is a caller error,
    /// not a no-op, and the post is left unchanged on any failure.
    pub fn parse_content(&mut self) -> (r: Result<(), RenderError>)
        ensures
            match old(self).content {
                Content::Markdown(m) => match html_of(m@) {
                    Some(h) => {
                        &&& r is Ok
                        &&& final(self).content matches Content::Html(o) && o@ == rewrite_anchors(
                            h,
                        )
                        &&& final(self).frontmatter == old(self).frontmatter
                        &&& final(self).metadata == old(self).metadata
                    },
                    None => r == Err::<(), RenderError>(RenderError::RenderFailure) && *final(self) == *old(self),
                },
                Content::Html(_) => r == Err::<(), RenderError>(RenderError::AlreadyRendered)
                    && *final(self) == *old(self),
            },
    {
        let rendered: Option<Option<String>> = match &self.content {
            Content::Markdown(m) => Some(to_html(m.as_str())),
            Content::Html(_) => None,
        };
        match rendered {
            None => Err(RenderError::AlreadyRendered),
            Some(None) => Err(RenderError::RenderFailure),
            Some(Some(h)) => {
                let out = replace_anchors(h.as_str());
                self.content = Content::Html(out);
                Ok(())
            },
        }
    }
}

} // verus!
