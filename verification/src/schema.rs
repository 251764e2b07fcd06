//! The frontmatter schemas of the site's listing pages, and the metadata
//! their callers attach.  Each schema decodes from a YAML mapping by the
//! relation its `FromYaml` implementation states.

use vstd::prelude::*;

use crate::errors::{DecodeError, DecodeErrorV};
use crate::frontmatter::FromYaml;
use crate::links::{opt_links, spec_opt_links, LinkV, Links};
use crate::listing::Dated;
use crate::yaml::{
    opt_string, req_string, spec_opt_string, spec_req_string, YamlDoc, YamlDocV,
};

verus! {

/// Metadata about a project: the URL slug derived from the file name.
#[derive(Debug, Clone, PartialEq, Eq)]
pub struct ProjectMetadata {
    /// The slug the project page is routed by.
    pub slug: String,
}

/// Frontmatter of the `.md` files used to generate the project posts.
#[derive(Debug, Clone, PartialEq, Eq)]
pub struct ProjectFrontmatter {
    /// The project's name.
    pub name: String,
    /// A short description.
    pub description: String,
    /// Creation date, also the listing sort key.
    pub created_at: String,
    /// Last update date, if any.
    pub updated_at: Option<String>,
    /// External links, if any.
    pub links: Option<Links>,
}

/// The mathematical value of a [`ProjectFrontmatter`].
pub struct ProjectFrontmatterV {
    /// See [`ProjectFrontmatter::name`].
    pub name: Seq<char>,
    /// See [`ProjectFrontmatter::description`].
    pub description: Seq<char>,
    /// See [`ProjectFrontmatter::created_at`].
    pub created_at: Seq<char>,
    /// See [`ProjectFrontmatter::updated_at`].
    pub updated_at: Option<Seq<char>>,
    /// See [`ProjectFrontmatter::links`].
    pub links: Option<Seq<LinkV>>,
}

impl View for ProjectFrontmatter {
    type V = ProjectFrontmatterV;

    open spec fn view(&self) -> ProjectFrontmatterV {
        ProjectFrontmatterV {
            name: self.name@,
            description: self.description@,
            created_at: self.created_at@,
            updated_at: match self.updated_at {
                Some(s) => Some(s@),
                None => None,
            },
            links: match self.links {
                Some(l) => Some(l@),
                None => None,
            },
        }
    }
}

/// The decoding relation of a project's frontmatter: required strings
/// `name`, `description` and `created_at`, an optional string
/// `updated_at`, and an optional `links` mapping; fields are checked in
/// that order and the first failure is the error.
pub open spec fn spec_project_frontmatter(doc: YamlDocV) -> Result<
    ProjectFrontmatterV,
    DecodeErrorV,
> {
    match doc {
        YamlDocV::Mapping(es) => match spec_req_string(es, "name"@) {
            Err(e) => Err(e),
            Ok(name) => match spec_req_string(es, "description"@) {
                Err(e) => Err(e),
                Ok(description) => match spec_req_string(es, "created_at"@) {
                    Err(e) => Err(e),
                    Ok(created_at) => match spec_opt_string(es, "updated_at"@) {
                        Err(e) => Err(e),
                        Ok(updated_at) => match spec_opt_links(es, "links"@) {
                            Err(e) => Err(e),
                            Ok(links) => Ok(
                                ProjectFrontmatterV {
                                    name,
                                    description,
                                    created_at,
                                    updated_at,
                                    links,
                                },
                            ),
                        },
                    },
                },
            },
        },
        YamlDocV::Other => Err(DecodeErrorV::NotMapping),
    }
}

impl FromYaml for ProjectFrontmatter {
    open spec fn spec_from_yaml(doc: YamlDocV) -> Result<ProjectFrontmatterV, DecodeErrorV> {
        spec_project_frontmatter(doc)
    }

    fn from_yaml(doc: &YamlDoc) -> (r: Result<Self, DecodeError>) {
        match doc {
            YamlDoc::Mapping(es) => {
                let name = match req_string(es, "name") {
                    Ok(v) => v,
                    Err(e) => {
                        return Err(e);
                    },
                };
                let description = match req_string(es, "description") {
                    Ok(v) => v,
                    Err(e) => {
                        return Err(e);
                    },
                };
                let created_at = match req_string(es, "created_at") {
                    Ok(v) => v,
                    Err(e) => {
                        return Err(e);
                    },
                };
                let updated_at = match opt_string(es, "updated_at") {
                    Ok(v) => v,
                    Err(e) => {
                        return Err(e);
                    },
                };
                let links = match opt_links(es, "links") {
                    Ok(v) => v,
                    Err(e) => {
                        return Err(e);
                    },
                };
                Ok(ProjectFrontmatter { name, description, created_at, updated_at, links })
            },
            YamlDoc::Other => Err(DecodeError::NotMapping),
        }
    }
}

impl Dated for ProjectFrontmatter {
    open spec fn date_key(&self) -> Seq<char> {
        self.created_at@
    }

    fn created_at(&self) -> (r: &str) {
        self.created_at.as_str()
    }
}

/// Frontmatter of the `.md` files used to generate the wishlist posts.
#[derive(Debug, Clone, PartialEq, Eq)]
pub struct WishlistFrontmatter {
    /// The entry's name.
    pub name: String,
    /// Creation date, also the listing sort key.
    pub created_at: String,
    /// Last update date, if any.
    pub updated_at: Option<String>,
}

/// The mathematical value of a [`WishlistFrontmatter`].
pub struct WishlistFrontmatterV {
    /// See [`WishlistFrontmatter::name`].
    pub name: Seq<char>,
    /// See [`WishlistFrontmatter::created_at`].
    pub created_at: Seq<char>,
    /// See [`WishlistFrontmatter::updated_at`].
    pub updated_at: Option<Seq<char>>,
}

impl View for WishlistFrontmatter {
    type V = WishlistFrontmatterV;

    open spec fn view(&self) -> WishlistFrontmatterV {
        WishlistFrontmatterV {
            name: self.name@,
            created_at: self.created_at@,
            updated_at: match self.updated_at {
                Some(s) => Some(s@),
                None => None,
            },
        }
    }
}

/// The decoding relation of a wishlist entry's frontmatter: required
/// strings `name` and `created_at` and an optional string `updated_at`,
/// checked in that order.
pub open spec fn spec_wishlist_frontmatter(doc: YamlDocV) -> Result<
    WishlistFrontmatterV,
    DecodeErrorV,
> {
    match doc {
        YamlDocV::Mapping(es) => match spec_req_string(es, "name"@) {
            Err(e) => Err(e),
            Ok(name) => match spec_req_string(es, "created_at"@) {
                Err(e) => Err(e),
                Ok(created_at) => match spec_opt_string(es, "updated_at"@) {
                    Err(e) => Err(e),
                    Ok(updated_at) => Ok(WishlistFrontmatterV { name, created_at, updated_at }),
                },
            },
        },
        YamlDocV::Other => Err(DecodeErrorV::NotMapping),
    }
}

impl FromYaml for WishlistFrontmatter {
    open spec fn spec_from_yaml(doc: YamlDocV) -> Result<WishlistFrontmatterV, DecodeErrorV> {
        spec_wishlist_frontmatter(doc)
    }

    fn from_yaml(doc: &YamlDoc) -> (r: Result<Self, DecodeError>) {
        match doc {
            YamlDoc::Mapping(es) => {
                let name = match req_string(es, "name") {
                    Ok(v) => v,
                    Err(e) => {
                        return Err(e);
                    },
                };
                let created_at = match req_string(es, "created_at") {
                    Ok(v) => v,
                    Err(e) => {
                        return Err(e);
                    },
                };
                let updated_at = match opt_string(es, "updated_at") {
                    Ok(v) => v,
                    Err(e) => {
                        return Err(e);
                    },
                };
                Ok(WishlistFrontmatter { name, created_at, updated_at })
            },
            YamlDoc::Other => Err(DecodeError::NotMapping),
        }
    }
}

impl Dated for WishlistFrontmatter {
    open spec fn date_key(&self) -> Seq<char> {
        self.created_at@
    }

    fn created_at(&self) -> (r: &str) {
        self.created_at.as_str()
    }
}

} // verus!
