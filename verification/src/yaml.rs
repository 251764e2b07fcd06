//! The shape of a parsed frontmatter block, as the schemas see it.
//!
//! The frontmatter schemas of this site read only strings, nulls, and one
//! level of string-to-string mappings (the `links` field), so a parsed
//! YAML document is modelled as exactly that and everything else is
//! collapsed to `Other`, which every schema rejects.  The YAML engine
//! itself is outside the library; [`parse_yaml`] trusts it.

use vstd::prelude::*;
use vstd::string::StringExecFns;

use crate::errors::{DecodeError, DecodeErrorV};
use crate::text::str_eq;

verus! {

/// A YAML scalar: a string, null, or some other value the schemas reject.
#[derive(Debug, Clone, PartialEq, Eq)]
pub enum YamlScalar {
    /// A string scalar.
    Str(String),
    /// The null value.
    Null,
    /// Any other scalar or nested structure.
    Other,
}

/// The value of one top-level frontmatter field.
#[derive(Debug, Clone, PartialEq, Eq)]
pub enum YamlValue {
    /// A string scalar.
    Str(String),
    /// A mapping of scalars, the shape of a `links` field.
    Mapping(Vec<(YamlScalar, YamlScalar)>),
    /// The null value.
    Null,
    /// Any other value.
    Other,
}

/// A whole parsed frontmatter block.
#[derive(Debug, Clone, PartialEq, Eq)]
pub enum YamlDoc {
    /// A mapping from keys to field values, in document order.
    Mapping(Vec<(YamlScalar, YamlValue)>),
    /// Any non-mapping document.
    Other,
}

/// The mathematical value of a [`YamlScalar`].
pub enum YamlScalarV {
    /// See [`YamlScalar::Str`].
    Str(Seq<char>),
    /// See [`YamlScalar::Null`].
    Null,
    /// See [`YamlScalar::Other`].
    Other,
}

/// The mathematical value of a [`YamlValue`].
pub enum YamlValueV {
    /// See [`YamlValue::Str`].
    Str(Seq<char>),
    /// See [`YamlValue::Mapping`].
    Mapping(Seq<(YamlScalarV, YamlScalarV)>),
    /// See [`YamlValue::Null`].
    Null,
    /// See [`YamlValue::Other`].
    Other,
}

/// The mathematical value of a [`YamlDoc`].
pub enum YamlDocV {
    /// See [`YamlDoc::Mapping`].
    Mapping(Seq<(YamlScalarV, YamlValueV)>),
    /// See [`YamlDoc::Other`].
    Other,
}

impl View for YamlScalar {
    type V = YamlScalarV;

    open spec fn view(&self) -> YamlScalarV {
        match self {
            YamlScalar::Str(s) => YamlScalarV::Str(s@),
            YamlScalar::Null => YamlScalarV::Null,
            YamlScalar::Other => YamlScalarV::Other,
        }
    }
}

/// The views of a sequence of scalar pairs.
pub open spec fn pairs_view(ps: Seq<(YamlScalar, YamlScalar)>) -> Seq<(YamlScalarV, YamlScalarV)> {
    ps.map_values(|p: (YamlScalar, YamlScalar)| (p.0@, p.1@))
}

impl View for YamlValue {
    type V = YamlValueV;

    open spec fn view(&self) -> YamlValueV {
        match self {
            YamlValue::Str(s) => YamlValueV::Str(s@),
            YamlValue::Mapping(ps) => YamlValueV::Mapping(pairs_view(ps@)),
            YamlValue::Null => YamlValueV::Null,
            YamlValue::Other => YamlValueV::Other,
        }
    }
}

/// The views of a sequence of top-level entries.
pub open spec fn entries_view(es: Seq<(YamlScalar, YamlValue)>) -> Seq<(YamlScalarV, YamlValueV)> {
    es.map_values(|p: (YamlScalar, YamlValue)| (p.0@, p.1@))
}

impl View for YamlDoc {
    type V = YamlDocV;

    open spec fn view(&self) -> YamlDocV {
        match self {
            YamlDoc::Mapping(es) => YamlDocV::Mapping(entries_view(es@)),
            YamlDoc::Other => YamlDocV::Other,
        }
    }
}

#[verifier::external_type_specification]
#[verifier::external_body]
pub struct ExYamlValue(serde_yaml::Value);

/// What the YAML engine makes of a text: the parsed document in the
/// library's shape, or nothing when the text is not valid YAML.  The
/// result depends on the text alone.
pub uninterp spec fn yaml_doc_of(s: Seq<char>) -> Option<YamlDocV>;

/// Relies on serde_yaml::Value's variants: a string or null stays itself;
/// every other scalar or structure becomes `Other`.
#[verifier::external_body]
fn yaml_scalar_of(v: serde_yaml::Value) -> YamlScalar {
    match v {
        serde_yaml::Value::String(s) => YamlScalar::Str(s),
        serde_yaml::Value::Null => YamlScalar::Null,
        _ => YamlScalar::Other,
    }
}

/// Relies on serde_yaml::Value's variants: a string or null stays itself,
/// a mapping becomes its scalar pairs in document order, and everything
/// else becomes `Other`.
#[verifier::external_body]
fn yaml_value_of(v: serde_yaml::Value) -> YamlValue {
    match v {
        serde_yaml::Value::String(s) => YamlValue::Str(s),
        serde_yaml::Value::Null => YamlValue::Null,
        serde_yaml::Value::Mapping(m) => {
            let mut pairs = Vec::new();
            for (k, w) in m {
                pairs.push((yaml_scalar_of(k), yaml_scalar_of(w)));
            }
            YamlValue::Mapping(pairs)
        }
        _ => YamlValue::Other,
    }
}

/// Relies on serde_yaml::from_str::<serde_yaml::Value>: parses YAML text
/// into its value tree, deterministically in the text, keeping mapping
/// entries in document order; `Err` carries the parser's message.
#[verifier::external_body]
pub(crate) fn parse_yaml(s: &str) -> (r: Result<YamlDoc, String>)
    ensures
        match r {
            Ok(d) => yaml_doc_of(s@) == Some(d@),
            Err(_) => yaml_doc_of(s@) is None,
        },
{
    match serde_yaml::from_str::<serde_yaml::Value>(s) {
        Ok(serde_yaml::Value::Mapping(m)) => {
            let mut entries = Vec::new();
            for (k, v) in m {
                entries.push((yaml_scalar_of(k), yaml_value_of(v)));
            }
            Ok(YamlDoc::Mapping(entries))
        }
        Ok(_) => Ok(YamlDoc::Other),
        Err(e) => Err(e.to_string()),
    }
}

/// The first value bound to `key` among the entries, scanning in order.
pub open spec fn spec_lookup(
    es: Seq<(YamlScalarV, YamlValueV)>,
    key: Seq<char>,
) -> Option<YamlValueV>
    decreases es.len(),
{
    if es.len() == 0 {
        None
    } else if es[0].0 matches YamlScalarV::Str(k) && k == key {
        Some(es[0].1)
    } else {
        spec_lookup(es.drop_first(), key)
    }
}

/// Find the first entry whose key is the string `key`.
pub fn lookup<'a>(entries: &'a Vec<(YamlScalar, YamlValue)>, key: &str) -> (r: Option<
    &'a YamlValue,
>)
    ensures
        match r {
            Some(v) => spec_lookup(entries_view(entries@), key@) == Some(v@),
            None => spec_lookup(entries_view(entries@), key@) is None,
        },
{
    let ghost ev = entries_view(entries@);
    proof {
        assert(ev.skip(0) =~= ev);
    }
    let mut i: usize = 0;
    while i < entries.len()
        invariant
            i <= entries@.len(),
            ev == entries_view(entries@),
            ev.len() == entries@.len(),
            spec_lookup(ev, key@) == spec_lookup(ev.skip(i as int), key@),
        decreases entries@.len() - i,
    {
        let hit = match &entries[i].0 {
            YamlScalar::Str(k) => str_eq(k.as_str(), key),
            _ => false,
        };
        proof {
            assert(ev[i as int] == (entries@[i as int].0@, entries@[i as int].1@));
            assert(ev.skip(i as int)[0] == ev[i as int]);
        }
        if hit {
            return Some(&entries[i].1);
        }
        proof {
            assert(ev.skip(i as int).drop_first() =~= ev.skip(i as int + 1));
        }
        i = i + 1;
    }
    proof {
        assert(ev.skip(i as int).len() == 0);
    }
    None
}

/// What decoding owes for a required string field.
pub open spec fn spec_req_string(es: Seq<(YamlScalarV, YamlValueV)>, key: Seq<char>) -> Result<
    Seq<char>,
    DecodeErrorV,
> {
    match spec_lookup(es, key) {
        Option::None => Err(DecodeErrorV::MissingField(key)),
        Option::Some(v) => match v {
            YamlValueV::Str(s) => Ok(s),
            _ => Err(DecodeErrorV::WrongType(key)),
        },
    }
}

/// Decode a required string field.
pub fn req_string(entries: &Vec<(YamlScalar, YamlValue)>, key: &str) -> (r: Result<
    String,
    DecodeError,
>)
    ensures
        match r {
            Ok(s) => spec_req_string(entries_view(entries@), key@) == Ok::<
                Seq<char>,
                DecodeErrorV,
            >(s@),
            Err(e) => spec_req_string(entries_view(entries@), key@) == Err::<
                Seq<char>,
                DecodeErrorV,
            >(e@),
        },
{
    match lookup(entries, key) {
        Option::None => Err(DecodeError::MissingField(String::from_str(key))),
        Option::Some(v) => match v {
            YamlValue::Str(s) => Ok(s.clone()),
            _ => Err(DecodeError::WrongType(String::from_str(key))),
        },
    }
}

/// What decoding owes for an optional string field: an absent key or a
/// null value is `None`; a non-string, non-null value is rejected.
pub open spec fn spec_opt_string(es: Seq<(YamlScalarV, YamlValueV)>, key: Seq<char>) -> Result<
    Option<Seq<char>>,
    DecodeErrorV,
> {
    match spec_lookup(es, key) {
        Option::None => Ok(None),
        Option::Some(v) => match v {
            YamlValueV::Str(s) => Ok(Some(s)),
            YamlValueV::Null => Ok(None),
            _ => Err(DecodeErrorV::WrongType(key)),
        },
    }
}

/// Decode an optional string field.
pub fn opt_string(entries: &Vec<(YamlScalar, YamlValue)>, key: &str) -> (r: Result<
    Option<String>,
    DecodeError,
>)
    ensures
        match r {
            Ok(s) => spec_opt_string(entries_view(entries@), key@) == Ok::<
                Option<Seq<char>>,
                DecodeErrorV,
            >(
                match s {
                    Some(t) => Some(t@),
                    None => None,
                },
            ),
            Err(e) => spec_opt_string(entries_view(entries@), key@) == Err::<
                Option<Seq<char>>,
                DecodeErrorV,
            >(e@),
        },
{
    match lookup(entries, key) {
        Option::None => Ok(None),
        Option::Some(v) => match v {
            YamlValue::Str(s) => Ok(Some(s.clone())),
            YamlValue::Null => Ok(None),
            _ => Err(DecodeError::WrongType(String::from_str(key))),
        },
    }
}

} // verus!
