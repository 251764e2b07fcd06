//! External links of a project.
//!
//! A links mapping in frontmatter decodes entry by entry: the key
//! `GitHub` makes a [`Link::GitHub`], any other key a [`Link::Other`];
//! the collection is then sorted into the canonical order, so its display
//! order is deterministic.

use vstd::multiset::Multiset;
use vstd::prelude::*;
use vstd::string::StringExecFns;

use crate::errors::{DecodeError, DecodeErrorV};
use crate::text::{
    chars_le, chars_lt, lemma_chars_le_antisymmetric, lemma_chars_le_connected,
    lemma_chars_le_transitive, lemma_chars_lt_asymmetric, lemma_chars_lt_irreflexive,
    lemma_chars_lt_transitive, lemma_chars_lt_trichotomy, str_eq, str_le, str_lt,
};
use crate::yaml::{entries_view, lookup, pairs_view, spec_lookup, YamlScalar, YamlScalarV,
    YamlValue, YamlValueV};

verus! {

/// An external link for a project.
///
/// Specific links get their own variant so they can be handled
/// differently when displayed.
#[derive(Debug, Clone, PartialEq, Eq, PartialOrd, Ord)]
pub enum Link {
    /// A link to a GitHub repository.
    GitHub(String),
    /// A link to a website with the title (left) and the URL (right).
    Other(String, String),
}

/// The mathematical value of a [`Link`].
pub enum LinkV {
    /// See [`Link::GitHub`].
    GitHub(Seq<char>),
    /// See [`Link::Other`].
    Other(Seq<char>, Seq<char>),
}

impl View for Link {
    type V = LinkV;

    open spec fn view(&self) -> LinkV {
        match self {
            Link::GitHub(u) => LinkV::GitHub(u@),
            Link::Other(t, u) => LinkV::Other(t@, u@),
        }
    }
}

/// The views of a sequence of links.
pub open spec fn links_view(s: Seq<Link>) -> Seq<LinkV> {
    s.map_values(|l: Link| l@)
}

/// The canonical order on links: GitHub links first, ordered by URL, then
/// all other links ordered by title and then URL.
pub open spec fn link_le(a: LinkV, b: LinkV) -> bool {
    match (a, b) {
        (LinkV::GitHub(x), LinkV::GitHub(y)) => chars_le(x, y),
        (LinkV::GitHub(_), LinkV::Other(_, _)) => true,
        (LinkV::Other(_, _), LinkV::GitHub(_)) => false,
        (LinkV::Other(t1, u1), LinkV::Other(t2, u2)) => chars_lt(t1, t2) || (t1 == t2 && chars_le(
            u1,
            u2,
        )),
    }
}

/// The canonical order as a relation value.
pub open spec fn link_le_fn() -> spec_fn(LinkV, LinkV) -> bool {
    |a: LinkV, b: LinkV| link_le(a, b)
}

/// Sorted non-decreasingly by the canonical order.
pub open spec fn links_sorted(s: Seq<LinkV>) -> bool {
    vstd::relations::sorted_by(s, link_le_fn())
}

/// The canonical order is antisymmetric.
pub proof fn lemma_link_le_antisymmetric(a: LinkV, b: LinkV)
    requires
        link_le(a, b),
        link_le(b, a),
    ensures
        a == b,
{
    match (a, b) {
        (LinkV::GitHub(x), LinkV::GitHub(y)) => {
            lemma_chars_le_antisymmetric(x, y);
        },
        (LinkV::Other(t1, u1), LinkV::Other(t2, u2)) => {
            lemma_chars_lt_irreflexive(t1);
            if chars_lt(t1, t2) {
                lemma_chars_lt_asymmetric(t1, t2);
            } else {
                lemma_chars_le_antisymmetric(u1, u2);
            }
        },
        _ => {},
    }
}

/// The canonical order is transitive.
pub proof fn lemma_link_le_transitive(a: LinkV, b: LinkV, c: LinkV)
    requires
        link_le(a, b),
        link_le(b, c),
    ensures
        link_le(a, c),
{
    match (a, b, c) {
        (LinkV::GitHub(x), LinkV::GitHub(y), LinkV::GitHub(z)) => {
            lemma_chars_le_transitive(x, y, z);
        },
        (LinkV::Other(t1, u1), LinkV::Other(t2, u2), LinkV::Other(t3, u3)) => {
            lemma_chars_lt_irreflexive(t1);
            lemma_chars_lt_irreflexive(t2);
            if chars_lt(t1, t2) && chars_lt(t2, t3) {
                lemma_chars_lt_transitive(t1, t2, t3);
            }
            if t1 == t2 && t2 == t3 {
                lemma_chars_le_transitive(u1, u2, u3);
            }
        },
        _ => {},
    }
}

/// Any two links are comparable by the canonical order.
pub proof fn lemma_link_le_connected(a: LinkV, b: LinkV)
    ensures
        link_le(a, b) || link_le(b, a),
{
    match (a, b) {
        (LinkV::GitHub(x), LinkV::GitHub(y)) => {
            lemma_chars_le_connected(x, y);
        },
        (LinkV::Other(t1, u1), LinkV::Other(t2, u2)) => {
            lemma_chars_lt_trichotomy(t1, t2);
            lemma_chars_le_connected(u1, u2);
        },
        _ => {},
    }
}

/// Law: the canonical order on links is a total order.
pub proof fn lemma_link_le_total_ordering()
    ensures
        vstd::relations::total_ordering(link_le_fn()),
{
    let leq = link_le_fn();
    assert forall|a: LinkV| #[trigger] leq(a, a) by {}
    assert forall|a: LinkV, b: LinkV| #[trigger] leq(a, b) && #[trigger] leq(b, a) implies a
        == b by {
        lemma_link_le_antisymmetric(a, b);
    }
    assert forall|a: LinkV, b: LinkV, c: LinkV| #[trigger] leq(a, b) && #[trigger] leq(b, c)
        implies leq(a, c) by {
        lemma_link_le_transitive(a, b, c);
    }
    assert forall|a: LinkV, b: LinkV| #[trigger] leq(a, b) || #[trigger] leq(b, a) by {
        lemma_link_le_connected(a, b);
    }
}

/// Law: the canonical order is total, so a sorted collection is fully
/// determined by its members — sorted link collections are deterministic.
pub proof fn lemma_sorted_links_unique(x: Seq<LinkV>, y: Seq<LinkV>)
    requires
        links_sorted(x),
        links_sorted(y),
        x.to_multiset() == y.to_multiset(),
    ensures
        x == y,
{
    lemma_link_le_total_ordering();
    vstd::seq_lib::lemma_sorted_unique(x, y, link_le_fn());
}

/// Decides the canonical order on two links.
pub fn link_le_exec(a: &Link, b: &Link) -> (r: bool)
    ensures
        r == link_le(a@, b@),
{
    match (a, b) {
        (Link::GitHub(x), Link::GitHub(y)) => str_le(x.as_str(), y.as_str()),
        (Link::GitHub(_), Link::Other(_, _)) => true,
        (Link::Other(_, _), Link::GitHub(_)) => false,
        (Link::Other(t1, u1), Link::Other(t2, u2)) => {
            if str_lt(t1.as_str(), t2.as_str()) {
                true
            } else if str_eq(t1.as_str(), t2.as_str()) {
                str_le(u1.as_str(), u2.as_str())
            } else {
                false
            }
        },
    }
}

/// Inserting an element anywhere adds exactly it to the members.
pub proof fn lemma_to_multiset_insert<A>(s: Seq<A>, j: int, x: A)
    requires
        0 <= j <= s.len(),
    ensures
        s.insert(j, x).to_multiset() == s.to_multiset().insert(x),
{
    broadcast use vstd::multiset::group_multiset_axioms;
    broadcast use vstd::seq_lib::group_to_multiset_ensures;

    let singleton = seq![x];
    assert(singleton =~= Seq::<A>::empty().push(x));
    assert(Seq::<A>::empty().to_multiset() =~= Multiset::<A>::empty()) by {
        let m = Seq::<A>::empty().to_multiset();
        assert forall|a: A| m.count(a) == Multiset::<A>::empty().count(a) by {
            assert(!Seq::<A>::empty().contains(a));
        }
    }
    assert(singleton.to_multiset() =~= Multiset::<A>::empty().insert(x));
    assert(s.insert(j, x) =~= s.take(j) + (singleton + s.skip(j)));
    vstd::seq_lib::lemma_multiset_commutative(s.take(j), singleton + s.skip(j));
    vstd::seq_lib::lemma_multiset_commutative(singleton, s.skip(j));
    assert(s =~= s.take(j) + s.skip(j));
    vstd::seq_lib::lemma_multiset_commutative(s.take(j), s.skip(j));
    assert(s.insert(j, x).to_multiset() =~= s.to_multiset().insert(x));
}

/// The position at which a link joins a sorted collection: after every
/// element it does not precede.
fn insert_position(out: &Vec<Link>, x: &Link) -> (j: usize)
    ensures
        j <= out@.len(),
        forall|k: int| 0 <= k < j ==> !link_le(x@, #[trigger] links_view(out@)[k]),
        j < out@.len() ==> link_le(x@, links_view(out@)[j as int]),
{
    let mut j: usize = 0;
    while j < out.len()
        invariant
            j <= out@.len(),
            forall|k: int| 0 <= k < j ==> !link_le(x@, #[trigger] links_view(out@)[k]),
        decreases out@.len() - j,
    {
        if link_le_exec(x, &out[j]) {
            return j;
        }
        j = j + 1;
    }
    j
}

/// Insert a link into a sorted collection, keeping it sorted.
fn insert_link(out: &mut Vec<Link>, x: Link)
    requires
        links_sorted(links_view(old(out)@)),
    ensures
        links_sorted(links_view(final(out)@)),
        links_view(final(out)@).to_multiset() == links_view(old(out)@).to_multiset().insert(x@),
{
    let j = insert_position(out, &x);
    let ghost lv = links_view(out@);
    let ghost xv = x@;
    out.insert(j, x);
    proof {
        lemma_link_le_total_ordering();
        let lv2 = links_view(out@);
        lv.insert_ensures(j as int, xv);
        assert(lv2 =~= lv.insert(j as int, xv)) by {
            assert forall|k: int| 0 <= k < lv2.len() implies lv2[k] == lv.insert(j as int, xv)[k]
            by {
                if k < j {
                } else if k == j {
                } else {
                    assert(lv.insert(j as int, xv)[(k - 1) + 1] == lv[k - 1]);
                }
            }
        }
        let leq = link_le_fn();
        assert forall|p: int, q: int| 0 <= p < q < lv2.len() implies #[trigger] leq(
            lv2[p],
            lv2[q],
        ) by {
            if p < j && q < j {
                assert(leq(lv[p], lv[q]));
            } else if p < j && q == j {
                // everything before the position does not follow x, so it precedes it
                assert(!link_le(xv, lv[p]));
                lemma_link_le_connected(lv[p], xv);
                assert(link_le(lv[p], xv));
            } else if p < j && q > j {
                assert(leq(lv[p], lv[q - 1]));
            } else if p == j && q > j {
                // x precedes the element at the position, which precedes the rest
                assert(link_le(xv, lv[j as int]));
                if q - 1 > j {
                    assert(leq(lv[j as int], lv[q - 1]));
                    lemma_link_le_transitive(xv, lv[j as int], lv[q - 1]);
                }
                assert(link_le(xv, lv[q - 1]));
            } else {
                assert(p > j && q > j);
                assert(leq(lv[p - 1], lv[q - 1]));
            }
        }
        lemma_to_multiset_insert(lv, j as int, xv);
    }
}

/// Sort links into the canonical order.  The result has exactly the
/// members of the input, in sorted order.
pub fn sort_links(links: Vec<Link>) -> (r: Vec<Link>)
    ensures
        links_sorted(links_view(r@)),
        links_view(r@).to_multiset() == links_view(links@).to_multiset(),
{
    broadcast use vstd::multiset::group_multiset_axioms;
    broadcast use vstd::seq_lib::group_to_multiset_ensures;

    let mut out: Vec<Link> = Vec::new();
    let mut rest = links;
    proof {
        assert(links_view(out@) =~= Seq::<LinkV>::empty());
        assert(links_view(rest@) =~= links_view(links@));
        assert(links_view(out@).to_multiset().add(links_view(rest@).to_multiset()) =~= links_view(
            links@,
        ).to_multiset()) by {
            assert forall|a: LinkV| links_view(out@).to_multiset().count(a) == 0 by {
                assert(!links_view(out@).contains(a));
            }
        }
    }
    while rest.len() > 0
        invariant
            links_sorted(links_view(out@)),
            links_view(out@).to_multiset().add(links_view(rest@).to_multiset()) == links_view(
                links@,
            ).to_multiset(),
        decreases rest@.len(),
    {
        let ghost old_out = out@;
        let ghost old_rest = rest@;
        let x = rest.remove(0);
        insert_link(&mut out, x);
        proof {
            broadcast use vstd::multiset::group_multiset_axioms;
            broadcast use vstd::seq_lib::group_to_multiset_ensures;

            let orv = links_view(old_rest);
            assert(links_view(rest@) =~= orv.remove(0)) by {
                orv.remove_ensures(0);
                assert forall|k: int| 0 <= k < links_view(rest@).len() implies links_view(rest@)[k]
                    == orv.remove(0)[k] by {
                    assert(orv.remove(0)[k] == orv[k + 1]);
                }
            }
            assert(orv.remove(0).to_multiset() =~= orv.to_multiset().remove(orv[0]));
            assert(x@ == orv[0]);
            assert(orv.contains(orv[0]));
            assert(orv.to_multiset().count(orv[0]) > 0);
            assert(links_view(out@).to_multiset().add(links_view(rest@).to_multiset())
                =~= links_view(links@).to_multiset()) by {
                assert(links_view(out@).to_multiset() == links_view(old_out).to_multiset().insert(
                    x@,
                ));
            }
        }
    }
    out
}

/// A list of links for a project.
///
/// This wraps a `Vec<Link>` so the collection can carry its own decoding
/// and canonical order.
#[derive(Debug, Clone, PartialEq, Eq)]
pub struct Links(pub Vec<Link>);

impl View for Links {
    type V = Seq<LinkV>;

    open spec fn view(&self) -> Seq<LinkV> {
        links_view(self.0@)
    }
}

/// The key that makes a link a GitHub link.
pub open spec fn github_key() -> Seq<char> {
    "GitHub"@
}

/// The link a single string-pair entry decodes to.  The final arm is
/// never reached on string pairs.
pub open spec fn raw_link(p: (YamlScalarV, YamlScalarV)) -> LinkV {
    match p {
        (YamlScalarV::Str(k), YamlScalarV::Str(u)) => if k == github_key() {
            LinkV::GitHub(u)
        } else {
            LinkV::Other(k, u)
        },
        _ => LinkV::Other(Seq::empty(), Seq::empty()),
    }
}

/// The links of all entries, in mapping order, before sorting.
pub open spec fn raw_links(ps: Seq<(YamlScalarV, YamlScalarV)>) -> Seq<LinkV> {
    ps.map_values(|p: (YamlScalarV, YamlScalarV)| raw_link(p))
}

/// Do all entries hold a string key and a string value?
pub open spec fn links_all_strings(ps: Seq<(YamlScalarV, YamlScalarV)>) -> bool {
    forall|i: int|
        0 <= i < ps.len() ==> ((#[trigger] ps[i]).0 matches YamlScalarV::Str(_)) && (
        ps[i].1 matches YamlScalarV::Str(_))
}

/// What decoding owes for a links mapping: every string-pair entry is
/// accepted as a link — no entry is dropped — and the collection comes
/// out in the canonical sorted order.
pub open spec fn spec_decode_links(ps: Seq<(YamlScalarV, YamlScalarV)>) -> Result<
    Seq<LinkV>,
    DecodeErrorV,
> {
    if links_all_strings(ps) {
        Ok(raw_links(ps).sort_by(link_le_fn()))
    } else {
        Err(DecodeErrorV::WrongType("links"@))
    }
}

/// Decode a links mapping into a sorted collection.
pub fn decode_links(pairs: &Vec<(YamlScalar, YamlScalar)>) -> (r: Result<Links, DecodeError>)
    ensures
        match r {
            Ok(ls) => spec_decode_links(pairs_view(pairs@)) == Ok::<Seq<LinkV>, DecodeErrorV>(ls@),
            Err(e) => spec_decode_links(pairs_view(pairs@)) == Err::<Seq<LinkV>, DecodeErrorV>(e@),
        },
{
    let ghost pv = pairs_view(pairs@);
    let mut raw: Vec<Link> = Vec::new();
    let mut i: usize = 0;
    proof {
        assert(links_view(raw@) =~= raw_links(pv.take(0)));
    }
    while i < pairs.len()
        invariant
            i <= pairs@.len(),
            pv == pairs_view(pairs@),
            pv.len() == pairs@.len(),
            links_view(raw@) == raw_links(pv.take(i as int)),
            forall|k: int|
                0 <= k < i ==> ((#[trigger] pv[k]).0 matches YamlScalarV::Str(_)) && (
                pv[k].1 matches YamlScalarV::Str(_)),
        decreases pairs@.len() - i,
    {
        proof {
            assert(pv[i as int] == (pairs@[i as int].0@, pairs@[i as int].1@));
        }
        match (&pairs[i].0, &pairs[i].1) {
            (YamlScalar::Str(k), YamlScalar::Str(u)) => {
                let l = if str_eq(k.as_str(), "GitHub") {
                    Link::GitHub(u.clone())
                } else {
                    Link::Other(k.clone(), u.clone())
                };
                proof {
                    assert(l@ == raw_link(pv[i as int]));
                }
                let ghost old_raw = raw@;
                raw.push(l);
                proof {
                    let nl = links_view(raw@);
                    let tgt = raw_links(pv.take(i as int + 1));
                    assert(links_view(old_raw).len() == i as int);
                    assert(nl.len() == i as int + 1);
                    assert(tgt.len() == i as int + 1);
                    assert forall|m: int| 0 <= m < nl.len() implies nl[m] == tgt[m] by {
                        assert(tgt[m] == raw_link(pv.take(i as int + 1)[m]));
                        assert(pv.take(i as int + 1)[m] == pv[m]);
                        if m < i as int {
                            assert(raw@[m] == old_raw[m]);
                            assert(nl[m] == old_raw[m]@);
                            assert(links_view(old_raw)[m] == old_raw[m]@);
                            assert(links_view(old_raw)[m] == raw_links(pv.take(i as int))[m]);
                            assert(raw_links(pv.take(i as int))[m] == raw_link(
                                pv.take(i as int)[m],
                            ));
                            assert(pv.take(i as int)[m] == pv[m]);
                        } else {
                            assert(raw@[m] == l);
                            assert(nl[m] == l@);
                        }
                    }
                    assert(nl =~= tgt);
                }
            },
            _ => {
                proof {
                    assert(!links_all_strings(pv)) by {
                        assert(!(((pv[i as int]).0 matches YamlScalarV::Str(_)) && (
                        (pv[i as int]).1 matches YamlScalarV::Str(_))));
                    }
                }
                return Err(DecodeError::WrongType(String::from_str("links")));
            },
        }
        i = i + 1;
    }
    proof {
        assert(pv.take(i as int) =~= pv);
        assert(links_all_strings(pv));
    }
    let sorted = sort_links(raw);
    proof {
        lemma_link_le_total_ordering();
        raw_links(pv).lemma_sort_by_ensures(link_le_fn());
        vstd::seq_lib::lemma_sorted_unique(
            links_view(sorted@),
            raw_links(pv).sort_by(link_le_fn()),
            link_le_fn(),
        );
    }
    Ok(Links(sorted))
}

/// What decoding owes for an optional links field: an absent key or a
/// null value is `None`; a mapping decodes as a links mapping; anything
/// else is rejected.
pub open spec fn spec_opt_links(es: Seq<(YamlScalarV, YamlValueV)>, key: Seq<char>) -> Result<
    Option<Seq<LinkV>>,
    DecodeErrorV,
> {
    match spec_lookup(es, key) {
        Option::None => Ok(None),
        Option::Some(v) => match v {
            YamlValueV::Mapping(ps) => match spec_decode_links(ps) {
                Ok(ls) => Ok(Some(ls)),
                Err(e) => Err(e),
            },
            YamlValueV::Null => Ok(None),
            _ => Err(DecodeErrorV::WrongType(key)),
        },
    }
}

/// Decode an optional links field.
pub fn opt_links(entries: &Vec<(YamlScalar, YamlValue)>, key: &str) -> (r: Result<
    Option<Links>,
    DecodeError,
>)
    ensures
        match r {
            Ok(ls) => spec_opt_links(entries_view(entries@), key@) == Ok::<
                Option<Seq<LinkV>>,
                DecodeErrorV,
            >(
                match ls {
                    Some(l) => Some(l@),
                    None => None,
                },
            ),
            Err(e) => spec_opt_links(entries_view(entries@), key@) == Err::<
                Option<Seq<LinkV>>,
                DecodeErrorV,
            >(e@),
        },
{
    match lookup(entries, key) {
        Option::None => Ok(None),
        Option::Some(v) => match v {
            YamlValue::Mapping(ps) => match decode_links(ps) {
                Ok(ls) => Ok(Some(ls)),
                Err(e) => Err(e),
            },
            YamlValue::Null => Ok(None),
            _ => Err(DecodeError::WrongType(String::from_str(key))),
        },
    }
}

} // verus!
