//! Helpers for listing pages: the hidden-file filter, the newest-first
//! ordering, rendering a whole collection, and slug building.
//!
//! Directory traversal itself is an external collaborator; it hands the
//! library plain file stems and texts and takes plain values back.  The
//! filter override is passed in explicitly as a configuration value, not
//! read from ambient process state.

use vstd::prelude::*;
use vstd::string::{StrSliceExecFns, StringExecFns};

use crate::errors::RenderError;
use crate::posts::{Content, Post};
use crate::render::{html_of, rewrite_anchors};
use crate::text::{chars_le, lemma_chars_le_connected, lemma_chars_le_transitive, str_le};

verus! {

/// Is a file stem visible in listings?  Stems beginning with `_` mark
/// hidden, unpublished files, unless the override disables the filter.
pub open spec fn spec_visible(stem: Seq<char>, disable_filter: bool) -> bool {
    disable_filter || !(stem.len() > 0 && stem[0] == '_')
}

/// Decide visibility of one file stem.
pub fn is_visible(stem: &str, disable_filter: bool) -> (r: bool)
    ensures
        r == spec_visible(stem@, disable_filter),
{
    if disable_filter {
        return true;
    }
    let n = stem.unicode_len();
    if n == 0 {
        return true;
    }
    stem.get_char(0) != '_'
}

/// The visibility test as a predicate value.
pub open spec fn visible_pred(disable_filter: bool) -> spec_fn(Seq<char>) -> bool {
    |t: Seq<char>| spec_visible(t, disable_filter)
}

/// The views of a sequence of stems.
pub open spec fn stems_view(stems: Seq<String>) -> Seq<Seq<char>> {
    stems.map_values(|s: String| s@)
}

/// Keep only the visible stems, in their original order.
pub fn filter_visible(stems: Vec<String>, disable_filter: bool) -> (r: Vec<String>)
    ensures
        stems_view(r@) == stems_view(stems@).filter(visible_pred(disable_filter)),
{
    let ghost pred = visible_pred(disable_filter);
    let ghost all = stems_view(stems@);
    let mut out: Vec<String> = Vec::new();
    let mut i: usize = 0;
    proof {
        reveal_with_fuel(Seq::<Seq<char>>::filter, 2);
        assert(all.take(0) =~= Seq::<Seq<char>>::empty());
        assert(stems_view(out@) =~= all.take(0).filter(pred));
    }
    while i < stems.len()
        invariant
            i <= stems@.len(),
            all == stems_view(stems@),
            pred == visible_pred(disable_filter),
            all.len() == stems@.len(),
            stems_view(out@) == all.take(i as int).filter(pred),
        decreases stems@.len() - i,
    {
        let ghost out0 = out@;
        let visible = is_visible(stems[i].as_str(), disable_filter);
        if visible {
            out.push(stems[i].clone());
        }
        proof {
            reveal_with_fuel(Seq::<Seq<char>>::filter, 2);
            let t1 = all.take(i as int + 1);
            let t0 = all.take(i as int);
            let x = all[i as int];
            assert(x == stems@[i as int]@);
            assert(t1 =~= t0 + seq![x]);
            Seq::filter_distributes_over_add(t0, seq![x], pred);
            assert(seq![x].drop_last() =~= Seq::<Seq<char>>::empty());
            assert(Seq::<Seq<char>>::empty().filter(pred) == Seq::<Seq<char>>::empty());
            assert(seq![x].last() == x);
            assert(pred(x) == spec_visible(x, disable_filter));
            assert(seq![x].filter(pred) == if pred(x) {
                seq![x].drop_last().filter(pred).push(x)
            } else {
                seq![x].drop_last().filter(pred)
            });
            if visible {
                assert(seq![x].filter(pred) =~= Seq::<Seq<char>>::empty().push(x));
                assert(Seq::<Seq<char>>::empty().push(x) =~= seq![x]);
                assert(out@ =~= out0.push(stems@[i as int]));
                assert(stems_view(out@) =~= stems_view(out0).push(x));
                assert(stems_view(out@) =~= t1.filter(pred));
            } else {
                assert(seq![x].filter(pred) =~= Seq::<Seq<char>>::empty());
                assert(t1.filter(pred) =~= t0.filter(pred));
                assert(stems_view(out@) =~= t1.filter(pred));
            }
        }
        i = i + 1;
    }
    proof {
        assert(all.take(i as int) =~= all);
    }
    out
}

/// The URL slug for a listing entry: the listing's prefix followed by
/// the file stem.
pub fn slug_for(prefix: &str, stem: &str) -> (r: String)
    ensures
        r@ == prefix@ + stem@,
{
    let mut s = String::from_str(prefix);
    s.append(stem);
    s
}

/// Frontmatter carrying a creation date.  Listings are ordered by this
/// key: plain string comparison, newest (lexicographically largest)
/// first, not a parsed calendar comparison.
pub trait Dated {
    /// The creation date as a sort key.
    spec fn date_key(&self) -> Seq<char>;

    /// The `created_at` field.
    fn created_at(&self) -> (r: &str)
        ensures
            r@ == self.date_key(),
    ;
}

/// Sorted newest first by the frontmatter date key.
pub open spec fn posts_sorted_newest_first<F: Dated, M>(s: Seq<Post<F, M>>) -> bool {
    forall|i: int, j: int|
        0 <= i < j < s.len() ==> chars_le(
            (#[trigger] s[j]).frontmatter.date_key(),
            (#[trigger] s[i]).frontmatter.date_key(),
        )
}

/// The position at which a post joins a newest-first collection: after
/// every post at least as new.
fn insert_position_post<F: Dated, M>(out: &Vec<Post<F, M>>, x: &Post<F, M>) -> (j: usize)
    ensures
        j <= out@.len(),
        forall|k: int|
            0 <= k < j ==> chars_le(x.frontmatter.date_key(), (#[trigger] out@[k]).frontmatter.date_key()),
        j < out@.len() ==> !chars_le(
            x.frontmatter.date_key(),
            out@[j as int].frontmatter.date_key(),
        ),
{
    let mut j: usize = 0;
    while j < out.len()
        invariant
            j <= out@.len(),
            forall|k: int|
                0 <= k < j ==> chars_le(
                    x.frontmatter.date_key(),
                    (#[trigger] out@[k]).frontmatter.date_key(),
                ),
        decreases out@.len() - j,
    {
        if !str_le(x.frontmatter.created_at(), out[j].frontmatter.created_at()) {
            return j;
        }
        j = j + 1;
    }
    j
}

/// Insert a post into a newest-first collection, keeping the order.
fn insert_post<F: Dated, M>(out: &mut Vec<Post<F, M>>, x: Post<F, M>)
    requires
        posts_sorted_newest_first(old(out)@),
    ensures
        posts_sorted_newest_first(final(out)@),
        final(out)@.to_multiset() == old(out)@.to_multiset().insert(x),
{
    let j = insert_position_post(out, &x);
    let ghost lv = out@;
    let ghost xk = x.frontmatter.date_key();
    out.insert(j, x);
    proof {
        let lv2 = out@;
        lv.insert_ensures(j as int, x);
        assert forall|p: int, q: int| 0 <= p < q < lv2.len() implies chars_le(
            (#[trigger] lv2[q]).frontmatter.date_key(),
            (#[trigger] lv2[p]).frontmatter.date_key(),
        ) by {
            if p < j && q < j {
                assert(chars_le(lv[q].frontmatter.date_key(), lv[p].frontmatter.date_key()));
            } else if p < j && q == j {
                assert(chars_le(xk, lv[p].frontmatter.date_key()));
            } else if p < j && q > j {
                assert(lv2[q] == lv[q - 1]);
                assert(chars_le(lv[q - 1].frontmatter.date_key(), lv[p].frontmatter.date_key()));
            } else if p == j && q > j {
                // the element displaced by x is not newer than x, nor is
                // anything after it
                let pk = lv[j as int].frontmatter.date_key();
                lemma_chars_le_connected(xk, pk);
                assert(chars_le(pk, xk));
                if q - 1 > j {
                    assert(chars_le(lv[q - 1].frontmatter.date_key(), pk));
                    lemma_chars_le_transitive(lv[q - 1].frontmatter.date_key(), pk, xk);
                }
                assert(chars_le(lv[q - 1].frontmatter.date_key(), xk));
            } else {
                assert(p > j && q > j);
                assert(chars_le(lv[q - 1].frontmatter.date_key(), lv[p - 1].frontmatter.date_key()));
            }
        }
        crate::links::lemma_to_multiset_insert(lv, j as int, x);
    }
}

/// Sort posts newest first by their frontmatter date.  The result has
/// exactly the posts of the input.
pub fn sort_posts_newest_first<F: Dated, M>(posts: Vec<Post<F, M>>) -> (r: Vec<Post<F, M>>)
    ensures
        posts_sorted_newest_first(r@),
        r@.to_multiset() == posts@.to_multiset(),
{
    broadcast use vstd::multiset::group_multiset_axioms;
    broadcast use vstd::seq_lib::group_to_multiset_ensures;

    let mut out: Vec<Post<F, M>> = Vec::new();
    let mut rest = posts;
    proof {
        assert(out@.to_multiset().add(rest@.to_multiset()) =~= posts@.to_multiset()) by {
            assert forall|a: Post<F, M>| out@.to_multiset().count(a) == 0 by {
                assert(!out@.contains(a));
            }
        }
    }
    while rest.len() > 0
        invariant
            posts_sorted_newest_first(out@),
            out@.to_multiset().add(rest@.to_multiset()) == posts@.to_multiset(),
        decreases rest@.len(),
    {
        let ghost old_out = out@;
        let ghost old_rest = rest@;
        let x = rest.remove(0);
        insert_post(&mut out, x);
        proof {
            broadcast use vstd::multiset::group_multiset_axioms;
            broadcast use vstd::seq_lib::group_to_multiset_ensures;

            assert(old_rest.contains(old_rest[0]));
            assert(old_rest.to_multiset().count(old_rest[0]) > 0);
            assert(out@.to_multiset().add(rest@.to_multiset()) =~= posts@.to_multiset());
        }
    }
    out
}

/// Whether post `q` is post `p` after one successful render.
pub open spec fn spec_rendered<F, M>(p: Post<F, M>, q: Post<F, M>) -> bool {
    match p.content {
        Content::Markdown(m) => match html_of(m@) {
            Some(h) => {
                &&& q.content matches Content::Html(o) && o@ == rewrite_anchors(h)
                &&& q.frontmatter == p.frontmatter
                &&& q.metadata == p.metadata
            },
            None => false,
        },
        Content::Html(_) => false,
    }
}

/// Whether a post's content is Markdown the renderer can convert.
pub open spec fn spec_renderable<F, M>(p: Post<F, M>) -> bool {
    p.content matches Content::Markdown(m) && html_of(m@) is Some
}

/// Render every post of a collection, stopping at the first failure.
/// On success every post's content is HTML.
pub fn render_all<F, M>(posts: Vec<Post<F, M>>) -> (r: Result<Vec<Post<F, M>>, RenderError>)
    ensures
        match r {
            Ok(out) => {
                &&& out@.len() == posts@.len()
                &&& forall|i: int|
                    0 <= i < posts@.len() ==> spec_rendered(posts@[i], #[trigger] out@[i])
            },
            Err(e) => exists|i: int|
                0 <= i < posts@.len() && !spec_renderable(#[trigger] posts@[i]),
        },
        (forall|i: int| 0 <= i < posts@.len() ==> spec_renderable(#[trigger] posts@[i])) ==> r
            is Ok,
{
    let mut out: Vec<Post<F, M>> = Vec::new();
    let mut rest = posts;
    proof {
        assert(rest@ =~= posts@.skip(0));
    }
    while rest.len() > 0
        invariant
            out@.len() + rest@.len() == posts@.len(),
            rest@ =~= posts@.skip(out@.len() as int),
            forall|k: int| 0 <= k < out@.len() ==> spec_rendered(posts@[k], #[trigger] out@[k]),
        decreases rest@.len(),
    {
        let ghost n = out@.len() as int;
        let ghost old_rest = rest@;
        let mut p = rest.remove(0);
        proof {
            assert(old_rest[0] == posts@[n]);
            assert(rest@ =~= posts@.skip(n + 1));
        }
        match p.parse_content() {
            Ok(()) => {
                out.push(p);
            },
            Err(e) => {
                proof {
                    assert(!spec_renderable(posts@[n]));
                }
                return Err(e);
            },
        }
    }
    proof {
        assert(out@.len() == posts@.len());
    }
    Ok(out)
}

} // verus!
