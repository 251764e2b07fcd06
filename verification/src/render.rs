//! Markdown-to-HTML rendering and the anchor rewrite.
//!
//! The Markdown engine does the conversion; the library's own contractual
//! transformation is the rewrite applied afterwards: every anchor opens
//! in a new browsing context and bypasses partial-page navigation.

use vstd::prelude::*;
use vstd::string::{StrSliceExecFns, StringExecFns};

verus! {

/// What the Markdown engine renders document text `s` to, when it can.
/// The result depends on the text alone.
pub uninterp spec fn html_of(s: Seq<char>) -> Option<Seq<char>>;

/// Relies on markdown::to_html_with_options with the frontmatter
/// construct enabled: converts Markdown to HTML, deterministically in the
/// text; the frontmatter block is treated as inert and not emitted.
#[verifier::external_body]
pub(crate) fn to_html(s: &str) -> (r: Option<String>)
    ensures
        match r {
            Some(h) => html_of(s@) == Some(h@),
            None => html_of(s@) is None,
        },
{
    let options = markdown::Options {
        parse: markdown::ParseOptions {
            constructs: markdown::Constructs {
                frontmatter: true,
                ..markdown::Constructs::default()
            },
            ..markdown::ParseOptions::default()
        },
        ..markdown::Options::default()
    };
    markdown::to_html_with_options(s, &options).ok()
}

/// All occurrences of `pat` in `s`, scanned left to right without
/// overlap, replaced by `rep`.
pub open spec fn replace_all(s: Seq<char>, pat: Seq<char>, rep: Seq<char>) -> Seq<char>
    decreases s.len(),
    when pat.len() > 0
{
    if s.len() < pat.len() {
        s
    } else if s.take(pat.len() as int) == pat {
        rep + replace_all(s.skip(pat.len() as int), pat, rep)
    } else {
        seq![s[0]] + replace_all(s.skip(1), pat, rep)
    }
}

/// The markup the renderer emits for a hyperlink.
pub open spec fn anchor_pat() -> Seq<char> {
    "<a href="@
}

/// The rewritten markup: open in a new browsing context and bypass
/// partial-page navigation.
pub open spec fn anchor_rep() -> Seq<char> {
    "<a hx-boost=\"false\" target=\"_blank\" href="@
}

/// The content rewrite applied after rendering.
pub open spec fn rewrite_anchors(s: Seq<char>) -> Seq<char> {
    replace_all(s, anchor_pat(), anchor_rep())
}

/// Does `pat` occur in `s` at position `i`?
pub open spec fn occurs_at(s: Seq<char>, pat: Seq<char>, i: int) -> bool {
    0 <= i && i + pat.len() <= s.len() && s.subrange(i, i + pat.len() as int) == pat
}

/// Does `pat` occur anywhere in `s`?
pub open spec fn occurs(s: Seq<char>, pat: Seq<char>) -> bool {
    exists|i: int| occurs_at(s, pat, i)
}

/// Law: the rewrite touches nothing but anchor markup — text in which
/// the anchor pattern does not occur comes back unchanged.
pub proof fn lemma_rewrite_no_anchor_unchanged(s: Seq<char>)
    requires
        !occurs(s, anchor_pat()),
    ensures
        rewrite_anchors(s) == s,
    decreases s.len(),
{
    reveal_strlit("<a href=");
    let pat = anchor_pat();
    if s.len() < pat.len() {
    } else if s.take(pat.len() as int) == pat {
        assert(s.take(pat.len() as int) =~= s.subrange(0, pat.len() as int));
        assert(occurs_at(s, pat, 0));
    } else {
        let rest = s.skip(1);
        assert(!occurs(rest, pat)) by {
            if occurs(rest, pat) {
                let i = choose|i: int| occurs_at(rest, pat, i);
                assert(rest.subrange(i, i + pat.len() as int) =~= s.subrange(
                    i + 1,
                    i + 1 + pat.len() as int,
                ));
                assert(occurs_at(s, pat, i + 1));
            }
        }
        lemma_rewrite_no_anchor_unchanged(rest);
        assert(rewrite_anchors(s) == seq![s[0]] + rest);
        assert(seq![s[0]] + rest =~= s);
    }
}

/// Within the replacement markup, `<` occurs only at the start.
proof fn lemma_rep_no_later_bracket(i: int)
    requires
        1 <= i < anchor_rep().len(),
    ensures
        anchor_rep()[i] != '<',
{
    reveal_strlit("<a hx-boost=\"false\" target=\"_blank\" href=");
}

/// Within the anchor pattern, `<` occurs only at the start.
proof fn lemma_pat_no_later_bracket(i: int)
    requires
        1 <= i < anchor_pat().len(),
    ensures
        anchor_pat()[i] != '<',
{
    reveal_strlit("<a href=");
}

/// The rewrite reflects bracket-free prefixes: where its output begins
/// with text holding no `<`, the input began with that same text.
proof fn lemma_prefix_reflect(s: Seq<char>, t: Seq<char>)
    requires
        forall|k: int| 0 <= k < t.len() ==> (#[trigger] t[k]) != '<',
        t.len() <= rewrite_anchors(s).len(),
        rewrite_anchors(s).take(t.len() as int) == t,
    ensures
        t.len() <= s.len(),
        s.take(t.len() as int) == t,
    decreases s.len(),
{
    reveal_strlit("<a href=");
    reveal_strlit("<a hx-boost=\"false\" target=\"_blank\" href=");
    let pat = anchor_pat();
    let rep = anchor_rep();
    let r = rewrite_anchors(s);
    if t.len() == 0 {
        assert(s.take(0) =~= t);
    } else if s.len() < pat.len() {
        // the rewrite returned the text unchanged
    } else if s.take(pat.len() as int) == pat {
        // the output starts with the replacement, whose first character is `<`
        assert(r[0] == rep[0]);
        assert(r.take(t.len() as int)[0] == t[0]);
        assert(false);
    } else {
        let s1 = s.skip(1);
        let r1 = rewrite_anchors(s1);
        let t1 = t.skip(1);
        assert(r == seq![s[0]] + r1);
        assert(r.take(t.len() as int)[0] == t[0]);
        assert(r[0] == s[0]);
        assert forall|k: int| 0 <= k < t1.len() implies (#[trigger] t1[k]) != '<' by {
            assert(t1[k] == t[k + 1]);
        }
        assert(r1.take(t1.len() as int) =~= t1) by {
            assert forall|k: int| 0 <= k < t1.len() implies r1.take(t1.len() as int)[k] == t1[k]
            by {
                assert(r1[k] == r[k + 1]);
                assert(r.take(t.len() as int)[k + 1] == r[k + 1]);
                assert(t1[k] == t[k + 1]);
            }
        }
        lemma_prefix_reflect(s1, t1);
        assert(s.take(t.len() as int) =~= t) by {
            assert forall|k: int| 0 <= k < t.len() implies s.take(t.len() as int)[k] == t[k] by {
                if k > 0 {
                    assert(s[k] == s1[k - 1]);
                    assert(s1.take(t1.len() as int)[k - 1] == s1[k - 1]);
                    assert(t1[k - 1] == t[k]);
                }
            }
        }
    }
}

/// Law: the rewrite is complete — no plain anchor markup occurs anywhere
/// in its output.
pub proof fn lemma_rewrite_leaves_no_anchor(s: Seq<char>)
    ensures
        !occurs(rewrite_anchors(s), anchor_pat()),
    decreases s.len(),
{
    reveal_strlit("<a href=");
    reveal_strlit("<a hx-boost=\"false\" target=\"_blank\" href=");
    let pat = anchor_pat();
    let rep = anchor_rep();
    let r = rewrite_anchors(s);
    if occurs(r, pat) {
        let i = choose|i: int| occurs_at(r, pat, i);
        assert(r.subrange(i, i + pat.len() as int) == pat);
        if s.len() < pat.len() {
            // unchanged, and too short to hold the pattern
            assert(false);
        } else if s.take(pat.len() as int) == pat {
            let rest = rewrite_anchors(s.skip(pat.len() as int));
            assert(r == rep + rest);
            lemma_rewrite_leaves_no_anchor(s.skip(pat.len() as int));
            if i >= rep.len() {
                // the occurrence would lie in the rewritten remainder
                assert(occurs_at(rest, pat, i - rep.len())) by {
                    assert(rest.subrange(i - rep.len(), i - rep.len() + pat.len() as int) =~= r
                        .subrange(i, i + pat.len() as int)) by {
                        assert forall|k: int| 0 <= k < pat.len() implies (#[trigger] rest[i - rep
                            .len() + k]) == r[i + k] by {}
                    }
                }
                assert(false);
            } else if i == 0 {
                // the replacement does not begin with the pattern
                assert(r.subrange(0, pat.len() as int)[4] == rep[4]);
                assert(false);
            } else {
                // the occurrence would begin at a `<` inside the replacement
                assert(r.subrange(i, i + pat.len() as int)[0] == r[i]);
                assert(r[i] == rep[i]);
                lemma_rep_no_later_bracket(i);
                assert(false);
            }
        } else {
            let s1 = s.skip(1);
            let r1 = rewrite_anchors(s1);
            assert(r == seq![s[0]] + r1);
            lemma_rewrite_leaves_no_anchor(s1);
            if i >= 1 {
                // the occurrence would lie in the rewritten remainder
                assert(occurs_at(r1, pat, i - 1)) by {
                    assert(r1.subrange(i - 1, i - 1 + pat.len() as int) =~= r.subrange(
                        i,
                        i + pat.len() as int,
                    )) by {
                        assert forall|k: int| 0 <= k < pat.len() implies (#[trigger] r1[i - 1
                            + k]) == r[i + k] by {}
                    }
                }
                assert(false);
            } else {
                // the occurrence would start right here: then the input
                // itself began with the pattern, against the branch taken
                assert(r.subrange(0, pat.len() as int)[0] == r[0]);
                assert(r[0] == s[0]);
                assert(s[0] == pat[0]);
                let t = pat.skip(1);
                assert forall|k: int| 0 <= k < t.len() implies (#[trigger] t[k]) != '<' by {
                    assert(t[k] == pat[k + 1]);
                    lemma_pat_no_later_bracket(k + 1);
                }
                assert(r1.take(t.len() as int) =~= t) by {
                    assert forall|k: int| 0 <= k < t.len() implies r1.take(t.len() as int)[k]
                        == t[k] by {
                        assert(r1[k] == r[k + 1]);
                        assert(r.subrange(0, pat.len() as int)[k + 1] == r[k + 1]);
                        assert(t[k] == pat[k + 1]);
                    }
                }
                lemma_prefix_reflect(s1, t);
                assert(s.take(pat.len() as int) =~= pat) by {
                    assert forall|k: int| 0 <= k < pat.len() implies s.take(pat.len() as int)[k]
                        == pat[k] by {
                        if k > 0 {
                            assert(s[k] == s1[k - 1]);
                            assert(s1.take(t.len() as int)[k - 1] == s1[k - 1]);
                            assert(t[k - 1] == pat[k]);
                        }
                    }
                }
                assert(false);
            }
        }
    }
}

/// Does `pat` occur in `s` at character position `i`?
fn matches_at(s: &str, i: usize, pat: &str) -> (r: bool)
    requires
        i <= s@.len(),
    ensures
        r == (i + pat@.len() <= s@.len() && s@.subrange(i as int, i as int + pat@.len() as int)
            == pat@),
{
    let n = s.unicode_len();
    let m = pat.unicode_len();
    if m > n - i {
        return false;
    }
    let mut k: usize = 0;
    while k < m
        invariant
            k <= m,
            m == pat@.len(),
            n == s@.len(),
            i + m <= n,
            forall|t: int| 0 <= t < k ==> s@[i + t] == pat@[t],
        decreases m - k,
    {
        if s.get_char(i + k) != pat.get_char(k) {
            proof {
                assert(s@.subrange(i as int, i as int + m as int) != pat@) by {
                    assert(s@.subrange(i as int, i as int + m as int)[k as int] == s@[i + k]);
                }
            }
            return false;
        }
        k = k + 1;
    }
    proof {
        assert(s@.subrange(i as int, i as int + m as int) =~= pat@);
    }
    true
}

/// Rewrite every anchor in rendered HTML.
pub fn replace_anchors(s: &str) -> (out: String)
    ensures
        out@ == rewrite_anchors(s@),
{
    let pat = "<a href=";
    let rep = "<a hx-boost=\"false\" target=\"_blank\" href=";
    proof {
        reveal_strlit("<a href=");
    }
    let n = s.unicode_len();
    let plen = pat.unicode_len();
    let mut out = String::new();
    let mut i: usize = 0;
    proof {
        assert(s@.skip(0) =~= s@);
    }
    while i < n
        invariant
            i <= n,
            n == s@.len(),
            pat@ == anchor_pat(),
            rep@ == anchor_rep(),
            plen == pat@.len(),
            1 <= plen,
            out@ + replace_all(s@.skip(i as int), anchor_pat(), anchor_rep()) == rewrite_anchors(
                s@,
            ),
        decreases n - i,
    {
        let ghost tail = s@.skip(i as int);
        let ghost out0 = out@;
        if matches_at(s, i, pat) {
            out.append(rep);
            proof {
                assert(tail.len() >= plen);
                assert(tail.take(plen as int) =~= s@.subrange(i as int, i as int + plen as int));
                assert(tail.skip(plen as int) =~= s@.skip(i as int + plen as int));
                assert(replace_all(tail, anchor_pat(), anchor_rep()) == anchor_rep() + replace_all(
                    s@.skip(i as int + plen as int),
                    anchor_pat(),
                    anchor_rep(),
                ));
                assert(out@ + replace_all(s@.skip(i as int + plen as int), anchor_pat(), anchor_rep())
                    =~= out0 + replace_all(tail, anchor_pat(), anchor_rep()));
            }
            i = i + plen;
        } else {
            let c = s.substring_char(i, i + 1);
            out.append(c);
            proof {
                assert(tail.len() > 0);
                assert(tail[0] == s@[i as int]);
                if tail.len() >= plen {
                    assert(tail.take(plen as int) =~= s@.subrange(
                        i as int,
                        i as int + plen as int,
                    ));
                    assert(tail.take(plen as int) != anchor_pat());
                }
                assert(tail.skip(1) =~= s@.skip(i as int + 1));
                assert(replace_all(tail, anchor_pat(), anchor_rep()) == seq![tail[0]] + replace_all(
                    tail.skip(1),
                    anchor_pat(),
                    anchor_rep(),
                )) by {
                    if tail.len() < plen {
                        assert(tail.skip(1).len() < plen);
                        assert(replace_all(tail, anchor_pat(), anchor_rep()) == tail);
                        assert(replace_all(tail.skip(1), anchor_pat(), anchor_rep()) == tail.skip(
                            1,
                        ));
                        assert(tail =~= seq![tail[0]] + tail.skip(1));
                    }
                }
                assert(c@ =~= seq![tail[0]]);
                assert(out@ + replace_all(s@.skip(i as int + 1), anchor_pat(), anchor_rep())
                    =~= out0 + replace_all(tail, anchor_pat(), anchor_rep()));
            }
            i = i + 1;
        }
    }
    proof {
        assert(s@.skip(i as int) =~= Seq::<char>::empty());
        assert(replace_all(Seq::<char>::empty(), anchor_pat(), anchor_rep()) == Seq::<
            char,
        >::empty());
        assert(out@ + Seq::<char>::empty() =~= out@);
    }
    out
}

} // verus!
