//! Aggregation of doc comments.

use vstd::prelude::*;
use vstd::string::*;
use crate::source::{AttrMeta, Attribute, Expr, Literal};
use crate::text::{is_white_space, lemma_trim_padded, str_equal, trim, trimmed};

verus! {

/// The string value of a doc attribute `#[doc = "..."]`, `None` for any other attribute.
pub open spec fn doc_value(a: Attribute) -> Option<Seq<char>> {
    if a.path_ident is Some && a.path_ident->0@ == "doc"@ {
        match a.meta {
            AttrMeta::NameValue(Expr::Lit(Literal::Str(s))) => Some(s@),
            _ => None,
        }
    } else {
        None
    }
}

/// The trimmed doc lines of an attribute list, in order.
pub open spec fn doc_lines(attrs: Seq<Attribute>) -> Seq<Seq<char>>
    decreases attrs.len(),
{
    if attrs.len() == 0 {
        Seq::empty()
    } else {
        let prev = doc_lines(attrs.drop_last());
        match doc_value(attrs.last()) {
            Some(v) => prev.push(trimmed(v)),
            None => prev,
        }
    }
}

/// The lines joined with a newline between each two.
pub open spec fn join_lines(lines: Seq<Seq<char>>) -> Seq<char>
    decreases lines.len(),
{
    if lines.len() == 0 {
        Seq::empty()
    } else if lines.len() == 1 {
        lines[0]
    } else {
        join_lines(lines.drop_last()) + "\n"@ + lines.last()
    }
}

/// The comment of a declaration with the given attributes.
pub open spec fn comment_of(attrs: Seq<Attribute>) -> Seq<char> {
    join_lines(doc_lines(attrs))
}

proof fn lemma_doc_lines_padded(
    attrs: Seq<Attribute>,
    lines: Seq<Seq<char>>,
    pre: Seq<Seq<char>>,
    post: Seq<Seq<char>>,
)
    requires
        attrs.len() == lines.len() == pre.len() == post.len(),
        forall|k: int|
            0 <= k < attrs.len() ==> doc_value(#[trigger] attrs[k]) == Some(pre[k] + lines[k] + post[k]),
        forall|k: int, i: int|
            0 <= k < pre.len() && 0 <= i < pre[k].len() ==> is_white_space(#[trigger] pre[k][i]),
        forall|k: int, i: int|
            0 <= k < post.len() && 0 <= i < post[k].len() ==> is_white_space(#[trigger] post[k][i]),
        forall|k: int|
            0 <= k < lines.len() ==> (#[trigger] lines[k]).len() > 0 && !is_white_space(lines[k][0])
                && !is_white_space(lines[k].last()),
    ensures
        doc_lines(attrs) == lines,
    decreases attrs.len(),
{
    if attrs.len() == 0 {
        assert(lines =~= Seq::<Seq<char>>::empty());
    } else {
        let n = attrs.len() - 1;
        lemma_doc_lines_padded(attrs.drop_last(), lines.drop_last(), pre.drop_last(), post.drop_last());
        assert(attrs.last() == attrs[n]);
        let p = pre[n];
        let q = post[n];
        assert forall|i: int| 0 <= i < p.len() implies is_white_space(#[trigger] p[i]) by {
            assert(is_white_space(pre[n][i]));
        }
        assert forall|i: int| 0 <= i < q.len() implies is_white_space(#[trigger] q[i]) by {
            assert(is_white_space(post[n][i]));
        }
        assert(lines[n].len() > 0);
        lemma_trim_padded(p, lines[n], q);
        assert(lines.drop_last().push(lines[n]) =~= lines);
    }
}

/// A declaration whose attributes are all doc lines, each a non-empty text
/// padded with white space, has as its comment those texts, without the
/// padding, joined in order with a newline between each two.
pub proof fn lemma_comment_of_doc_lines(
    attrs: Seq<Attribute>,
    lines: Seq<Seq<char>>,
    pre: Seq<Seq<char>>,
    post: Seq<Seq<char>>,
)
    requires
        attrs.len() == lines.len() == pre.len() == post.len(),
        forall|k: int|
            0 <= k < attrs.len() ==> doc_value(#[trigger] attrs[k]) == Some(pre[k] + lines[k] + post[k]),
        forall|k: int, i: int|
            0 <= k < pre.len() && 0 <= i < pre[k].len() ==> is_white_space(#[trigger] pre[k][i]),
        forall|k: int, i: int|
            0 <= k < post.len() && 0 <= i < post[k].len() ==> is_white_space(#[trigger] post[k][i]),
        forall|k: int|
            0 <= k < lines.len() ==> (#[trigger] lines[k]).len() > 0 && !is_white_space(lines[k][0])
                && !is_white_space(lines[k].last()),
    ensures
        comment_of(attrs) == join_lines(lines),
        lines.len() == 3 ==> comment_of(attrs) == lines[0] + "\n"@ + lines[1] + "\n"@ + lines[2],
{
    lemma_doc_lines_padded(attrs, lines, pre, post);
    if lines.len() == 3 {
        assert(lines.drop_last().drop_last().len() == 1);
        assert(lines.drop_last().drop_last()[0] == lines[0]);
        assert(lines.drop_last().last() == lines[1]);
        assert(join_lines(lines.drop_last().drop_last()) == lines[0]);
        assert(join_lines(lines.drop_last()) == lines[0] + "\n"@ + lines[1]);
        assert(join_lines(lines) == join_lines(lines.drop_last()) + "\n"@ + lines[2]);
    }
}

/// The trimmed text of a doc attribute; `None` for any other attribute.
pub fn get_comments(s: &Attribute) -> (r: Option<String>)
    ensures
        r is Some <==> doc_value(*s) is Some,
        r is Some ==> r->0@ == trimmed(doc_value(*s)->0),
{
    let is_doc = match &s.path_ident {
        Some(id) => str_equal(id.as_str(), "doc"),
        None => false,
    };
    if !is_doc {
        return None;
    }
    match &s.meta {
        AttrMeta::NameValue(Expr::Lit(Literal::Str(v))) => Some(trim(v.as_str())),
        _ => None,
    }
}

/// The doc lines of `attrs`, each trimmed, joined in order by newlines.
pub fn get_comment(attrs: &[Attribute]) -> (r: String)
    ensures
        r@ == comment_of(attrs@),
{
    let mut out = String::new();
    let mut any = false;
    let mut i: usize = 0;
    proof {
        assert(attrs@.subrange(0, 0) =~= Seq::<Attribute>::empty());
    }
    while i < attrs.len()
        invariant
            0 <= i <= attrs@.len(),
            out@ == join_lines(doc_lines(attrs@.subrange(0, i as int))),
            any == (doc_lines(attrs@.subrange(0, i as int)).len() > 0),
        decreases attrs@.len() - i,
    {
        let ghost pre = attrs@.subrange(0, i as int);
        let ghost cur = attrs@.subrange(0, i + 1);
        proof {
            assert(cur.drop_last() =~= pre);
            assert(cur.last() == attrs@[i as int]);
        }
        match get_comments(&attrs[i]) {
            Some(line) => {
                if any {
                    out.append("\n");
                }
                out.append(line.as_str());
                any = true;
                proof {
                    let ls = doc_lines(cur);
                    assert(ls.drop_last() =~= doc_lines(pre));
                }
            },
            None => {},
        }
        i = i + 1;
    }
    proof {
        assert(attrs@.subrange(0, attrs@.len() as int) =~= attrs@);
    }
    out
}

} // verus!
