//! Token trees, the form in which the macros receive the attribute and the
//! annotated function, and their printing as text.

use vstd::prelude::*;

verus! {

/// The delimiter of a group.
#[derive(Clone, Copy, PartialEq, Eq, Structural)]
pub enum Delim {
    /// `( ... )`
    Paren,
    /// `[ ... ]`
    Bracket,
    /// `{ ... }`
    Brace,
    /// An invisible delimiter (a group made by a macro expansion).
    Invisible,
}

/// A token tree: a leaf token, or a delimited group of token trees.
pub enum TokTree {
    Ident(String),
    /// A punctuation character (as a one-character string), and whether
    /// it is joined to the next token (as the first `:` of `::` is).
    Punct(String, bool),
    /// A literal, as written.
    Literal(String),
    Group(Delim, Vec<TokTree>),
}

/// The mathematical value of a [`TokTree`].
pub enum TokTreeView {
    Ident(Seq<char>),
    Punct(Seq<char>, bool),
    Literal(Seq<char>),
    Group(Delim, Seq<TokTreeView>),
}

pub open spec fn tree_view(t: TokTree) -> TokTreeView
    decreases t, 0int,
{
    match t {
        TokTree::Ident(s) => TokTreeView::Ident(s@),
        TokTree::Punct(s, joint) => TokTreeView::Punct(s@, joint),
        TokTree::Literal(s) => TokTreeView::Literal(s@),
        TokTree::Group(d, v) => TokTreeView::Group(d, trees_view(v@)),
    }
}

/// The values of a sequence of token trees.
pub open spec fn trees_view(s: Seq<TokTree>) -> Seq<TokTreeView>
    decreases s, 1int,
{
    if s.len() == 0 {
        Seq::empty()
    } else {
        trees_view(s.drop_last()).push(tree_view(s.last()))
    }
}

pub proof fn lemma_trees_view(s: Seq<TokTree>)
    ensures
        trees_view(s).len() == s.len(),
        forall|i: int| 0 <= i < s.len() ==> #[trigger] trees_view(s)[i] == tree_view(s[i]),
    decreases s.len(),
{
    if s.len() > 0 {
        lemma_trees_view(s.drop_last());
        assert forall|i: int| 0 <= i < s.len() implies #[trigger] trees_view(s)[i] == tree_view(s[i]) by {
            if i < s.len() - 1 {
                assert(s.drop_last()[i] == s[i]);
            }
        }
    }
}

/// The opening delimiter of a group as text; an invisible group is
/// printed in parentheses, which keep its contents together.
pub open spec fn open_text(d: Delim) -> Seq<char> {
    match d {
        Delim::Paren | Delim::Invisible => "("@,
        Delim::Bracket => "["@,
        Delim::Brace => "{"@,
    }
}

pub open spec fn close_text(d: Delim) -> Seq<char> {
    match d {
        Delim::Paren | Delim::Invisible => ")"@,
        Delim::Bracket => "]"@,
        Delim::Brace => "}"@,
    }
}

/// The text of an identifier: as written, but `$crate` (which only a macro
/// expansion makes, and which no text lexes back into) as `crate`.
pub open spec fn ident_text(s: Seq<char>) -> Seq<char> {
    if s == "$crate"@ {
        "crate"@
    } else {
        s
    }
}

/// The separator printed after token `t` when another token follows:
/// nothing after a joined punctuation character, a space otherwise.
pub open spec fn separator_after(t: TokTreeView) -> Seq<char> {
    match t {
        TokTreeView::Punct(_, true) => Seq::empty(),
        _ => " "@,
    }
}

/// The text of a token tree: a leaf as written (see [`ident_text`]), a
/// group as its delimiters around its printed contents.
pub open spec fn render_tree(t: TokTreeView) -> Seq<char>
    decreases t, 0int,
{
    match t {
        TokTreeView::Ident(s) => ident_text(s),
        TokTreeView::Punct(s, _) => s,
        TokTreeView::Literal(s) => s,
        TokTreeView::Group(d, ts) => open_text(d) + render(ts) + close_text(d),
    }
}

/// The text of a sequence of token trees, separated by single spaces
/// except after a joined punctuation character. Lexing the text gives the
/// same token trees back, but for two: an invisible group comes back as a
/// parenthesized one, and an identifier `$crate` as `crate`.
pub open spec fn render(ts: Seq<TokTreeView>) -> Seq<char>
    decreases ts, 1int,
{
    if ts.len() == 0 {
        Seq::empty()
    } else if ts.len() == 1 {
        render_tree(ts[0])
    } else {
        render(ts.drop_last()) + separator_after(ts[ts.len() - 2]) + render_tree(ts.last())
    }
}

/// Printing one more token tree extends the text.
pub proof fn lemma_render_step(s: Seq<TokTreeView>, start: int, k: int)
    requires
        0 <= start <= k < s.len(),
    ensures
        render(s.subrange(start, k + 1)) == if k == start {
            render_tree(s[k])
        } else {
            render(s.subrange(start, k)) + separator_after(s[k - 1]) + render_tree(s[k])
        },
{
    let t = s.subrange(start, k + 1);
    assert(t.drop_last() =~= s.subrange(start, k));
    if k > start {
        assert(t[t.len() - 2] == s[k - 1]);
    }
}

fn text_of_open(d: Delim) -> (r: &'static str)
    ensures
        r@ == open_text(d),
{
    match d {
        Delim::Paren => {
            proof { reveal_strlit("("); }
            "("
        },
        Delim::Bracket => {
            proof { reveal_strlit("["); }
            "["
        },
        Delim::Brace => {
            proof { reveal_strlit("{"); }
            "{"
        },
        Delim::Invisible => {
            proof { reveal_strlit("("); }
            "("
        },
    }
}

fn text_of_close(d: Delim) -> (r: &'static str)
    ensures
        r@ == close_text(d),
{
    match d {
        Delim::Paren => {
            proof { reveal_strlit(")"); }
            ")"
        },
        Delim::Bracket => {
            proof { reveal_strlit("]"); }
            "]"
        },
        Delim::Brace => {
            proof { reveal_strlit("}"); }
            "}"
        },
        Delim::Invisible => {
            proof { reveal_strlit(")"); }
            ")"
        },
    }
}

/// Prints one token tree (see [`render_tree`]).
pub fn render_one(t: &TokTree) -> (r: String)
    ensures
        r@ == render_tree(tree_view(*t)),
    decreases t,
{
    match t {
        TokTree::Ident(s) => {
            let dollar_crate = String::from_str("$crate");
            proof {
                reveal_strlit("$crate");
                reveal_strlit("crate");
            }
            if *s == dollar_crate {
                String::from_str("crate")
            } else {
                s.clone()
            }
        },
        TokTree::Punct(s, _) => s.clone(),
        TokTree::Literal(s) => s.clone(),
        TokTree::Group(d, v) => {
            let ghost s = trees_view(v@);
            proof { lemma_trees_view(v@); }
            let mut r = String::from_str(text_of_open(*d));
            let mut inner = String::new();
            let mut k: usize = 0;
            while k < v.len()
                invariant
                    *t == TokTree::Group(*d, *v),
                    s == trees_view(v@),
                    s.len() == v.len(),
                    forall|i: int| 0 <= i < v.len() ==> #[trigger] s[i] == tree_view(v@[i]),
                    k <= v.len(),
                    inner@ == render(s.subrange(0, k as int)),
                decreases v.len() - k,
            {
                proof {
                    assert(decreases_to!(*t => t->Group_1));
                    assert(t->Group_1 == *v);
                    assert(decreases_to!(*v => v@));
                    assert(decreases_to!(v@ => v@[k as int]));
                    lemma_render_step(s, 0, k as int);
                }
                if k > 0 {
                    match &v[k - 1] {
                        TokTree::Punct(_, true) => {},
                        _ => inner.append(" "),
                    }
                }
                let piece = render_one(&v[k]);
                inner.append(piece.as_str());
                k = k + 1;
            }
            assert(s.subrange(0, v.len() as int) =~= s);
            r.append(inner.as_str());
            r.append(text_of_close(*d));
            r
        },
    }
}

/// Prints the token trees `ts[start..end]` (see [`render`]).
pub fn render_range(ts: &Vec<TokTree>, start: usize, end: usize) -> (r: String)
    requires
        start <= end <= ts.len(),
    ensures
        r@ == render(trees_view(ts@).subrange(start as int, end as int)),
{
    let ghost s = trees_view(ts@);
    proof { lemma_trees_view(ts@); }
    let mut r = String::new();
    let mut k: usize = start;
    while k < end
        invariant
            start <= k <= end <= ts.len(),
            s == trees_view(ts@),
            s.len() == ts.len(),
            forall|i: int| 0 <= i < ts.len() ==> #[trigger] s[i] == tree_view(ts@[i]),
            r@ == render(s.subrange(start as int, k as int)),
        decreases end - k,
    {
        proof { lemma_render_step(s, start as int, k as int); }
        if k > start {
            match &ts[k - 1] {
                TokTree::Punct(_, true) => {},
                _ => r.append(" "),
            }
        }
        let piece = render_one(&ts[k]);
        r.append(piece.as_str());
        k = k + 1;
    }
    r
}

/// Whether `t` is a `,` punctuation token.
pub open spec fn is_comma(t: TokTreeView) -> bool {
    t matches TokTreeView::Punct(c, _) && c == ","@
}

/// Whether `t` is a `=` punctuation token, whatever its spacing.
pub open spec fn is_eq_sign(t: TokTreeView) -> bool {
    t matches TokTreeView::Punct(c, _) && c == "="@
}

pub fn tok_is_comma(t: &TokTree) -> (b: bool)
    ensures
        b == is_comma(tree_view(*t)),
{
    match t {
        TokTree::Punct(c, _) => {
            let comma = String::from_str(",");
            *c == comma
        },
        _ => false,
    }
}

pub fn tok_is_eq_sign(t: &TokTree) -> (b: bool)
    ensures
        b == is_eq_sign(tree_view(*t)),
{
    match t {
        TokTree::Punct(c, _) => {
            let eq = String::from_str("=");
            *c == eq
        },
        _ => false,
    }
}

} // verus!
