//! Calls into `syn` and `darling` that parse Rust syntax from text, with
//! their results reduced to plain shapes, and the division of an
//! attribute's tokens into its comma-separated items.

use vstd::prelude::*;
use darling::ast::NestedMeta;
use syn::Member::{Named, Unnamed};
use syn::parse::Parser;
use syn::punctuated::Punctuated;
use syn::token::Comma;
use syn::{Expr, ExprLit, ItemFn, Lit, Meta, ReturnType, Type};
use crate::model::{FnShape, FnShapeView, ReturnShape, TypeShape};
use crate::tokens::{
    is_comma, lemma_trees_view, render, render_range, tok_is_comma, tree_view, trees_view, TokTree,
    TokTreeView,
};

verus! {

/// The shape of a parsed expression, as far as label handling looks at it.
pub enum ExprShape {
    /// A string literal, with its value (escapes resolved).
    StrLit(String),
    /// A path expression: whether it starts with `::`, and for each of its
    /// segments the identifier and whether it has no generic arguments.
    Path(bool, Vec<(String, bool)>),
    /// A field access `base.member`, with the member's name or index.
    Field(String),
    /// Any other expression.
    Other,
}

pub enum ExprShapeView {
    StrLit(Seq<char>),
    Path(bool, Seq<(Seq<char>, bool)>),
    Field(Seq<char>),
    Other,
}

impl View for ExprShape {
    type V = ExprShapeView;

    open spec fn view(&self) -> ExprShapeView {
        match self {
            ExprShape::StrLit(s) => ExprShapeView::StrLit(s@),
            ExprShape::Path(lead, segs) => ExprShapeView::Path(*lead, segs.deep_view()),
            ExprShape::Field(s) => ExprShapeView::Field(s@),
            ExprShape::Other => ExprShapeView::Other,
        }
    }
}

/// What `syn` parses the tokens of `text` into as one whole expression:
/// its shape, or the parser's error message (empty when `text` does not
/// lex).
pub uninterp spec fn parsed_expr(text: Seq<char>) -> Result<ExprShapeView, Seq<char>>;

/// Lexes `text` into a `proc_macro2::TokenStream` and parses it with
/// `syn::parse2::<syn::Expr>`; reports the expression's shape (string
/// literal value from `LitStr::value`, path segment identifiers, field
/// member) or the error's message. Trusted: the result is
/// `parsed_expr(text)`: the tokens of a text, and syn's parse of them and
/// its messages, depend on the text alone.
#[verifier::external_body]
pub(crate) fn parse_expr(text: &str) -> (r: Result<ExprShape, String>)
    ensures
        match r {
            Ok(s) => parsed_expr(text@) == Ok::<ExprShapeView, Seq<char>>(s@),
            Err(e) => parsed_expr(text@) == Err::<ExprShapeView, Seq<char>>(e@),
        },
{
    Ok(match syn::parse2::<Expr>(text.parse().map_err(|_| String::new())?).map_err(|e| e.to_string())? {
        Expr::Lit(ExprLit { lit: Lit::Str(s), .. }) => ExprShape::StrLit(s.value()),
        Expr::Path(p) => ExprShape::Path(p.path.leading_colon.is_some(),
            p.path.segments.iter().map(|s| (s.ident.to_string(), s.arguments.is_none())).collect()),
        Expr::Field(f) => ExprShape::Field(match f.member { Named(i) => i.to_string(), Unnamed(x) => x.index.to_string() }),
        _ => ExprShape::Other,
    })
}

/// The message of `syn`'s error when it reads the tokens of `text` as
/// comma-separated expressions with an optional trailing comma, or none
/// when they read so (empty when `text` does not lex).
pub uninterp spec fn expr_list_error(text: Seq<char>) -> Option<Seq<char>>;

/// Lexes `text` and parses it with
/// `Punctuated::<syn::Expr, syn::token::Comma>::parse_terminated`; reports
/// the error's message, if any. Trusted: the result is
/// `expr_list_error(text)`.
#[verifier::external_body]
pub(crate) fn check_expr_list(text: &str) -> (r: Option<String>)
    ensures
        match r {
            Some(m) => expr_list_error(text@) == Some(m@),
            None => expr_list_error(text@) is None,
        },
{
    match text.parse() {
        Ok(ts) => Punctuated::<Expr, Comma>::parse_terminated.parse2(ts).err().map(|e| e.to_string()),
        Err(_) => Some(String::new()),
    }
}

/// The single identifier of a path, as `syn::Path::get_ident` gives it:
/// the path has no leading `::`, one segment, and that segment has no
/// generic arguments.
pub open spec fn path_ident(leading_colon: bool, segments: Seq<(Seq<char>, bool)>) -> Option<Seq<char>> {
    if !leading_colon && segments.len() == 1 && segments[0].1 {
        Some(segments[0].0)
    } else {
        None
    }
}

/// Gives the single identifier of a path (see [`path_ident`]).
pub fn get_ident(leading_colon: bool, segments: &Vec<(String, bool)>) -> (r: Option<String>)
    ensures
        match r {
            Some(s) => path_ident(leading_colon, segments.deep_view()) == Some(s@),
            None => path_ident(leading_colon, segments.deep_view()) is None,
        },
{
    if !leading_colon && segments.len() == 1 && segments[0].1 {
        Some(segments[0].0.clone())
    } else {
        None
    }
}

/// Whether `syn` accepts `name` as an identifier (`syn::Ident`'s parser,
/// which refuses keywords and `_`). Which names those are is not spelled
/// out here; the name stands for syn's answer.
pub uninterp spec fn plain_ident(name: Seq<char>) -> bool;

/// Parses `name` with `syn::parse_str::<syn::Ident>`, which is what
/// `ParseStream::peek(syn::Ident)` accepts of an identifier token.
/// Trusted: the result is `plain_ident(name)`.
#[verifier::external_body]
pub(crate) fn is_plain_ident(name: &str) -> (b: bool)
    ensures
        b == plain_ident(name@),
{
    syn::parse_str::<syn::Ident>(name).is_ok()
}

/// The kind of one attribute item (`darling::ast::NestedMeta`).
#[derive(Clone, Copy, Debug, PartialEq, Eq, Structural)]
pub enum MetaKind {
    /// A literal.
    Lit,
    /// A bare path: `name`.
    Path,
    /// A path with a delimited list: `name(...)`.
    List,
    /// `name = value`.
    NameValue,
}

/// The shape of one attribute item: its kind and, but for a literal, its
/// path (whether it starts with `::`, and the identifiers of its
/// segments; the path of an attribute item has no generic arguments).
pub struct MetaShape {
    pub kind: MetaKind,
    pub leading_colon: bool,
    pub segments: Vec<String>,
}

pub struct MetaShapeView {
    pub kind: MetaKind,
    pub leading_colon: bool,
    pub segments: Seq<Seq<char>>,
}

impl View for MetaShape {
    type V = MetaShapeView;

    open spec fn view(&self) -> MetaShapeView {
        MetaShapeView { kind: self.kind, leading_colon: self.leading_colon, segments: self.segments.deep_view() }
    }
}

/// What `darling` parses the tokens of `text` into as one whole attribute
/// item: its shape, or the parser's error message (empty when `text` does
/// not lex).
pub uninterp spec fn parsed_meta(text: Seq<char>) -> Result<MetaShapeView, Seq<char>>;

/// Lexes `text` and parses it with `syn::parse2::<NestedMeta>` (darling's
/// parser for one item of an attribute list); reports the item's kind and
/// path segment identifiers, or the error's message. Trusted: the result
/// is `parsed_meta(text)`.
#[verifier::external_body]
pub(crate) fn parse_meta(text: &str) -> (r: Result<MetaShape, String>)
    ensures
        match r {
            Ok(s) => parsed_meta(text@) == Ok::<MetaShapeView, Seq<char>>(s@),
            Err(e) => parsed_meta(text@) == Err::<MetaShapeView, Seq<char>>(e@),
        },
{
    let (kind, p) = match syn::parse2::<NestedMeta>(text.parse().map_err(|_| String::new())?).map_err(|e| e.to_string())? {
        NestedMeta::Lit(_) => return Ok(MetaShape { kind: MetaKind::Lit, leading_colon: false, segments: Vec::new() }),
        NestedMeta::Meta(Meta::Path(p)) => (MetaKind::Path, p),
        NestedMeta::Meta(Meta::List(l)) => (MetaKind::List, l.path),
        NestedMeta::Meta(Meta::NameValue(nv)) => (MetaKind::NameValue, nv.path),
    };
    Ok(MetaShape { kind, leading_colon: p.leading_colon.is_some(), segments: p.segments.iter().map(|s| s.ident.to_string()).collect() })
}

/// The message of `darling`'s error when it reads the tokens of `text` as
/// an attribute's argument list, or none when they read so (empty when
/// `text` does not lex).
pub uninterp spec fn meta_list_error(text: Seq<char>) -> Option<Seq<char>>;

/// Lexes `text` and parses it with `NestedMeta::parse_meta_list`; reports
/// the error's message, if any. Trusted: the result is
/// `meta_list_error(text)`.
#[verifier::external_body]
pub(crate) fn check_meta_list(text: &str) -> (r: Option<String>)
    ensures
        match r {
            Some(m) => meta_list_error(text@) == Some(m@),
            None => meta_list_error(text@) is None,
        },
{
    match text.parse() {
        Ok(ts) => NestedMeta::parse_meta_list(ts).err().map(|e| e.to_string()),
        Err(_) => Some(String::new()),
    }
}

/// The error reported for an attribute list whose items from token `i` on
/// cannot be divided: darling's message for those tokens, or, should
/// darling accept them, `e`.
pub open spec fn meta_list_message(toks: Seq<TokTreeView>, i: int, e: Seq<char>) -> Seq<char> {
    match meta_list_error(render(toks.subrange(i, toks.len() as int))) {
        Some(m) => m,
        None => e,
    }
}

/// The single identifier of an item's path (`syn::Path::get_ident`; the
/// path of an attribute item has no generic arguments): the path has no
/// leading `::` and one segment.
pub open spec fn meta_ident(m: MetaShapeView) -> Option<Seq<char>> {
    if !m.leading_colon && m.segments.len() == 1 {
        Some(m.segments[0])
    } else {
        None
    }
}

/// Gives the single identifier of an item's path (see [`meta_ident`]).
pub fn meta_get_ident(m: &MetaShape) -> (r: Option<String>)
    ensures
        match r {
            Some(s) => meta_ident(m@) == Some(s@),
            None => meta_ident(m@) is None,
        },
{
    if !m.leading_colon && m.segments.len() == 1 {
        Some(m.segments[0].clone())
    } else {
        None
    }
}

/// The item that starts at token `start`, looking for its end from token
/// `j` on: the first position, at a `,` or at the end of the tokens, where
/// the tokens since `start` parse as one whole item. Gives that end and
/// the item's shape; when no such position exists, the parser's message
/// for the tokens up to the end.
pub open spec fn meta_from(toks: Seq<TokTreeView>, start: int, j: int) -> Result<(int, MetaShapeView), Seq<char>>
    decreases toks.len() - j,
{
    if j >= toks.len() {
        match parsed_meta(render(toks.subrange(start, toks.len() as int))) {
            Ok(shape) => Ok((toks.len() as int, shape)),
            Err(e) => Err(e),
        }
    } else if is_comma(toks[j]) {
        match parsed_meta(render(toks.subrange(start, j))) {
            Ok(shape) => Ok((j, shape)),
            Err(_) => meta_from(toks, start, j + 1),
        }
    } else {
        meta_from(toks, start, j + 1)
    }
}

pub proof fn lemma_meta_from_end(toks: Seq<TokTreeView>, start: int, j: int)
    requires
        0 <= start <= j <= toks.len(),
    ensures
        meta_from(toks, start, j) matches Ok((end, _)) ==> {
            &&& j <= end <= toks.len()
            &&& end < toks.len() ==> is_comma(toks[end])
        },
    decreases toks.len() - j,
{
    if j < toks.len() {
        lemma_meta_from_end(toks, start, j + 1);
    }
}

/// One item of an attribute: its shape and the tokens `start..end` it
/// spans.
pub struct MetaItem {
    pub shape: MetaShape,
    pub start: usize,
    pub end: usize,
}

pub struct MetaItemView {
    pub shape: MetaShapeView,
    pub start: int,
    pub end: int,
}

impl View for MetaItem {
    type V = MetaItemView;

    open spec fn view(&self) -> MetaItemView {
        MetaItemView { shape: self.shape@, start: self.start as int, end: self.end as int }
    }
}

impl DeepView for MetaItem {
    type V = MetaItemView;

    open spec fn deep_view(&self) -> MetaItemView {
        self@
    }
}

/// The comma-separated items of an attribute from token `i` on, with an
/// optional trailing comma (what `NestedMeta::parse_meta_list` reads), or,
/// for the first item that does not parse, darling's message for the list
/// from there on.
pub open spec fn meta_items(toks: Seq<TokTreeView>, i: int) -> Result<Seq<MetaItemView>, Seq<char>>
    decreases toks.len() - i,
{
    if i < 0 || i >= toks.len() {
        Ok(Seq::empty())
    } else {
        match meta_from(toks, i, i) {
            Err(e) => Err(meta_list_message(toks, i, e)),
            Ok((end, shape)) => {
                let item = MetaItemView { shape, start: i, end };
                if end >= toks.len() {
                    Ok(seq![item])
                } else {
                    proof { lemma_meta_from_end(toks, i, i); }
                    match meta_items(toks, end + 1) {
                        Ok(rest) => Ok(seq![item] + rest),
                        Err(e) => Err(e),
                    }
                }
            },
        }
    }
}

/// Every item spans a range of tokens at or after `i`.
pub proof fn lemma_meta_items_ranges(toks: Seq<TokTreeView>, i: int)
    requires
        0 <= i,
    ensures
        meta_items(toks, i) matches Ok(items) ==> forall|k: int| 0 <= k < items.len()
            ==> i <= (#[trigger] items[k]).start <= items[k].end <= toks.len(),
    decreases toks.len() - i,
{
    if i < toks.len() {
        lemma_meta_from_end(toks, i, i);
        match meta_from(toks, i, i) {
            Ok((end, shape)) => {
                if end < toks.len() {
                    lemma_meta_items_ranges(toks, end + 1);
                    match meta_items(toks, end + 1) {
                        Ok(rest) => {
                            let item = MetaItemView { shape, start: i, end };
                            let all = seq![item] + rest;
                            assert forall|k: int| 0 <= k < all.len() implies i <= (#[trigger] all[k]).start <= all[k].end <= toks.len() by {
                                if k > 0 {
                                    assert(all[k] == rest[k - 1]);
                                }
                            }
                        },
                        Err(_) => {},
                    }
                }
            },
            Err(_) => {},
        }
    }
}

/// Parses the item that starts at token `start` (see [`meta_from`]).
fn parse_meta_at(toks: &Vec<TokTree>, start: usize) -> (r: Result<(usize, MetaShape), String>)
    requires
        start <= toks.len(),
    ensures
        match r {
            Ok((end, shape)) => meta_from(trees_view(toks@), start as int, start as int) == Ok::<(int, MetaShapeView), Seq<char>>((end as int, shape@)),
            Err(e) => meta_from(trees_view(toks@), start as int, start as int) == Err::<(int, MetaShapeView), Seq<char>>(e@),
        },
{
    let ghost s = trees_view(toks@);
    proof { lemma_trees_view(toks@); }
    let mut j: usize = start;
    while j < toks.len()
        invariant
            start <= j <= toks.len(),
            s == trees_view(toks@),
            s.len() == toks.len(),
            forall|i: int| 0 <= i < toks.len() ==> #[trigger] s[i] == tree_view(toks@[i]),
            meta_from(s, start as int, start as int) == meta_from(s, start as int, j as int),
        decreases toks.len() - j,
    {
        if tok_is_comma(&toks[j]) {
            let text = render_range(toks, start, j);
            match parse_meta(text.as_str()) {
                Ok(shape) => {
                    return Ok((j, shape));
                },
                Err(_) => {},
            }
        }
        j = j + 1;
    }
    let text = render_range(toks, start, toks.len());
    match parse_meta(text.as_str()) {
        Ok(shape) => Ok((toks.len(), shape)),
        Err(e) => Err(e),
    }
}

/// Puts `done` in front of the items of a result.
pub open spec fn prepend_items(done: Seq<MetaItemView>, r: Result<Seq<MetaItemView>, Seq<char>>) -> Result<Seq<MetaItemView>, Seq<char>> {
    match r {
        Ok(rest) => Ok(done + rest),
        Err(e) => Err(e),
    }
}

/// Divides the tokens of an attribute's arguments into its items (see
/// [`meta_items`]).
pub fn parse_meta_items(toks: &Vec<TokTree>) -> (r: Result<Vec<MetaItem>, String>)
    ensures
        match r {
            Ok(items) => meta_items(trees_view(toks@), 0) == Ok::<Seq<MetaItemView>, Seq<char>>(items.deep_view()),
            Err(e) => meta_items(trees_view(toks@), 0) == Err::<Seq<MetaItemView>, Seq<char>>(e@),
        },
{
    let ghost s = trees_view(toks@);
    proof { lemma_trees_view(toks@); }
    let mut items: Vec<MetaItem> = Vec::new();
    let mut i: usize = 0;
    proof {
        match meta_items(s, 0) {
            Ok(rest) => assert(items.deep_view() + rest =~= rest),
            Err(_) => {},
        }
    }
    while i < toks.len()
        invariant
            i <= toks.len(),
            s == trees_view(toks@),
            s.len() == toks.len(),
            meta_items(s, 0) == prepend_items(items.deep_view(), meta_items(s, i as int)),
        decreases toks.len() - i,
    {
        proof { lemma_meta_from_end(s, i as int, i as int); }
        match parse_meta_at(toks, i) {
            Err(e) => {
                let rest = render_range(toks, i, toks.len());
                return match check_meta_list(rest.as_str()) {
                    Some(m) => Err(m),
                    None => Err(e),
                };
            },
            Ok((end, shape)) => {
                let ghost prev = items.deep_view();
                let item = MetaItem { shape, start: i, end };
                let ghost iv = item@;
                items.push(item);
                assert(items.deep_view() =~= prev.push(iv));
                if end < toks.len() {
                    proof {
                        match meta_items(s, end + 1) {
                            Ok(rest) => assert(prev + (seq![iv] + rest) =~= prev.push(iv) + rest),
                            Err(_) => {},
                        }
                    }
                    i = end + 1;
                } else {
                    assert(prev + seq![iv] =~= prev.push(iv) + Seq::<MetaItemView>::empty());
                    i = end;
                }
            },
        }
    }
    assert(items.deep_view() + Seq::<MetaItemView>::empty() =~= items.deep_view());
    Ok(items)
}

/// The tokens inside a `labels(...)` list: when the item is a list whose
/// path is the identifier `labels`, the contents of its group (the last
/// token it spans).
pub open spec fn labels_list_tokens(toks: Seq<TokTreeView>, item: MetaItemView) -> Option<Seq<TokTreeView>> {
    if item.shape.kind == MetaKind::List && meta_ident(item.shape) == Some("labels"@)
        && 0 <= item.start < item.end <= toks.len() {
        match toks[item.end - 1] {
            TokTreeView::Group(_, inner) => Some(inner),
            _ => None,
        }
    } else {
        None
    }
}

/// Gives the tokens inside `item` when it is a `labels(...)` list (see
/// [`labels_list_tokens`]).
pub fn labels_list_of<'a>(toks: &'a Vec<TokTree>, item: &MetaItem) -> (r: Option<&'a Vec<TokTree>>)
    ensures
        match r {
            Some(inner) => labels_list_tokens(trees_view(toks@), item@) == Some(trees_view(inner@)),
            None => labels_list_tokens(trees_view(toks@), item@) is None,
        },
{
    proof { lemma_trees_view(toks@); }
    if item.shape.kind != MetaKind::List || !(item.start < item.end && item.end <= toks.len()) {
        return None;
    }
    match meta_get_ident(&item.shape) {
        Some(name) => {
            let labels_name = String::from_str("labels");
            proof { reveal_strlit("labels"); }
            if name != labels_name {
                return None;
            }
        },
        None => {
            return None;
        },
    }
    match &toks[item.end - 1] {
        TokTree::Group(_, inner) => Some(inner),
        _ => None,
    }
}

/// What `syn` parses the tokens of `text` into as a function item: what
/// the macros read of its signature, or the parser's error message (empty
/// when `text` does not lex).
pub uninterp spec fn parsed_fn(text: Seq<char>) -> Result<FnShapeView, Seq<char>>;

/// Lexes `text` and parses it with `syn::parse2::<syn::ItemFn>`; reports
/// the function's name, whether it is `async`, and its declared return
/// type (a path type's segment identifiers), or the error's message.
/// Trusted: the result is `parsed_fn(text)`.
#[verifier::external_body]
pub(crate) fn parse_fn(text: &str) -> (r: Result<FnShape, String>)
    ensures
        match r {
            Ok(s) => parsed_fn(text@) == Ok::<FnShapeView, Seq<char>>(s@),
            Err(e) => parsed_fn(text@) == Err::<FnShapeView, Seq<char>>(e@),
        },
{
    let f = syn::parse2::<ItemFn>(text.parse().map_err(|_| String::new())?).map_err(|e| e.to_string())?;
    Ok(FnShape { name: f.sig.ident.to_string(), is_async: f.sig.asyncness.is_some(), output: match f.sig.output {
        ReturnType::Default => ReturnShape::Default,
        ReturnType::Type(_, t) => ReturnShape::Type(match *t {
            Type::Path(tp) => TypeShape::Path(tp.path.segments.iter().map(|s| s.ident.to_string()).collect()),
            _ => TypeShape::Other,
        }),
    } })
}

/// Reads what the macros need of the annotated function's signature from
/// its tokens.
pub fn fn_shape(item: &Vec<TokTree>) -> (r: Result<FnShape, String>)
    ensures
        match r {
            Ok(s) => parsed_fn(render(trees_view(item@))) == Ok::<FnShapeView, Seq<char>>(s@),
            Err(e) => parsed_fn(render(trees_view(item@))) == Err::<FnShapeView, Seq<char>>(e@),
        },
{
    proof { lemma_trees_view(item@); }
    let text = render_range(item, 0, item.len());
    assert(trees_view(item@).subrange(0, item.len() as int) =~= trees_view(item@));
    parse_fn(text.as_str())
}

} // verus!
