//! `#[instrument]`: metric names derived from the function's name, and
//! labels that may be static strings, parameters, or field accesses whose
//! values are captured before the body runs.

use vstd::prelude::*;
use crate::model::{
    clone_pairs, opt_view, FnShapeView, Label, LabelCode, LabelCodeView, LabelPair, LabelPairView,
    LabelValue, LabelValueView, LabelView, MacroError, MacroErrorView, MetricNameArgs,
    MetricNameArgsView, Step, StepView,
};
use crate::plan::{body_steps, build_async_body, build_sync_body, fn_returns_result, returns_result, run_step};
use crate::syntax::{
    check_expr_list, expr_list_error, fn_shape, get_ident, is_plain_ident, labels_list_of,
    labels_list_tokens, meta_items, parse_expr, parse_meta_items, parsed_expr, parsed_fn, path_ident,
    plain_ident, ExprShape, ExprShapeView, MetaItem, MetaItemView,
};
use crate::tokens::{
    is_comma, is_eq_sign, lemma_trees_view, render, render_range, tok_is_comma, tok_is_eq_sign,
    tree_view, trees_view, TokTree, TokTreeView,
};

verus! {

// ---------------------------------------------------------------------------
// The label grammar
// ---------------------------------------------------------------------------

/// The expression that starts at token `start`, looking for its end from
/// token `j` on: the first position, at a `,` or at the end of the tokens,
/// where the tokens since `start` parse as one whole expression. Gives that
/// end and the expression's shape; when no such position exists, the
/// parser's message for the tokens up to the end.
pub open spec fn expr_from(toks: Seq<TokTreeView>, start: int, j: int) -> Result<(int, ExprShapeView), Seq<char>>
    decreases toks.len() - j,
{
    if j >= toks.len() {
        match parsed_expr(render(toks.subrange(start, toks.len() as int))) {
            Ok(shape) => Ok((toks.len() as int, shape)),
            Err(e) => Err(e),
        }
    } else if is_comma(toks[j]) {
        match parsed_expr(render(toks.subrange(start, j))) {
            Ok(shape) => Ok((j, shape)),
            Err(_) => expr_from(toks, start, j + 1),
        }
    } else {
        expr_from(toks, start, j + 1)
    }
}

/// An expression found by [`expr_from`] ends at or after `j`, at a `,` or
/// at the end of the tokens.
pub proof fn lemma_expr_from_end(toks: Seq<TokTreeView>, start: int, j: int)
    requires
        0 <= start <= j <= toks.len(),
    ensures
        expr_from(toks, start, j) matches Ok((end, _)) ==> {
            &&& j <= end <= toks.len()
            &&& end < toks.len() ==> is_comma(toks[end])
        },
    decreases toks.len() - j,
{
    if j < toks.len() {
        lemma_expr_from_end(toks, start, j + 1);
    }
}

/// The error reported for a label list whose item does not parse, from
/// token `i` on (the item's start, or for `key = value` the value's):
/// syn's message for the tokens from there on read as comma-separated
/// expressions, or, should syn accept them, `e`.
pub open spec fn list_message(toks: Seq<TokTreeView>, i: int, e: Seq<char>) -> Seq<char> {
    match expr_list_error(render(toks.subrange(i, toks.len() as int))) {
        Some(m) => m,
        None => e,
    }
}

pub open spec fn msg_simple_ident() -> Seq<char> {
    "expected simple identifier for label"@
}

pub open spec fn msg_bad_label() -> Seq<char> {
    "expected identifier, field access (e.g., request.method), or key = value"@
}

/// An identifier token that can be a label's key: one that is not a
/// keyword (what `ParseStream::peek(syn::Ident)` accepts).
pub open spec fn key_token(t: TokTreeView) -> Option<Seq<char>> {
    match t {
        TokTreeView::Ident(name) => if plain_ident(name) { Some(name) } else { None },
        _ => None,
    }
}

/// One label item starting at token `i`, and the token position where it
/// ends:
/// - `key = "value"`: a static label;
/// - `key = expr`: a dynamic label under `key`;
/// - `name`: a dynamic label from a variable, keyed by its name;
/// - `base.member`: a dynamic label from a field, keyed by the member.
/// `key` must be an identifier that is not a keyword; the `=` after it is
/// taken whatever follows it (`key => v` reads a value starting at `>`),
/// as `peek2(Token![=])` does.
pub open spec fn label_item(toks: Seq<TokTreeView>, i: int) -> Result<(LabelView, int), Seq<char>> {
    if i + 1 < toks.len() && key_token(toks[i]) is Some && is_eq_sign(toks[i + 1]) {
        match expr_from(toks, i + 2, i + 2) {
            Err(e) => Err(list_message(toks, i + 2, e)),
            Ok((end, shape)) => {
                let value = match shape {
                    ExprShapeView::StrLit(v) => LabelValueView::Static(v),
                    _ => LabelValueView::Dynamic(render(toks.subrange(i + 2, end))),
                };
                Ok((LabelView { key: key_token(toks[i])->Some_0, value }, end))
            },
        }
    } else {
        match expr_from(toks, i, i) {
            Err(e) => Err(list_message(toks, i, e)),
            Ok((end, shape)) => {
                let value = LabelValueView::Dynamic(render(toks.subrange(i, end)));
                match shape {
                    ExprShapeView::Path(lead, segs) => match path_ident(lead, segs) {
                        Some(key) => Ok((LabelView { key, value }, end)),
                        None => Err(msg_simple_ident()),
                    },
                    ExprShapeView::Field(member) => Ok((LabelView { key: member, value }, end)),
                    _ => Err(msg_bad_label()),
                }
            },
        }
    }
}

/// A label item ends at or after its start, at a `,` or at the end.
pub proof fn lemma_label_item_end(toks: Seq<TokTreeView>, i: int)
    requires
        0 <= i < toks.len(),
    ensures
        label_item(toks, i) matches Ok((_, end)) ==> {
            &&& i <= end <= toks.len()
            &&& end < toks.len() ==> is_comma(toks[end])
        },
{
    if i + 1 < toks.len() && key_token(toks[i]) is Some && is_eq_sign(toks[i + 1]) {
        lemma_expr_from_end(toks, i + 2, i + 2);
    } else {
        lemma_expr_from_end(toks, i, i);
    }
}

/// The comma-separated label items from token `i` on, with an optional
/// trailing comma.
pub open spec fn label_list(toks: Seq<TokTreeView>, i: int) -> Result<Seq<LabelView>, Seq<char>>
    decreases toks.len() - i,
{
    if i < 0 || i >= toks.len() {
        Ok(Seq::empty())
    } else {
        match label_item(toks, i) {
            Err(e) => Err(e),
            Ok((label, end)) => if end >= toks.len() {
                Ok(seq![label])
            } else {
                proof { lemma_label_item_end(toks, i); }
                match label_list(toks, end + 1) {
                    Ok(rest) => Ok(seq![label] + rest),
                    Err(e) => Err(e),
                }
            },
        }
    }
}

fn key_of(t: &TokTree) -> (r: Option<String>)
    ensures
        match r {
            Some(k) => key_token(tree_view(*t)) == Some(k@),
            None => key_token(tree_view(*t)) is None,
        },
{
    match t {
        TokTree::Ident(name) => if is_plain_ident(name.as_str()) { Some(name.clone()) } else { None },
        _ => None,
    }
}

/// Parses the expression that starts at token `start` (see [`expr_from`]);
/// gives its end, its shape and its text.
pub fn parse_expr_at(toks: &Vec<TokTree>, start: usize) -> (r: Result<(usize, ExprShape, String), String>)
    requires
        start <= toks.len(),
    ensures
        match r {
            Ok((end, shape, text)) => {
                &&& expr_from(trees_view(toks@), start as int, start as int) == Ok::<(int, ExprShapeView), Seq<char>>((end as int, shape@))
                &&& start <= end <= toks.len()
                &&& text@ == render(trees_view(toks@).subrange(start as int, end as int))
            },
            Err(e) => expr_from(trees_view(toks@), start as int, start as int) == Err::<(int, ExprShapeView), Seq<char>>(e@),
        },
{
    let ghost dv = trees_view(toks@);
    proof { lemma_trees_view(toks@); }
    let mut j: usize = start;
    while j < toks.len()
        invariant
            start <= j <= toks.len(),
            dv == trees_view(toks@),
            dv.len() == toks.len(),
            forall|i: int| 0 <= i < toks.len() ==> #[trigger] dv[i] == tree_view(toks@[i]),
            expr_from(dv, start as int, start as int) == expr_from(dv, start as int, j as int),
        decreases toks.len() - j,
    {
        if tok_is_comma(&toks[j]) {
            let text = render_range(toks, start, j);
            match parse_expr(text.as_str()) {
                Ok(shape) => {
                    return Ok((j, shape, text));
                },
                Err(_) => {},
            }
        }
        j = j + 1;
    }
    let text = render_range(toks, start, toks.len());
    match parse_expr(text.as_str()) {
        Ok(shape) => Ok((toks.len(), shape, text)),
        Err(e) => Err(e),
    }
}

/// Gives the error for a label list whose item at token `i` does not parse
/// (see [`list_message`]).
fn list_error(toks: &Vec<TokTree>, i: usize, e: String) -> (r: String)
    requires
        i <= toks.len(),
    ensures
        r@ == list_message(trees_view(toks@), i as int, e@),
{
    proof { lemma_trees_view(toks@); }
    let rest = render_range(toks, i, toks.len());
    match check_expr_list(rest.as_str()) {
        Some(m) => m,
        None => e,
    }
}

/// Parses one label item at token `i` (see [`label_item`]).
pub fn parse_label_item(toks: &Vec<TokTree>, i: usize) -> (r: Result<(Label, usize), String>)
    requires
        i < toks.len(),
    ensures
        match r {
            Ok((label, end)) => label_item(trees_view(toks@), i as int) == Ok::<(LabelView, int), Seq<char>>((label@, end as int)),
            Err(e) => label_item(trees_view(toks@), i as int) == Err::<(LabelView, int), Seq<char>>(e@),
        },
{
    proof { lemma_trees_view(toks@); }
    let key = if i + 1 < toks.len() && tok_is_eq_sign(&toks[i + 1]) { key_of(&toks[i]) } else { None };
    match key {
        Some(key) => match parse_expr_at(toks, i + 2) {
            Err(e) => Err(list_error(toks, i + 2, e)),
            Ok((end, shape, text)) => {
                let value = match shape {
                    ExprShape::StrLit(v) => LabelValue::Static(v),
                    _ => LabelValue::Dynamic(text),
                };
                Ok((Label { key, value }, end))
            },
        },
        None => match parse_expr_at(toks, i) {
            Err(e) => Err(list_error(toks, i, e)),
            Ok((end, shape, text)) => {
                match shape {
                    ExprShape::Path(lead, segs) => match get_ident(lead, &segs) {
                        Some(key) => Ok((Label { key, value: LabelValue::Dynamic(text) }, end)),
                        None => Err(String::from_str("expected simple identifier for label")),
                    },
                    ExprShape::Field(member) => Ok((Label { key: member, value: LabelValue::Dynamic(text) }, end)),
                    _ => Err(String::from_str("expected identifier, field access (e.g., request.method), or key = value")),
                }
            },
        },
    }
}

/// Puts `done` in front of the labels of a result.
pub open spec fn prepend_labels(done: Seq<LabelView>, r: Result<Seq<LabelView>, Seq<char>>) -> Result<Seq<LabelView>, Seq<char>> {
    match r {
        Ok(rest) => Ok(done + rest),
        Err(e) => Err(e),
    }
}

/// Parses a whole comma-separated list of label items (see [`label_list`]).
pub fn parse_label_items(toks: &Vec<TokTree>) -> (r: Result<Vec<Label>, String>)
    ensures
        match r {
            Ok(labels) => label_list(trees_view(toks@), 0) == Ok::<Seq<LabelView>, Seq<char>>(labels.deep_view()),
            Err(e) => label_list(trees_view(toks@), 0) == Err::<Seq<LabelView>, Seq<char>>(e@),
        },
{
    let ghost dv = trees_view(toks@);
    proof { lemma_trees_view(toks@); }
    let mut labels: Vec<Label> = Vec::new();
    let mut i: usize = 0;
    assert(labels.deep_view() + Seq::<LabelView>::empty() =~= Seq::<LabelView>::empty());
    proof {
        match label_list(dv, 0) {
            Ok(rest) => assert(labels.deep_view() + rest =~= rest),
            Err(_) => {},
        }
    }
    while i < toks.len()
        invariant
            i <= toks.len(),
            dv == trees_view(toks@),
            dv.len() == toks.len(),
            label_list(dv, 0) == prepend_labels(labels.deep_view(), label_list(dv, i as int)),
        decreases toks.len() - i,
    {
        proof { lemma_label_item_end(dv, i as int); }
        match parse_label_item(toks, i) {
            Err(e) => {
                return Err(e);
            },
            Ok((label, end)) => {
                let ghost prev = labels.deep_view();
                let ghost lv = label@;
                labels.push(label);
                assert(labels.deep_view() =~= prev.push(lv));
                if end < toks.len() {
                    proof {
                        match label_list(dv, end + 1) {
                            Ok(rest) => assert(prev + (seq![lv] + rest) =~= prev.push(lv) + rest),
                            Err(_) => {},
                        }
                    }
                    i = end + 1;
                } else {
                    assert(prev + seq![lv] =~= prev.push(lv) + Seq::<LabelView>::empty());
                    i = end;
                }
            },
        }
    }
    assert(labels.deep_view() + Seq::<LabelView>::empty() =~= labels.deep_view());
    Ok(labels)
}

// ---------------------------------------------------------------------------
// Finding the labels in the attribute
// ---------------------------------------------------------------------------

/// The labels of the attribute's items from item `i` on: those of the
/// first `labels(...)` list (later ones are not read), or none when there
/// is no such list. A list that does not parse gives its error.
pub open spec fn labels_from_meta(attr: Seq<TokTreeView>, items: Seq<MetaItemView>, i: int) -> Result<Seq<LabelView>, MacroErrorView>
    decreases items.len() - i,
{
    if i < 0 || i >= items.len() {
        Ok(Seq::empty())
    } else {
        match labels_list_tokens(attr, items[i]) {
            Some(inner) => match label_list(inner, 0) {
                Ok(labels) => Ok(labels),
                Err(e) => Err(MacroErrorView::Custom(e)),
            },
            None => labels_from_meta(attr, items, i + 1),
        }
    }
}

/// Reads the labels of the attribute, given its tokens and its items (see
/// [`labels_from_meta`]).
pub fn parse_labels_from_meta(attr: &Vec<TokTree>, attr_args: &Vec<MetaItem>) -> (r: Result<Vec<Label>, MacroError>)
    ensures
        match r {
            Ok(labels) => labels_from_meta(trees_view(attr@), attr_args.deep_view(), 0) == Ok::<Seq<LabelView>, MacroErrorView>(labels.deep_view()),
            Err(e) => labels_from_meta(trees_view(attr@), attr_args.deep_view(), 0) == Err::<Seq<LabelView>, MacroErrorView>(e@),
        },
{
    let ghost dv = attr_args.deep_view();
    let ghost tv = trees_view(attr@);
    let mut i: usize = 0;
    while i < attr_args.len()
        invariant
            i <= attr_args.len(),
            dv == attr_args.deep_view(),
            tv == trees_view(attr@),
            labels_from_meta(tv, dv, 0) == labels_from_meta(tv, dv, i as int),
        decreases attr_args.len() - i,
    {
        match labels_list_of(attr, &attr_args[i]) {
            Some(inner) => {
                return match parse_label_items(inner) {
                    Ok(labels) => Ok(labels),
                    Err(e) => Err(MacroError::Custom(e)),
                };
            },
            None => {},
        }
        i = i + 1;
    }
    let none: Vec<Label> = Vec::new();
    assert(none.deep_view() =~= Seq::<LabelView>::empty());
    Ok(none)
}

// ---------------------------------------------------------------------------
// Label code
// ---------------------------------------------------------------------------

/// The variable that holds the captured value of the label with key `key`.
pub open spec fn capture_var(key: Seq<char>) -> Seq<char> {
    "__metrics_label_"@ + key
}

/// The capture step of a label: none for a static label.
pub open spec fn capture_of(label: LabelView) -> Seq<StepView> {
    match label.value {
        LabelValueView::Static(_) => Seq::empty(),
        LabelValueView::Dynamic(expr) => seq![StepView::CaptureLabel { var: capture_var(label.key), expr }],
    }
}

/// The capture steps of the labels, in label order.
pub open spec fn label_captures(labels: Seq<LabelView>) -> Seq<StepView>
    decreases labels.len(),
{
    if labels.len() == 0 {
        Seq::empty()
    } else {
        label_captures(labels.drop_last()) + capture_of(labels.last())
    }
}

/// The `key => value` pair of a label: the literal for a static label, a
/// clone of its captured value for a dynamic one.
pub open spec fn pair_of(label: LabelView) -> LabelPairView {
    LabelPairView {
        key: label.key,
        value: match label.value {
            LabelValueView::Static(v) => LabelCodeView::Literal(v),
            LabelValueView::Dynamic(_) => LabelCodeView::CloneOf(capture_var(label.key)),
        },
    }
}

pub open spec fn label_pairs(labels: Seq<LabelView>) -> Seq<LabelPairView> {
    labels.map_values(|l: LabelView| pair_of(l))
}

/// Names the variable that captures the label with key `key`.
pub fn capture_var_name(key: &String) -> (r: String)
    ensures
        r@ == capture_var(key@),
{
    String::from_str("__metrics_label_").concat(key.as_str())
}

/// The capture step of a label, if it needs one.
pub fn capture_statement(label: &Label) -> (r: Option<Step>)
    ensures
        match r {
            Some(s) => capture_of(label@) == seq![s@],
            None => capture_of(label@) == Seq::<StepView>::empty(),
        },
{
    match &label.value {
        LabelValue::Static(_) => None,
        LabelValue::Dynamic(expr) => Some(Step::CaptureLabel { var: capture_var_name(&label.key), expr: expr.clone() }),
    }
}

/// The `key => value` pair of a label.
pub fn label_pair(label: &Label) -> (r: LabelPair)
    ensures
        r@ == pair_of(label@),
{
    let value = match &label.value {
        LabelValue::Static(v) => LabelCode::Literal(v.clone()),
        LabelValue::Dynamic(_) => LabelCode::CloneOf(capture_var_name(&label.key)),
    };
    LabelPair { key: label.key.clone(), value }
}

/// The capture steps of all labels (see [`label_captures`]).
pub fn build_label_captures(labels: &Vec<Label>) -> (r: Vec<Step>)
    ensures
        r.deep_view() == label_captures(labels.deep_view()),
{
    let ghost dv = labels.deep_view();
    let mut r: Vec<Step> = Vec::new();
    let mut i: usize = 0;
    while i < labels.len()
        invariant
            i <= labels.len(),
            dv == labels.deep_view(),
            r.deep_view() == label_captures(dv.subrange(0, i as int)),
        decreases labels.len() - i,
    {
        let ghost prev = r.deep_view();
        match capture_statement(&labels[i]) {
            Some(s) => r.push(s),
            None => {},
        }
        proof {
            let sub = dv.subrange(0, i + 1);
            assert(sub.drop_last() =~= dv.subrange(0, i as int));
            assert(sub.last() == dv[i as int]);
            assert(r.deep_view() =~= prev + capture_of(dv[i as int]));
        }
        i = i + 1;
    }
    assert(dv.subrange(0, labels.len() as int) =~= dv);
    r
}

/// The label pairs of all labels, in label order.
pub fn build_label_tokens(labels: &Vec<Label>) -> (r: Vec<LabelPair>)
    ensures
        r.deep_view() == label_pairs(labels.deep_view()),
{
    let ghost dv = labels.deep_view();
    let mut r: Vec<LabelPair> = Vec::new();
    let mut i: usize = 0;
    while i < labels.len()
        invariant
            i <= labels.len(),
            dv == labels.deep_view(),
            r.deep_view() == label_pairs(dv.subrange(0, i as int)),
        decreases labels.len() - i,
    {
        let ghost prev = r.deep_view();
        let pair = label_pair(&labels[i]);
        r.push(pair);
        assert(r.deep_view() =~= prev.push(pair_of(dv[i as int])));
        assert(r.deep_view() =~= label_pairs(dv.subrange(0, i + 1)));
        i = i + 1;
    }
    assert(dv.subrange(0, labels.len() as int) =~= dv);
    r
}

// ---------------------------------------------------------------------------
// Metric names and the instrumented body
// ---------------------------------------------------------------------------

/// A metric's name: the one given in the attribute, or the function's name
/// followed by `suffix`.
pub open spec fn derived_name(given: Option<Seq<char>>, fn_name: Seq<char>, suffix: Seq<char>) -> Seq<char> {
    match given {
        Some(name) => name,
        None => fn_name + suffix,
    }
}

pub open spec fn counter_name(args: MetricNameArgsView, sig: FnShapeView) -> Seq<char> {
    derived_name(args.counter, sig.name, "_total"@)
}

pub open spec fn histogram_name(args: MetricNameArgsView, sig: FnShapeView) -> Seq<char> {
    derived_name(args.histogram, sig.name, "_duration_seconds"@)
}

pub open spec fn error_counter_name(args: MetricNameArgsView, sig: FnShapeView) -> Seq<char> {
    derived_name(args.error_counter, sig.name, "_errors_total"@)
}

/// The instrumented body for parsed labels: captures of the dynamic
/// labels, the call counter, the timer, the body, the duration histogram,
/// the error counter when the function returns a `Result`, and the return;
/// every metric carries the same label pairs.
pub open spec fn instrument_steps(args: MetricNameArgsView, labels: Seq<LabelView>, sig: FnShapeView) -> Seq<StepView> {
    let pairs = label_pairs(labels);
    body_steps(
        label_captures(labels),
        Some(StepView::IncrementCounter { name: counter_name(args, sig), labels: pairs }),
        Some(StepView::RecordDuration { name: histogram_name(args, sig), labels: pairs }),
        if returns_result(sig) {
            Some(StepView::CountError { name: error_counter_name(args, sig), labels: pairs })
        } else {
            None
        },
        true,
        run_step(sig),
    )
}

/// What `#[instrument]` makes of a function, given the tokens of the
/// attribute's arguments and of the function: the instrumented body, or
/// the error of the attribute's syntax, of the function's, or of its
/// labels.
pub open spec fn spec_instrument(args: MetricNameArgsView, attr: Seq<TokTreeView>, item: Seq<TokTreeView>) -> Result<Seq<StepView>, MacroErrorView> {
    match meta_items(attr, 0) {
        Err(e) => Err(MacroErrorView::Syntax(e)),
        Ok(items) => match parsed_fn(render(item)) {
            Err(e) => Err(MacroErrorView::Syntax(e)),
            Ok(sig) => match labels_from_meta(attr, items, 0) {
                Ok(labels) => Ok(instrument_steps(args, labels, sig)),
                Err(e) => Err(e),
            },
        },
    }
}

/// Picks a metric's name (see [`derived_name`]).
pub fn derive_name(given: Option<String>, fn_name: &String, suffix: &str) -> (r: String)
    ensures
        r@ == derived_name(opt_view(given), fn_name@, suffix@),
{
    match given {
        Some(name) => name,
        None => fn_name.clone().concat(suffix),
    }
}

/// Builds the instrumented body of a function under `#[instrument]`, from
/// the attribute's metric-name arguments, the tokens of its arguments and
/// the tokens of the function (see [`spec_instrument`]).
pub fn instrument_impl(args: MetricNameArgs, attr: &Vec<TokTree>, item: &Vec<TokTree>) -> (r: Result<Vec<Step>, MacroError>)
    ensures
        match r {
            Ok(steps) => spec_instrument(args@, trees_view(attr@), trees_view(item@)) == Ok::<Seq<StepView>, MacroErrorView>(steps.deep_view()),
            Err(e) => spec_instrument(args@, trees_view(attr@), trees_view(item@)) == Err::<Seq<StepView>, MacroErrorView>(e@),
        },
{
    let attr_args = match parse_meta_items(attr) {
        Ok(items) => items,
        Err(e) => {
            return Err(MacroError::Syntax(e));
        },
    };
    let sig = match fn_shape(item) {
        Ok(sig) => sig,
        Err(e) => {
            return Err(MacroError::Syntax(e));
        },
    };
    let labels = match parse_labels_from_meta(attr, &attr_args) {
        Ok(labels) => labels,
        Err(e) => {
            return Err(e);
        },
    };
    let returns_result = fn_returns_result(&sig);
    let counter_name = derive_name(args.counter, &sig.name, "_total");
    let histogram_name = derive_name(args.histogram, &sig.name, "_duration_seconds");
    let error_counter_name = derive_name(args.error_counter, &sig.name, "_errors_total");

    let label_captures = build_label_captures(&labels);
    let label_tokens = build_label_tokens(&labels);

    let counter_code = Step::IncrementCounter { name: counter_name, labels: clone_pairs(&label_tokens) };
    let histogram_code = Step::RecordDuration { name: histogram_name, labels: clone_pairs(&label_tokens) };
    let error_counter_code = if returns_result {
        Some(Step::CountError { name: error_counter_name, labels: label_tokens })
    } else {
        None
    };
    if sig.is_async {
        Ok(build_async_body(label_captures, Some(counter_code), Some(histogram_code), error_counter_code, true))
    } else {
        Ok(build_sync_body(label_captures, Some(counter_code), Some(histogram_code), error_counter_code, true))
    }
}

} // verus!
