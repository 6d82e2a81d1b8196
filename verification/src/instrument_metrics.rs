//! `#[instrument_metrics]`: each metric is emitted only when its name is
//! given, and labels are static strings or function parameters named as
//! they are, whose values are captured before the body runs.

use vstd::prelude::*;
use crate::instrument::{build_label_captures, build_label_tokens, label_captures, label_pairs};
use crate::model::{
    clone_pairs, FnShapeView, Label, LabelValue, LabelValueView, LabelView, MacroError,
    MacroErrorView, MetricNameArgs, MetricNameArgsView, Step, StepView,
};
use crate::plan::{body_steps, build_async_body, build_sync_body, fn_returns_result, returns_result, run_step};
use crate::syntax::{
    fn_shape, meta_get_ident, labels_list_of, labels_list_tokens, meta_ident, meta_items, parse_expr,
    parse_meta_items, parsed_expr, parsed_fn, ExprShape, ExprShapeView, MetaItem, MetaItemView,
    MetaKind,
};
use crate::tokens::{is_eq_sign, lemma_trees_view, render, render_range, tok_is_eq_sign, tree_view, trees_view, TokTree, TokTreeView};

verus! {

pub open spec fn msg_key_ident() -> Seq<char> {
    "expected simple identifier for label key"@
}

pub open spec fn msg_value_literal() -> Seq<char> {
    "expected string literal for label value"@
}

pub open spec fn msg_dynamic_ident() -> Seq<char> {
    "expected simple identifier for dynamic label"@
}

pub open spec fn msg_label_form() -> Seq<char> {
    "expected `key = \"value\"` or `key` for labels"@
}

/// The position of the first `=` among tokens `j..end`, or `end`.
pub open spec fn eq_from(toks: Seq<TokTreeView>, j: int, end: int) -> int
    decreases end - j,
{
    if j >= end {
        end
    } else if is_eq_sign(toks[j]) {
        j
    } else {
        eq_from(toks, j + 1, end)
    }
}

pub proof fn lemma_eq_from(toks: Seq<TokTreeView>, j: int, end: int)
    requires
        j <= end,
    ensures
        j <= eq_from(toks, j, end) <= end,
    decreases end - j,
{
    if j < end && !is_eq_sign(toks[j]) {
        lemma_eq_from(toks, j + 1, end);
    }
}

/// The value of a `name = value` item: the tokens after its `=`.
pub open spec fn item_value(toks: Seq<TokTreeView>, item: MetaItemView) -> Seq<TokTreeView> {
    let eq = eq_from(toks, item.start, item.end);
    toks.subrange(if eq < item.end { eq + 1 } else { item.end }, item.end)
}

/// One item of `labels(...)`, among the list's tokens: `key = "value"` is
/// a static label, a bare `name` a dynamic label from the parameter
/// `name`; anything else is refused.
pub open spec fn metrics_label(toks: Seq<TokTreeView>, item: MetaItemView) -> Result<LabelView, Seq<char>> {
    match item.shape.kind {
        MetaKind::NameValue => match meta_ident(item.shape) {
            None => Err(msg_key_ident()),
            Some(key) => match parsed_expr(render(item_value(toks, item))) {
                Ok(ExprShapeView::StrLit(v)) => Ok(LabelView { key, value: LabelValueView::Static(v) }),
                _ => Err(msg_value_literal()),
            },
        },
        MetaKind::Path => match meta_ident(item.shape) {
            Some(key) => Ok(LabelView { key, value: LabelValueView::Dynamic(key) }),
            None => Err(msg_dynamic_ident()),
        },
        _ => Err(msg_label_form()),
    }
}

/// The labels of the items of one `labels(...)` list from item `k` on, or
/// the error of the first item refused.
pub open spec fn list_labels(toks: Seq<TokTreeView>, items: Seq<MetaItemView>, k: int) -> Result<Seq<LabelView>, Seq<char>>
    decreases items.len() - k,
{
    if k < 0 || k >= items.len() {
        Ok(Seq::empty())
    } else {
        match metrics_label(toks, items[k]) {
            Err(e) => Err(e),
            Ok(label) => match list_labels(toks, items, k + 1) {
                Ok(rest) => Ok(seq![label] + rest),
                Err(e) => Err(e),
            },
        }
    }
}

/// The labels of the attribute's items from item `i` on: those of every
/// `labels(...)` list, in order; a list that does not parse, or holds an
/// item that is refused, gives its error.
pub open spec fn labels_from_meta(attr: Seq<TokTreeView>, attr_args: Seq<MetaItemView>, i: int) -> Result<Seq<LabelView>, MacroErrorView>
    decreases attr_args.len() - i,
{
    if i < 0 || i >= attr_args.len() {
        Ok(Seq::empty())
    } else {
        match labels_list_tokens(attr, attr_args[i]) {
            None => labels_from_meta(attr, attr_args, i + 1),
            Some(inner) => match meta_items(inner, 0) {
                Err(e) => Err(MacroErrorView::Syntax(e)),
                Ok(items) => match list_labels(inner, items, 0) {
                    Err(e) => Err(MacroErrorView::Custom(e)),
                    Ok(labels) => match labels_from_meta(attr, attr_args, i + 1) {
                        Ok(rest) => Ok(labels + rest),
                        Err(e) => Err(e),
                    },
                },
            },
        }
    }
}

/// Finds the first `=` among tokens `start..end` (see [`eq_from`]).
fn find_eq(toks: &Vec<TokTree>, start: usize, end: usize) -> (r: usize)
    requires
        start <= end <= toks.len(),
    ensures
        r == eq_from(trees_view(toks@), start as int, end as int),
        start <= r <= end,
{
    let ghost dv = trees_view(toks@);
    proof { lemma_trees_view(toks@); }
    let mut j: usize = start;
    while j < end
        invariant
            start <= j <= end <= toks.len(),
            dv == trees_view(toks@),
            forall|i: int| 0 <= i < toks.len() ==> #[trigger] dv[i] == tree_view(toks@[i]),
            eq_from(dv, start as int, end as int) == eq_from(dv, j as int, end as int),
        decreases end - j,
    {
        if tok_is_eq_sign(&toks[j]) {
            return j;
        }
        j = j + 1;
    }
    j
}

/// Reads one item of `labels(...)` (see [`metrics_label`]).
pub fn parse_label(toks: &Vec<TokTree>, item: &MetaItem) -> (r: Result<Label, String>)
    requires
        item.start <= item.end <= toks.len(),
    ensures
        match r {
            Ok(label) => metrics_label(trees_view(toks@), item@) == Ok::<LabelView, Seq<char>>(label@),
            Err(e) => metrics_label(trees_view(toks@), item@) == Err::<LabelView, Seq<char>>(e@),
        },
{
    proof { lemma_trees_view(toks@); }
    match item.shape.kind {
        MetaKind::NameValue => {
            let key = match meta_get_ident(&item.shape) {
                Some(key) => key,
                None => {
                    return Err(String::from_str("expected simple identifier for label key"));
                },
            };
            let eq = find_eq(toks, item.start, item.end);
            let value_start = if eq < item.end { eq + 1 } else { item.end };
            let text = render_range(toks, value_start, item.end);
            match parse_expr(text.as_str()) {
                Ok(ExprShape::StrLit(v)) => Ok(Label { key, value: LabelValue::Static(v) }),
                _ => Err(String::from_str("expected string literal for label value")),
            }
        },
        MetaKind::Path => match meta_get_ident(&item.shape) {
            Some(key) => {
                let name = key.clone();
                Ok(Label { key, value: LabelValue::Dynamic(name) })
            },
            None => Err(String::from_str("expected simple identifier for dynamic label")),
        },
        _ => Err(String::from_str("expected `key = \"value\"` or `key` for labels")),
    }
}

/// Reads the labels of the attribute, given its tokens and its items (see
/// [`labels_from_meta`]).
pub fn parse_labels_from_meta(attr: &Vec<TokTree>, attr_args: &Vec<MetaItem>) -> (r: Result<Vec<Label>, MacroError>)
    ensures
        match r {
            Ok(labels) => labels_from_meta(trees_view(attr@), attr_args.deep_view(), 0) == Ok::<Seq<LabelView>, MacroErrorView>(labels.deep_view()),
            Err(e) => labels_from_meta(trees_view(attr@), attr_args.deep_view(), 0) == Err::<Seq<LabelView>, MacroErrorView>(e@),
        },
{
    let ghost dv = attr_args.deep_view();
    let ghost tv = trees_view(attr@);
    let mut labels: Vec<Label> = Vec::new();
    let mut i: usize = 0;
    proof {
        match labels_from_meta(tv, dv, 0) {
            Ok(rest) => assert(labels.deep_view() + rest =~= rest),
            Err(_) => {},
        }
    }
    while i < attr_args.len()
        invariant
            i <= attr_args.len(),
            dv == attr_args.deep_view(),
            tv == trees_view(attr@),
            labels_from_meta(tv, dv, 0) == match labels_from_meta(tv, dv, i as int) {
                Ok(rest) => Ok::<Seq<LabelView>, MacroErrorView>(labels.deep_view() + rest),
                Err(e) => Err(e),
            },
        decreases attr_args.len() - i,
    {
        match labels_list_of(attr, &attr_args[i]) {
            Some(inner) => {
                let items = match parse_meta_items(inner) {
                    Ok(items) => items,
                    Err(e) => {
                        return Err(MacroError::Syntax(e));
                    },
                };
                let ghost iv = trees_view(inner@);
                let ghost items_view = items.deep_view();
                let ghost before = labels.deep_view();
                proof {
                    crate::syntax::lemma_meta_items_ranges(iv, 0);
                    lemma_trees_view(inner@);
                }
                let mut k: usize = 0;
                while k < items.len()
                    invariant
                        k <= items.len(),
                        i < attr_args.len(),
                        dv == attr_args.deep_view(),
                        tv == trees_view(attr@),
                        iv == trees_view(inner@),
                        labels_list_tokens(tv, dv[i as int]) == Some(iv),
                        meta_items(iv, 0) == Ok::<Seq<MetaItemView>, Seq<char>>(items_view),
                        forall|m: int| 0 <= m < items_view.len() ==> (#[trigger] items_view[m]).start <= items_view[m].end <= iv.len(),
                        iv.len() == inner.len(),
                        labels_from_meta(tv, dv, 0) == match labels_from_meta(tv, dv, i as int) {
                            Ok(rest) => Ok::<Seq<LabelView>, MacroErrorView>(before + rest),
                            Err(e) => Err(e),
                        },
                        items_view == items.deep_view(),
                        list_labels(iv, items_view, 0) == match list_labels(iv, items_view, k as int) {
                            Ok(rest) => Ok::<Seq<LabelView>, Seq<char>>(labels.deep_view().subrange(before.len() as int, labels.deep_view().len() as int) + rest),
                            Err(e) => Err(e),
                        },
                        before.len() <= labels.deep_view().len(),
                        labels.deep_view().subrange(0, before.len() as int) == before,
                    decreases items.len() - k,
                {
                    let ghost prev = labels.deep_view();
                    assert(items_view[k as int] == items[k as int]@);
                    match parse_label(inner, &items[k]) {
                        Ok(label) => {
                            let ghost lv = label@;
                            labels.push(label);
                            proof {
                                assert(labels.deep_view() =~= prev.push(lv));
                                assert(labels.deep_view().subrange(0, before.len() as int) =~= prev.subrange(0, before.len() as int));
                                let added = labels.deep_view().subrange(before.len() as int, labels.deep_view().len() as int);
                                assert(added =~= prev.subrange(before.len() as int, prev.len() as int).push(lv));
                                match list_labels(iv, items_view, k + 1) {
                                    Ok(rest) => assert(prev.subrange(before.len() as int, prev.len() as int) + (seq![lv] + rest) =~= added + rest),
                                    Err(_) => {},
                                }
                            }
                        },
                        Err(e) => {
                            return Err(MacroError::Custom(e));
                        },
                    }
                    k = k + 1;
                }
                proof {
                    let added = labels.deep_view().subrange(before.len() as int, labels.deep_view().len() as int);
                    assert(added + Seq::<LabelView>::empty() =~= added);
                    assert(before + added =~= labels.deep_view());
                    match labels_from_meta(tv, dv, i + 1) {
                        Ok(rest) => assert(before + (added + rest) =~= labels.deep_view() + rest),
                        Err(_) => {},
                    }
                }
            },
            None => {},
        }
        i = i + 1;
    }
    assert(labels.deep_view() + Seq::<LabelView>::empty() =~= labels.deep_view());
    Ok(labels)
}

/// Whether any metric is recorded: a counter or a histogram is named, or
/// an error counter is named and the function returns a `Result`.
pub open spec fn records_metric(args: MetricNameArgsView, sig: FnShapeView) -> bool {
    args.counter is Some || args.histogram is Some || (args.error_counter is Some && returns_result(sig))
}

/// The captures of the dynamic labels, when a metric reads them; none
/// otherwise.
pub open spec fn metrics_captures_of(args: MetricNameArgsView, labels: Seq<LabelView>, sig: FnShapeView) -> Seq<StepView> {
    if records_metric(args, sig) {
        label_captures(labels)
    } else {
        Seq::empty()
    }
}

/// The instrumented body for parsed labels: the captures of the dynamic
/// labels (when any metric is recorded), the call counter when a counter
/// is named, the timer and the duration record when a histogram is named,
/// the body, the error counter when one is named and the function returns
/// a `Result`, and the return; every metric carries the same label pairs,
/// which read the captured values.
pub open spec fn instrument_metrics_steps(args: MetricNameArgsView, labels: Seq<LabelView>, sig: FnShapeView) -> Seq<StepView> {
    let pairs = label_pairs(labels);
    body_steps(
        metrics_captures_of(args, labels, sig),
        match args.counter {
            Some(name) => Some(StepView::IncrementCounter { name, labels: pairs }),
            None => None,
        },
        match args.histogram {
            Some(name) => Some(StepView::RecordDuration { name, labels: pairs }),
            None => None,
        },
        match args.error_counter {
            Some(name) => if returns_result(sig) {
                Some(StepView::CountError { name, labels: pairs })
            } else {
                None
            },
            None => None,
        },
        args.histogram is Some,
        run_step(sig),
    )
}

/// What `#[instrument_metrics]` makes of a function, given the tokens of
/// the attribute's arguments and of the function: the instrumented body,
/// or the error of the attribute's syntax, of the function's, or of its
/// labels.
pub open spec fn spec_instrument_metrics(args: MetricNameArgsView, attr: Seq<TokTreeView>, item: Seq<TokTreeView>) -> Result<Seq<StepView>, MacroErrorView> {
    match meta_items(attr, 0) {
        Err(e) => Err(MacroErrorView::Syntax(e)),
        Ok(items) => match parsed_fn(render(item)) {
            Err(e) => Err(MacroErrorView::Syntax(e)),
            Ok(sig) => match labels_from_meta(attr, items, 0) {
                Ok(labels) => Ok(instrument_metrics_steps(args, labels, sig)),
                Err(e) => Err(e),
            },
        },
    }
}

/// Builds the instrumented body of a function under
/// `#[instrument_metrics]` (see [`spec_instrument_metrics`]).
pub fn instrument_metrics_impl(args: MetricNameArgs, attr: &Vec<TokTree>, item: &Vec<TokTree>) -> (r: Result<Vec<Step>, MacroError>)
    ensures
        match r {
            Ok(steps) => spec_instrument_metrics(args@, trees_view(attr@), trees_view(item@)) == Ok::<Seq<StepView>, MacroErrorView>(steps.deep_view()),
            Err(e) => spec_instrument_metrics(args@, trees_view(attr@), trees_view(item@)) == Err::<Seq<StepView>, MacroErrorView>(e@),
        },
{
    let attr_args = match parse_meta_items(attr) {
        Ok(items) => items,
        Err(e) => {
            return Err(MacroError::Syntax(e));
        },
    };
    let sig = match fn_shape(item) {
        Ok(sig) => sig,
        Err(e) => {
            return Err(MacroError::Syntax(e));
        },
    };
    let labels = match parse_labels_from_meta(attr, &attr_args) {
        Ok(labels) => labels,
        Err(e) => {
            return Err(e);
        },
    };
    let returns_result = fn_returns_result(&sig);
    let needs_timing = args.histogram.is_some();
    let records_metric = args.counter.is_some() || needs_timing || (args.error_counter.is_some() && returns_result);
    let label_captures = if records_metric {
        build_label_captures(&labels)
    } else {
        let none: Vec<Step> = Vec::new();
        assert(none.deep_view() =~= Seq::<StepView>::empty());
        none
    };
    let label_tokens = build_label_tokens(&labels);

    let counter_code = match args.counter {
        Some(name) => Some(Step::IncrementCounter { name, labels: clone_pairs(&label_tokens) }),
        None => None,
    };
    let histogram_code = match args.histogram {
        Some(name) => Some(Step::RecordDuration { name, labels: clone_pairs(&label_tokens) }),
        None => None,
    };
    let error_counter_code = if returns_result {
        match args.error_counter {
            Some(name) => Some(Step::CountError { name, labels: clone_pairs(&label_tokens) }),
            None => None,
        }
    } else {
        None
    };
    if sig.is_async {
        Ok(build_async_body(label_captures, counter_code, histogram_code, error_counter_code, needs_timing))
    } else {
        Ok(build_sync_body(label_captures, counter_code, histogram_code, error_counter_code, needs_timing))
    }
}

} // verus!
