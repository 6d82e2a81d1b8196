//! Properties of the two macros' expansions that the documentation
//! promises, proved over their specifications.

use vstd::prelude::*;
use crate::instrument;
use crate::instrument_metrics;
use crate::model::{FnShapeView, LabelCodeView, LabelValueView, LabelView, MacroErrorView, MetricNameArgsView, StepView};
use crate::plan::{
    is_gated, is_metric, is_run, lemma_body_steps_split, lemma_body_without_feature,
    metric_labels, opt_steps, returns_result, run_step, steps_before_run, timer_steps,
    without_feature,
};
use crate::syntax::{
    labels_list_tokens, lemma_meta_from_end, meta_from, meta_ident, meta_items, parsed_expr, parsed_fn,
    parsed_meta, plain_ident, ExprShapeView, MetaItemView, MetaKind, MetaShapeView,
};
use crate::tokens::{ident_text, is_comma, is_eq_sign, render, render_tree, TokTreeView};

verus! {

/// Every step of the label captures is a capture.
pub proof fn lemma_captures_are_captures(labels: Seq<LabelView>)
    ensures
        forall|i: int| 0 <= i < instrument::label_captures(labels).len()
            ==> (#[trigger] instrument::label_captures(labels)[i]) is CaptureLabel,
    decreases labels.len(),
{
    if labels.len() > 0 {
        lemma_captures_are_captures(labels.drop_last());
    }
}

/// Whether step `s` captures a label value into variable `v`.
pub open spec fn defines_var(s: StepView, v: Seq<char>) -> bool {
    match s {
        StepView::CaptureLabel { var, .. } => var == v,
        _ => false,
    }
}

/// Each dynamic label has a capture step that defines its variable.
pub proof fn lemma_dynamic_label_captured(labels: Seq<LabelView>, i: int)
    requires
        0 <= i < labels.len(),
        labels[i].value is Dynamic,
    ensures
        exists|j: int| 0 <= j < instrument::label_captures(labels).len()
            && defines_var(#[trigger] instrument::label_captures(labels)[j], instrument::capture_var(labels[i].key)),
    decreases labels.len(),
{
    let front = labels.drop_last();
    let caps = instrument::label_captures(labels);
    if i == labels.len() - 1 {
        let j = instrument::label_captures(front).len() as int;
        assert(caps[j] == instrument::capture_of(labels.last())[0]);
    } else {
        lemma_dynamic_label_captured(front, i);
        let j = choose|j: int| 0 <= j < instrument::label_captures(front).len()
            && defines_var(#[trigger] instrument::label_captures(front)[j], instrument::capture_var(front[i].key));
        assert(caps[j] == instrument::label_captures(front)[j]);
    }
}

/// The labels `#[instrument]` reads from its attribute, when they parse.
pub open spec fn instrument_labels(attr: Seq<TokTreeView>) -> Seq<LabelView> {
    instrument::labels_from_meta(attr, meta_items(attr, 0)->Ok_0, 0)->Ok_0
}

/// The signature of the annotated function, when it parses.
pub open spec fn fn_sig(item: Seq<TokTreeView>) -> FnShapeView {
    parsed_fn(render(item))->Ok_0
}

/// The steps `#[instrument]` produces, when its attribute is accepted.
pub open spec fn instrument_steps_of(args: MetricNameArgsView, attr: Seq<TokTreeView>, item: Seq<TokTreeView>) -> Seq<StepView> {
    instrument::spec_instrument(args, attr, item)->Ok_0
}

/// Under `#[instrument]` the original body runs exactly once, and the
/// last step, and only it, returns the body's value.
pub proof fn law_instrument_runs_body_once(args: MetricNameArgsView, attr: Seq<TokTreeView>, item: Seq<TokTreeView>)
    requires
        instrument::spec_instrument(args, attr, item) is Ok,
    ensures
        ({
            let steps = instrument_steps_of(args, attr, item);
            &&& exists|k: int| 0 <= k < steps.len() && steps[k] == run_step(fn_sig(item))
                && forall|j: int| 0 <= j < steps.len() && j != k ==> !is_run(#[trigger] steps[j])
            &&& steps.len() > 0 && steps.last() == StepView::ReturnResult
            &&& forall|j: int| 0 <= j < steps.len() - 1 ==> !((#[trigger] steps[j]) is ReturnResult)
        }),
{
    let labels = instrument_labels(attr);
    let pairs = instrument::label_pairs(labels);
    let caps = instrument::label_captures(labels);
    let counter = Some(StepView::IncrementCounter { name: instrument::counter_name(args, fn_sig(item)), labels: pairs });
    let histogram = Some(StepView::RecordDuration { name: instrument::histogram_name(args, fn_sig(item)), labels: pairs });
    let error_counter = if returns_result(fn_sig(item)) {
        Some(StepView::CountError { name: instrument::error_counter_name(args, fn_sig(item)), labels: pairs })
    } else {
        None
    };
    let steps = instrument_steps_of(args, attr, item);
    lemma_body_steps_split(caps, counter, histogram, error_counter, true, run_step(fn_sig(item)));
    lemma_captures_are_captures(labels);
    let before = steps_before_run(caps, counter, true);
    let after = opt_steps(histogram) + opt_steps(error_counter);
    let k = before.len() as int;
    assert(steps == before + seq![run_step(fn_sig(item))] + after + seq![StepView::ReturnResult]);
    assert(steps[k] == run_step(fn_sig(item)));
    assert forall|j: int| 0 <= j < steps.len() && j != k implies !is_run(#[trigger] steps[j]) by {
        if j < caps.len() {
            assert(steps[j] == caps[j]);
        } else if j < k {
            assert(steps[j] == before[j]);
        } else if j < k + 1 + after.len() {
            assert(steps[j] == after[j - k - 1]);
        }
    }
    assert forall|j: int| 0 <= j < steps.len() - 1 implies !((#[trigger] steps[j]) is ReturnResult) by {
        if j < caps.len() {
            assert(steps[j] == caps[j]);
        } else if j < k {
            assert(steps[j] == before[j]);
        } else if j > k {
            assert(steps[j] == after[j - k - 1]);
        }
    }
}

/// The three optional metric steps of `#[instrument]`'s body.
pub open spec fn instrument_counter(args: MetricNameArgsView, attr: Seq<TokTreeView>, item: Seq<TokTreeView>) -> StepView {
    StepView::IncrementCounter {
        name: instrument::counter_name(args, fn_sig(item)),
        labels: instrument::label_pairs(instrument_labels(attr)),
    }
}

pub open spec fn instrument_histogram(args: MetricNameArgsView, attr: Seq<TokTreeView>, item: Seq<TokTreeView>) -> StepView {
    StepView::RecordDuration {
        name: instrument::histogram_name(args, fn_sig(item)),
        labels: instrument::label_pairs(instrument_labels(attr)),
    }
}

pub open spec fn instrument_error_counter(args: MetricNameArgsView, attr: Seq<TokTreeView>, item: Seq<TokTreeView>) -> StepView {
    StepView::CountError {
        name: instrument::error_counter_name(args, fn_sig(item)),
        labels: instrument::label_pairs(instrument_labels(attr)),
    }
}

/// `#[instrument]`'s body laid out: captures, counter, timer, run,
/// histogram, the error counter when the function returns a `Result`,
/// return.
pub proof fn lemma_instrument_layout(args: MetricNameArgsView, attr: Seq<TokTreeView>, item: Seq<TokTreeView>)
    requires
        instrument::spec_instrument(args, attr, item) is Ok,
    ensures
        instrument_steps_of(args, attr, item)
            == instrument::label_captures(instrument_labels(attr))
                + seq![instrument_counter(args, attr, item), StepView::StartTimer, run_step(fn_sig(item)), instrument_histogram(args, attr, item)]
                + (if returns_result(fn_sig(item)) { seq![instrument_error_counter(args, attr, item)] } else { Seq::empty() })
                + seq![StepView::ReturnResult],
{
    let labels = instrument_labels(attr);
    let caps = instrument::label_captures(labels);
    let steps = instrument_steps_of(args, attr, item);
    assert(steps =~= caps
        + seq![instrument_counter(args, attr, item), StepView::StartTimer, run_step(fn_sig(item)), instrument_histogram(args, attr, item)]
        + (if returns_result(fn_sig(item)) { seq![instrument_error_counter(args, attr, item)] } else { Seq::empty() })
        + seq![StepView::ReturnResult]);
}

/// Under `#[instrument]` every call increments the call counter before the
/// body runs, the timer starts just before the body, and the duration is
/// recorded after it; the names are those given, or the function's name
/// with `_total` and `_duration_seconds`.
pub proof fn law_instrument_counts_and_times_every_call(args: MetricNameArgsView, attr: Seq<TokTreeView>, item: Seq<TokTreeView>)
    requires
        instrument::spec_instrument(args, attr, item) is Ok,
    ensures
        ({
            let steps = instrument_steps_of(args, attr, item);
            let pairs = instrument::label_pairs(instrument_labels(attr));
            exists|c: int, k: int, h: int| 0 <= c < k < h < steps.len()
                && #[trigger] steps[c] == StepView::IncrementCounter {
                    name: match args.counter { Some(n) => n, None => fn_sig(item).name + "_total"@ },
                    labels: pairs,
                }
                && steps[k - 1] == StepView::StartTimer
                && #[trigger] steps[k] == run_step(fn_sig(item))
                && #[trigger] steps[h] == StepView::RecordDuration {
                    name: match args.histogram { Some(n) => n, None => fn_sig(item).name + "_duration_seconds"@ },
                    labels: pairs,
                }
        }),
{
    lemma_instrument_layout(args, attr, item);
    let steps = instrument_steps_of(args, attr, item);
    let n = instrument::label_captures(instrument_labels(attr)).len() as int;
    assert(steps[n] == instrument_counter(args, attr, item));
    assert(steps[n + 1] == StepView::StartTimer);
    assert(steps[n + 2] == run_step(fn_sig(item)));
    assert(steps[n + 3] == instrument_histogram(args, attr, item));
}

/// Under `#[instrument]` an error counter is present exactly when the
/// function returns a `Result`; it then comes after the body, just before
/// the return, under the given name or the function's name with
/// `_errors_total`.
pub proof fn law_instrument_error_counter_iff_result(args: MetricNameArgsView, attr: Seq<TokTreeView>, item: Seq<TokTreeView>)
    requires
        instrument::spec_instrument(args, attr, item) is Ok,
    ensures
        ({
            let steps = instrument_steps_of(args, attr, item);
            &&& (exists|j: int| 0 <= j < steps.len() && (#[trigger] steps[j]) is CountError) <==> returns_result(fn_sig(item))
            &&& returns_result(fn_sig(item)) ==> steps.len() >= 2 && steps[steps.len() - 2] == StepView::CountError {
                name: match args.error_counter { Some(n) => n, None => fn_sig(item).name + "_errors_total"@ },
                labels: instrument::label_pairs(instrument_labels(attr)),
            }
        }),
{
    lemma_instrument_layout(args, attr, item);
    let labels = instrument_labels(attr);
    let caps = instrument::label_captures(labels);
    lemma_captures_are_captures(labels);
    let steps = instrument_steps_of(args, attr, item);
    let n = caps.len() as int;
    if returns_result(fn_sig(item)) {
        assert(steps[steps.len() - 2] == instrument_error_counter(args, attr, item));
    } else {
        assert forall|j: int| 0 <= j < steps.len() implies !((#[trigger] steps[j]) is CountError) by {
            if j < n {
                assert(steps[j] == caps[j]);
            }
        }
    }
}

/// Under `#[instrument]` every metric carries the same label pairs: those
/// of the labels, in the order they are written.
pub proof fn law_instrument_labels_on_every_metric(args: MetricNameArgsView, attr: Seq<TokTreeView>, item: Seq<TokTreeView>)
    requires
        instrument::spec_instrument(args, attr, item) is Ok,
    ensures
        ({
            let steps = instrument_steps_of(args, attr, item);
            forall|j: int| 0 <= j < steps.len() && is_metric(#[trigger] steps[j])
                ==> metric_labels(steps[j]) == instrument::label_pairs(instrument_labels(attr))
        }),
{
    lemma_instrument_layout(args, attr, item);
    let labels = instrument_labels(attr);
    let caps = instrument::label_captures(labels);
    lemma_captures_are_captures(labels);
    let steps = instrument_steps_of(args, attr, item);
    assert forall|j: int| 0 <= j < steps.len() && is_metric(#[trigger] steps[j])
        implies metric_labels(steps[j]) == instrument::label_pairs(labels) by {
        if j < caps.len() {
            assert(steps[j] == caps[j]);
        }
    }
}

/// Under `#[instrument]` the value of every dynamic label is captured into
/// the variable its label pair reads, before the body runs and before any
/// metric is recorded (so a body that consumes the labelled value still
/// compiles).
pub proof fn law_instrument_captures_precede_use(args: MetricNameArgsView, attr: Seq<TokTreeView>, item: Seq<TokTreeView>, i: int)
    requires
        instrument::spec_instrument(args, attr, item) is Ok,
        0 <= i < instrument_labels(attr).len(),
        instrument_labels(attr)[i].value is Dynamic,
    ensures
        ({
            let steps = instrument_steps_of(args, attr, item);
            let label = instrument_labels(attr)[i];
            &&& instrument::label_pairs(instrument_labels(attr))[i].value
                == LabelCodeView::CloneOf(instrument::capture_var(label.key))
            &&& exists|j: int| 0 <= j < steps.len()
                && defines_var(#[trigger] steps[j], instrument::capture_var(label.key))
                && forall|m: int| 0 <= m < steps.len() && (is_run(#[trigger] steps[m]) || is_metric(steps[m])) ==> j < m
        }),
{
    lemma_instrument_layout(args, attr, item);
    let labels = instrument_labels(attr);
    let caps = instrument::label_captures(labels);
    lemma_captures_are_captures(labels);
    lemma_dynamic_label_captured(labels, i);
    let steps = instrument_steps_of(args, attr, item);
    let v = instrument::capture_var(labels[i].key);
    let j = choose|j: int| 0 <= j < caps.len() && defines_var(#[trigger] caps[j], v);
    assert(steps[j] == caps[j]);
    assert forall|m: int| 0 <= m < steps.len() && (is_run(#[trigger] steps[m]) || is_metric(steps[m])) implies j < m by {
        if m < caps.len() {
            assert(steps[m] == caps[m]);
        }
    }
}

/// The labels `#[instrument_metrics]` reads from its attribute, when they
/// parse.
pub open spec fn metrics_labels(attr: Seq<TokTreeView>) -> Seq<LabelView> {
    instrument_metrics::labels_from_meta(attr, meta_items(attr, 0)->Ok_0, 0)->Ok_0
}

/// The steps `#[instrument_metrics]` produces, when its attribute is
/// accepted.
pub open spec fn metrics_steps_of(args: MetricNameArgsView, attr: Seq<TokTreeView>, item: Seq<TokTreeView>) -> Seq<StepView> {
    instrument_metrics::spec_instrument_metrics(args, attr, item)->Ok_0
}

pub open spec fn metrics_captures(args: MetricNameArgsView, attr: Seq<TokTreeView>, item: Seq<TokTreeView>) -> Seq<StepView> {
    instrument_metrics::metrics_captures_of(args, metrics_labels(attr), fn_sig(item))
}

pub open spec fn metrics_counter(args: MetricNameArgsView, attr: Seq<TokTreeView>) -> Seq<StepView> {
    match args.counter {
        Some(name) => seq![StepView::IncrementCounter { name, labels: instrument::label_pairs(metrics_labels(attr)) }],
        None => Seq::empty(),
    }
}

pub open spec fn metrics_histogram(args: MetricNameArgsView, attr: Seq<TokTreeView>) -> Seq<StepView> {
    match args.histogram {
        Some(name) => seq![StepView::RecordDuration { name, labels: instrument::label_pairs(metrics_labels(attr)) }],
        None => Seq::empty(),
    }
}

pub open spec fn metrics_error_counter(args: MetricNameArgsView, attr: Seq<TokTreeView>, item: Seq<TokTreeView>) -> Seq<StepView> {
    match args.error_counter {
        Some(name) => if returns_result(fn_sig(item)) {
            seq![StepView::CountError { name, labels: instrument::label_pairs(metrics_labels(attr)) }]
        } else {
            Seq::empty()
        },
        None => Seq::empty(),
    }
}

/// The steps of `#[instrument_metrics]` before the body: the captures,
/// the counter and the timer, each when called for.
pub open spec fn metrics_before(args: MetricNameArgsView, attr: Seq<TokTreeView>, item: Seq<TokTreeView>) -> Seq<StepView> {
    metrics_captures(args, attr, item) + metrics_counter(args, attr) + timer_steps(args.histogram is Some)
}

/// `#[instrument_metrics]`'s body laid out: the captures, the counter,
/// the timer, the run, the histogram, the error counter, the return, each
/// metric step only when it is called for.
pub proof fn lemma_metrics_layout(args: MetricNameArgsView, attr: Seq<TokTreeView>, item: Seq<TokTreeView>)
    requires
        instrument_metrics::spec_instrument_metrics(args, attr, item) is Ok,
    ensures
        metrics_steps_of(args, attr, item)
            == metrics_before(args, attr, item) + seq![run_step(fn_sig(item))]
                + metrics_histogram(args, attr) + metrics_error_counter(args, attr, item)
                + seq![StepView::ReturnResult],
{
    assert(metrics_steps_of(args, attr, item)
        =~= metrics_before(args, attr, item) + seq![run_step(fn_sig(item))]
            + metrics_histogram(args, attr) + metrics_error_counter(args, attr, item)
            + seq![StepView::ReturnResult]);
}

/// Facts about the parts of `#[instrument_metrics]`'s body.
proof fn lemma_metrics_parts(args: MetricNameArgsView, attr: Seq<TokTreeView>, item: Seq<TokTreeView>)
    ensures
        forall|j: int| 0 <= j < metrics_captures(args, attr, item).len() ==> (#[trigger] metrics_captures(args, attr, item)[j]) is CaptureLabel,
        forall|j: int| 0 <= j < metrics_counter(args, attr).len() ==> (#[trigger] metrics_counter(args, attr)[j]) is IncrementCounter,
        forall|j: int| 0 <= j < timer_steps(args.histogram is Some).len() ==> (#[trigger] timer_steps(args.histogram is Some)[j]) is StartTimer,
        forall|j: int| 0 <= j < metrics_histogram(args, attr).len() ==> (#[trigger] metrics_histogram(args, attr)[j]) is RecordDuration,
        forall|j: int| 0 <= j < metrics_error_counter(args, attr, item).len() ==> (#[trigger] metrics_error_counter(args, attr, item)[j]) is CountError,
{
    lemma_captures_are_captures(metrics_labels(attr));
}

/// Under `#[instrument_metrics]` the original body runs exactly once, and
/// the last step, and only it, returns the body's value.
pub proof fn law_instrument_metrics_runs_body_once(args: MetricNameArgsView, attr: Seq<TokTreeView>, item: Seq<TokTreeView>)
    requires
        instrument_metrics::spec_instrument_metrics(args, attr, item) is Ok,
    ensures
        ({
            let steps = metrics_steps_of(args, attr, item);
            &&& exists|k: int| 0 <= k < steps.len() && steps[k] == run_step(fn_sig(item))
                && forall|j: int| 0 <= j < steps.len() && j != k ==> !is_run(#[trigger] steps[j])
            &&& steps.len() > 0 && steps.last() == StepView::ReturnResult
            &&& forall|j: int| 0 <= j < steps.len() - 1 ==> !((#[trigger] steps[j]) is ReturnResult)
        }),
{
    lemma_metrics_layout(args, attr, item);
    lemma_metrics_parts(args, attr, item);
    let steps = metrics_steps_of(args, attr, item);
    let caps = metrics_captures(args, attr, item);
    let c = metrics_counter(args, attr);
    let t = timer_steps(args.histogram is Some);
    let before = metrics_before(args, attr, item);
    let after = metrics_histogram(args, attr) + metrics_error_counter(args, attr, item);
    let k = before.len() as int;
    assert(steps =~= before + seq![run_step(fn_sig(item))] + after + seq![StepView::ReturnResult]);
    assert(steps[k] == run_step(fn_sig(item)));
    assert forall|j: int| 0 <= j < before.len() implies !is_run(#[trigger] before[j]) && !(before[j] is ReturnResult) by {
        if j < caps.len() {
            assert(before[j] == caps[j]);
        } else if j < caps.len() + c.len() {
            assert(before[j] == c[j - caps.len()]);
        } else {
            assert(before[j] == t[j - caps.len() - c.len()]);
        }
    }
    assert forall|j: int| 0 <= j < after.len() implies !is_run(#[trigger] after[j]) && !(after[j] is ReturnResult) by {
        if j < metrics_histogram(args, attr).len() {
            assert(after[j] == metrics_histogram(args, attr)[j]);
        } else {
            assert(after[j] == metrics_error_counter(args, attr, item)[j - metrics_histogram(args, attr).len()]);
        }
    }
    assert forall|j: int| 0 <= j < steps.len() && j != k implies !is_run(#[trigger] steps[j]) by {
        if j < k {
            assert(steps[j] == before[j]);
        } else if j < k + 1 + after.len() {
            assert(steps[j] == after[j - k - 1]);
        }
    }
    assert forall|j: int| 0 <= j < steps.len() - 1 implies !((#[trigger] steps[j]) is ReturnResult) by {
        if j < k {
            assert(steps[j] == before[j]);
        } else if j > k {
            assert(steps[j] == after[j - k - 1]);
        }
    }
}

/// Under `#[instrument_metrics]` each metric is recorded exactly when its
/// name is given: the call counter when `counter` is, the timer and the
/// duration when `histogram` is, and the error counter when
/// `error_counter` is and the function returns a `Result`; each under the
/// name given.
pub proof fn law_instrument_metrics_follows_arguments(args: MetricNameArgsView, attr: Seq<TokTreeView>, item: Seq<TokTreeView>)
    requires
        instrument_metrics::spec_instrument_metrics(args, attr, item) is Ok,
    ensures
        ({
            let steps = metrics_steps_of(args, attr, item);
            &&& (exists|j: int| 0 <= j < steps.len() && (#[trigger] steps[j]) is IncrementCounter) <==> args.counter is Some
            &&& (exists|j: int| 0 <= j < steps.len() && (#[trigger] steps[j]) is StartTimer) <==> args.histogram is Some
            &&& (exists|j: int| 0 <= j < steps.len() && (#[trigger] steps[j]) is RecordDuration) <==> args.histogram is Some
            &&& (exists|j: int| 0 <= j < steps.len() && (#[trigger] steps[j]) is CountError)
                <==> (args.error_counter is Some && returns_result(fn_sig(item)))
            &&& forall|j: int| 0 <= j < steps.len() ==> match #[trigger] steps[j] {
                StepView::IncrementCounter { name, .. } => args.counter == Some(name),
                StepView::RecordDuration { name, .. } => args.histogram == Some(name),
                StepView::CountError { name, .. } => args.error_counter == Some(name),
                _ => true,
            }
        }),
{
    lemma_metrics_layout(args, attr, item);
    lemma_metrics_parts(args, attr, item);
    let steps = metrics_steps_of(args, attr, item);
    let caps = metrics_captures(args, attr, item);
    let c = metrics_counter(args, attr);
    let t = timer_steps(args.histogram is Some);
    let h = metrics_histogram(args, attr);
    let e = metrics_error_counter(args, attr, item);
    let n = caps.len() as int;
    let k = (caps.len() + c.len() + t.len()) as int;
    assert forall|j: int| 0 <= j < steps.len() implies
        (j < n ==> steps[j] == caps[j])
        && (n <= j < n + c.len() ==> steps[j] == c[j - n])
        && (n + c.len() <= j < k ==> steps[j] == t[j - n - c.len()])
        && (j == k ==> steps[j] == run_step(fn_sig(item)))
        && (k < j < k + 1 + h.len() ==> steps[j] == h[j - k - 1])
        && (k + 1 + h.len() <= j < steps.len() - 1 ==> steps[j] == e[j - k - 1 - h.len()])
        && (j == steps.len() - 1 ==> steps[j] == StepView::ReturnResult) by {}
    if args.counter is Some {
        assert(steps[n] == c[0]);
    }
    if args.histogram is Some {
        assert(steps[n + c.len()] == t[0]);
        assert(steps[k + 1] == h[0]);
    }
    if args.error_counter is Some && returns_result(fn_sig(item)) {
        assert(steps[k + 1 + h.len()] == e[0]);
    }
}

/// Under `#[instrument_metrics]` the captures, the call counter and the
/// timer's start come before the body runs, and the duration record and
/// the error counter after it.
pub proof fn law_instrument_metrics_order(args: MetricNameArgsView, attr: Seq<TokTreeView>, item: Seq<TokTreeView>)
    requires
        instrument_metrics::spec_instrument_metrics(args, attr, item) is Ok,
    ensures
        ({
            let steps = metrics_steps_of(args, attr, item);
            exists|k: int| 0 <= k < steps.len() && #[trigger] steps[k] == run_step(fn_sig(item))
                && forall|j: int| 0 <= j < steps.len() ==> {
                    &&& ((#[trigger] steps[j]) is CaptureLabel || steps[j] is IncrementCounter || steps[j] is StartTimer) ==> j < k
                    &&& (steps[j] is RecordDuration || steps[j] is CountError) ==> k < j
                }
        }),
{
    lemma_metrics_layout(args, attr, item);
    lemma_metrics_parts(args, attr, item);
    let steps = metrics_steps_of(args, attr, item);
    let caps = metrics_captures(args, attr, item);
    let c = metrics_counter(args, attr);
    let t = timer_steps(args.histogram is Some);
    let h = metrics_histogram(args, attr);
    let e = metrics_error_counter(args, attr, item);
    let n = caps.len() as int;
    let k = (caps.len() + c.len() + t.len()) as int;
    assert(steps[k] == run_step(fn_sig(item)));
    assert forall|j: int| 0 <= j < steps.len() implies {
        &&& ((#[trigger] steps[j]) is CaptureLabel || steps[j] is IncrementCounter || steps[j] is StartTimer) ==> j < k
        &&& (steps[j] is RecordDuration || steps[j] is CountError) ==> k < j
    } by {
        if j < n {
            assert(steps[j] == caps[j]);
        } else if j < n + c.len() {
            assert(steps[j] == c[j - n]);
        } else if j < k {
            assert(steps[j] == t[j - n - c.len()]);
        } else if k < j < k + 1 + h.len() {
            assert(steps[j] == h[j - k - 1]);
        } else if k + 1 + h.len() <= j < steps.len() - 1 {
            assert(steps[j] == e[j - k - 1 - h.len()]);
        }
    }
}

/// Under `#[instrument_metrics]` every metric carries the same label
/// pairs: those of the labels, in the order they are written.
pub proof fn law_instrument_metrics_labels_on_every_metric(args: MetricNameArgsView, attr: Seq<TokTreeView>, item: Seq<TokTreeView>)
    requires
        instrument_metrics::spec_instrument_metrics(args, attr, item) is Ok,
    ensures
        ({
            let steps = metrics_steps_of(args, attr, item);
            forall|j: int| 0 <= j < steps.len() && is_metric(#[trigger] steps[j])
                ==> metric_labels(steps[j]) == instrument::label_pairs(metrics_labels(attr))
        }),
{
    lemma_metrics_layout(args, attr, item);
    lemma_metrics_parts(args, attr, item);
    let steps = metrics_steps_of(args, attr, item);
    let caps = metrics_captures(args, attr, item);
    assert forall|j: int| 0 <= j < steps.len() && is_metric(#[trigger] steps[j])
        implies metric_labels(steps[j]) == instrument::label_pairs(metrics_labels(attr)) by {
        if j < caps.len() {
            assert(steps[j] == metrics_before(args, attr, item)[j]);
            assert(metrics_before(args, attr, item)[j] == caps[j]);
        }
    }
}

/// Every capture step is compiled only with the `metrics` feature.
proof fn lemma_captures_gated(labels: Seq<LabelView>)
    ensures
        forall|i: int| 0 <= i < instrument::label_captures(labels).len()
            ==> is_gated(#[trigger] instrument::label_captures(labels)[i]),
{
    lemma_captures_are_captures(labels);
    assert forall|i: int| 0 <= i < instrument::label_captures(labels).len()
        implies is_gated(#[trigger] instrument::label_captures(labels)[i]) by {
        assert(instrument::label_captures(labels)[i] is CaptureLabel);
    }
}

/// Under `#[instrument]`, without the `metrics` feature the function is
/// its original body alone: the body runs and its value is returned, and
/// nothing is captured, timed or recorded.
pub proof fn law_instrument_without_feature(args: MetricNameArgsView, attr: Seq<TokTreeView>, item: Seq<TokTreeView>)
    requires
        instrument::spec_instrument(args, attr, item) is Ok,
    ensures
        without_feature(instrument_steps_of(args, attr, item))
            == seq![run_step(fn_sig(item)), StepView::ReturnResult],
{
    let labels = instrument_labels(attr);
    let sig = fn_sig(item);
    let pairs = instrument::label_pairs(labels);
    lemma_captures_gated(labels);
    lemma_body_without_feature(
        instrument::label_captures(labels),
        Some(StepView::IncrementCounter { name: instrument::counter_name(args, sig), labels: pairs }),
        Some(StepView::RecordDuration { name: instrument::histogram_name(args, sig), labels: pairs }),
        if returns_result(sig) {
            Some(StepView::CountError { name: instrument::error_counter_name(args, sig), labels: pairs })
        } else {
            None
        },
        true,
        run_step(sig),
    );
}

/// Under `#[instrument_metrics]`, without the `metrics` feature the
/// function is its original body alone, whatever metrics are named.
pub proof fn law_instrument_metrics_without_feature(args: MetricNameArgsView, attr: Seq<TokTreeView>, item: Seq<TokTreeView>)
    requires
        instrument_metrics::spec_instrument_metrics(args, attr, item) is Ok,
    ensures
        without_feature(metrics_steps_of(args, attr, item))
            == seq![run_step(fn_sig(item)), StepView::ReturnResult],
{
    let labels = metrics_labels(attr);
    let sig = fn_sig(item);
    let pairs = instrument::label_pairs(labels);
    lemma_captures_gated(labels);
    lemma_body_without_feature(
        instrument_metrics::metrics_captures_of(args, labels, sig),
        match args.counter {
            Some(name) => Some(StepView::IncrementCounter { name, labels: pairs }),
            None => None,
        },
        match args.histogram {
            Some(name) => Some(StepView::RecordDuration { name, labels: pairs }),
            None => None,
        },
        match args.error_counter {
            Some(name) => if returns_result(sig) {
                Some(StepView::CountError { name, labels: pairs })
            } else {
                None
            },
            None => None,
        },
        args.histogram is Some,
        run_step(sig),
    );
}

/// The capture step of a dynamic label.
pub open spec fn capture_step(label: LabelView) -> StepView {
    StepView::CaptureLabel { var: instrument::capture_var(label.key), expr: label.value->Dynamic_0 }
}

/// The captures are one step for each dynamic label, in the labels'
/// order, and nothing else.
pub proof fn lemma_captures_of_dynamic_labels(labels: Seq<LabelView>)
    ensures
        instrument::label_captures(labels)
            == labels.filter(|l: LabelView| l.value is Dynamic).map_values(|l: LabelView| capture_step(l)),
    decreases labels.len(),
{
    reveal(Seq::filter);
    if labels.len() > 0 {
        lemma_captures_of_dynamic_labels(labels.drop_last());
        let front = labels.drop_last().filter(|l: LabelView| l.value is Dynamic);
        if labels.last().value is Dynamic {
            assert(front.push(labels.last()).map_values(|l: LabelView| capture_step(l))
                =~= front.map_values(|l: LabelView| capture_step(l)).push(capture_step(labels.last())));
            assert(instrument::capture_of(labels.last()) =~= seq![capture_step(labels.last())]);
            assert(instrument::label_captures(labels)
                =~= front.map_values(|l: LabelView| capture_step(l)).push(capture_step(labels.last())));
        } else {
            assert(instrument::capture_of(labels.last()) =~= Seq::<StepView>::empty());
            assert(instrument::label_captures(labels) =~= instrument::label_captures(labels.drop_last()));
        }
    } else {
        assert(labels.filter(|l: LabelView| l.value is Dynamic).map_values(|l: LabelView| capture_step(l)) =~= Seq::<StepView>::empty());
    }
}

/// The capture steps among `steps`, in order.
pub open spec fn captures_in(steps: Seq<StepView>) -> Seq<StepView> {
    steps.filter(|s: StepView| s is CaptureLabel)
}

/// Whether no step of `s` is a capture.
pub open spec fn no_capture(s: Seq<StepView>) -> bool {
    forall|i: int| 0 <= i < s.len() ==> !((#[trigger] s[i]) is CaptureLabel)
}

proof fn lemma_captures_in_parts(caps: Seq<StepView>, rest: Seq<StepView>)
    requires
        forall|i: int| 0 <= i < caps.len() ==> (#[trigger] caps[i]) is CaptureLabel,
        no_capture(rest),
    ensures
        captures_in(caps + rest) == caps,
{
    Seq::filter_distributes_over_add(caps, rest, |s: StepView| s is CaptureLabel);
    lemma_filter_all(caps);
    lemma_filter_none(rest);
    assert(caps + Seq::<StepView>::empty() =~= caps);
}

proof fn lemma_filter_all(s: Seq<StepView>)
    requires
        forall|i: int| 0 <= i < s.len() ==> (#[trigger] s[i]) is CaptureLabel,
    ensures
        captures_in(s) == s,
    decreases s.len(),
{
    reveal(Seq::filter);
    if s.len() > 0 {
        assert(s[s.len() - 1] is CaptureLabel);
        lemma_filter_all(s.drop_last());
        assert(s.drop_last().push(s.last()) =~= s);
    }
}

proof fn lemma_filter_none(s: Seq<StepView>)
    requires
        no_capture(s),
    ensures
        captures_in(s) == Seq::<StepView>::empty(),
    decreases s.len(),
{
    reveal(Seq::filter);
    if s.len() > 0 {
        assert(!(s[s.len() - 1] is CaptureLabel));
        lemma_filter_none(s.drop_last());
    }
}

/// Under `#[instrument]` each dynamic label is captured exactly once: the
/// capture steps of the body are, in order, one for each dynamic label,
/// and no other step captures.
pub proof fn law_instrument_captures_each_dynamic_label_once(args: MetricNameArgsView, attr: Seq<TokTreeView>, item: Seq<TokTreeView>)
    requires
        instrument::spec_instrument(args, attr, item) is Ok,
    ensures
        captures_in(instrument_steps_of(args, attr, item))
            == instrument_labels(attr).filter(|l: LabelView| l.value is Dynamic).map_values(|l: LabelView| capture_step(l)),
{
    lemma_instrument_layout(args, attr, item);
    let labels = instrument_labels(attr);
    let caps = instrument::label_captures(labels);
    lemma_captures_are_captures(labels);
    lemma_captures_of_dynamic_labels(labels);
    let rest = seq![instrument_counter(args, attr, item), StepView::StartTimer, run_step(fn_sig(item)), instrument_histogram(args, attr, item)]
        + (if returns_result(fn_sig(item)) { seq![instrument_error_counter(args, attr, item)] } else { Seq::empty() })
        + seq![StepView::ReturnResult];
    assert(instrument_steps_of(args, attr, item) =~= caps + rest);
    assert forall|i: int| 0 <= i < rest.len() implies !((#[trigger] rest[i]) is CaptureLabel) by {
        if returns_result(fn_sig(item)) {
            assert(i < 6);
        } else {
            assert(i < 5);
        }
    }
    lemma_captures_in_parts(caps, rest);
}

/// Under `#[instrument_metrics]`, when a metric is recorded, each dynamic
/// label is captured exactly once: the capture steps of the body are, in
/// order, one for each dynamic label, and no other step captures. When no
/// metric is recorded, nothing is captured.
pub proof fn law_instrument_metrics_captures_each_dynamic_label_once(args: MetricNameArgsView, attr: Seq<TokTreeView>, item: Seq<TokTreeView>)
    requires
        instrument_metrics::spec_instrument_metrics(args, attr, item) is Ok,
    ensures
        captures_in(metrics_steps_of(args, attr, item)) == if instrument_metrics::records_metric(args, fn_sig(item)) {
            metrics_labels(attr).filter(|l: LabelView| l.value is Dynamic).map_values(|l: LabelView| capture_step(l))
        } else {
            Seq::<StepView>::empty()
        },
{
    lemma_metrics_layout(args, attr, item);
    lemma_metrics_parts(args, attr, item);
    let labels = metrics_labels(attr);
    let caps = metrics_captures(args, attr, item);
    lemma_captures_of_dynamic_labels(labels);
    let c = metrics_counter(args, attr);
    let t = timer_steps(args.histogram is Some);
    let h = metrics_histogram(args, attr);
    let e = metrics_error_counter(args, attr, item);
    let rest = c + t + seq![run_step(fn_sig(item))] + h + e + seq![StepView::ReturnResult];
    assert(metrics_steps_of(args, attr, item) =~= caps + rest);
    assert forall|i: int| 0 <= i < rest.len() implies !((#[trigger] rest[i]) is CaptureLabel) by {
        let a = c.len() as int;
        let b = a + t.len();
        let r = b + 1;
        let hh = r + h.len();
        let ee = hh + e.len();
        if i < a {
            assert(rest[i] == c[i]);
        } else if i < b {
            assert(rest[i] == t[i - a]);
        } else if i < r {
        } else if i < hh {
            assert(rest[i] == h[i - r]);
        } else if i < ee {
            assert(rest[i] == e[i - hh]);
        }
    }
    lemma_captures_in_parts(caps, rest);
}

proof fn lemma_instrument_items_shift(attr: Seq<TokTreeView>, s1: Seq<MetaItemView>, p: int, s2: Seq<MetaItemView>, q: int)
    requires
        0 <= p <= s1.len(),
        0 <= q <= s2.len(),
        s1.len() - p == s2.len() - q,
        forall|k: int| p <= k < s1.len() ==> #[trigger] s1[k] == s2[k - p + q],
    ensures
        instrument::labels_from_meta(attr, s1, p) == instrument::labels_from_meta(attr, s2, q),
    decreases s1.len() - p,
{
    if p < s1.len() {
        assert(s1[p] == s2[q]);
        lemma_instrument_items_shift(attr, s1, p + 1, s2, q + 1);
    }
}

proof fn lemma_metrics_items_shift(attr: Seq<TokTreeView>, s1: Seq<MetaItemView>, p: int, s2: Seq<MetaItemView>, q: int)
    requires
        0 <= p <= s1.len(),
        0 <= q <= s2.len(),
        s1.len() - p == s2.len() - q,
        forall|k: int| p <= k < s1.len() ==> #[trigger] s1[k] == s2[k - p + q],
    ensures
        instrument_metrics::labels_from_meta(attr, s1, p) == instrument_metrics::labels_from_meta(attr, s2, q),
    decreases s1.len() - p,
{
    if p < s1.len() {
        assert(s1[p] == s2[q]);
        lemma_metrics_items_shift(attr, s1, p + 1, s2, q + 1);
    }
}

/// `#[instrument]` reads only `labels(...)` lists: an item that is not one
/// (`counter = ...`, an unknown key, a flag, a literal), wherever it
/// stands among the attribute's items, changes nothing of the labels.
pub proof fn law_instrument_ignores_other_items(attr: Seq<TokTreeView>, a: Seq<MetaItemView>, x: MetaItemView, b: Seq<MetaItemView>, i: int)
    requires
        labels_list_tokens(attr, x) is None,
        0 <= i <= a.len(),
    ensures
        instrument::labels_from_meta(attr, a + seq![x] + b, i) == instrument::labels_from_meta(attr, a + b, i),
    decreases a.len() - i,
{
    let s1 = a + seq![x] + b;
    let s2 = a + b;
    if i == a.len() {
        assert(s1[i] == x);
        assert forall|k: int| i + 1 <= k < s1.len() implies #[trigger] s1[k] == s2[k - (i + 1) + i] by {
            assert(s1[k] == b[k - i - 1]);
            assert(s2[k - 1] == b[k - 1 - i]);
        }
        lemma_instrument_items_shift(attr, s1, i + 1, s2, i);
    } else {
        assert(s1[i] == a[i]);
        assert(s2[i] == a[i]);
        law_instrument_ignores_other_items(attr, a, x, b, i + 1);
    }
}

/// `#[instrument_metrics]` reads only `labels(...)` lists: an item that is
/// not one, wherever it stands among the attribute's items, changes
/// nothing of the labels.
pub proof fn law_instrument_metrics_ignores_other_items(attr: Seq<TokTreeView>, a: Seq<MetaItemView>, x: MetaItemView, b: Seq<MetaItemView>, i: int)
    requires
        labels_list_tokens(attr, x) is None,
        0 <= i <= a.len(),
    ensures
        instrument_metrics::labels_from_meta(attr, a + seq![x] + b, i) == instrument_metrics::labels_from_meta(attr, a + b, i),
    decreases a.len() - i,
{
    let s1 = a + seq![x] + b;
    let s2 = a + b;
    if i == a.len() {
        assert(s1[i] == x);
        assert forall|k: int| i + 1 <= k < s1.len() implies #[trigger] s1[k] == s2[k - (i + 1) + i] by {
            assert(s1[k] == b[k - i - 1]);
            assert(s2[k - 1] == b[k - 1 - i]);
        }
        lemma_metrics_items_shift(attr, s1, i + 1, s2, i);
    } else {
        assert(s1[i] == a[i]);
        assert(s2[i] == a[i]);
        law_instrument_metrics_ignores_other_items(attr, a, x, b, i + 1);
        match labels_list_tokens(attr, a[i]) {
            Some(inner) => {},
            None => {},
        }
    }
}

/// Whether no item of the attribute is a `labels(...)` list.
pub open spec fn no_labels_list(attr: Seq<TokTreeView>, items: Seq<MetaItemView>) -> bool {
    forall|i: int| 0 <= i < items.len() ==> (#[trigger] labels_list_tokens(attr, items[i])) is None
}

/// Without a `labels(...)` list, `#[instrument]` reads no labels: nothing
/// is captured and every metric carries no labels.
pub proof fn law_instrument_no_labels_list(attr: Seq<TokTreeView>, items: Seq<MetaItemView>, i: int)
    requires
        no_labels_list(attr, items),
        0 <= i,
    ensures
        instrument::labels_from_meta(attr, items, i) == Ok::<Seq<LabelView>, MacroErrorView>(Seq::empty()),
    decreases items.len() - i,
{
    if i < items.len() {
        assert(labels_list_tokens(attr, items[i]) is None);
        law_instrument_no_labels_list(attr, items, i + 1);
    }
}

/// Without a `labels(...)` list, `#[instrument_metrics]` reads no labels.
pub proof fn law_instrument_metrics_no_labels_list(attr: Seq<TokTreeView>, items: Seq<MetaItemView>, i: int)
    requires
        no_labels_list(attr, items),
        0 <= i,
    ensures
        instrument_metrics::labels_from_meta(attr, items, i) == Ok::<Seq<LabelView>, MacroErrorView>(Seq::empty()),
    decreases items.len() - i,
{
    if i < items.len() {
        assert(labels_list_tokens(attr, items[i]) is None);
        law_instrument_metrics_no_labels_list(attr, items, i + 1);
    }
}

/// `#[instrument_metrics]` reads the labels of every `labels(...)` list:
/// for item lists `a` and `b`, the labels of `a` followed by `b` are those
/// of `a` followed by those of `b` (or the first error).
pub proof fn law_instrument_metrics_labels_lists_join(attr: Seq<TokTreeView>, a: Seq<MetaItemView>, b: Seq<MetaItemView>, i: int)
    requires
        0 <= i <= a.len(),
        instrument_metrics::labels_from_meta(attr, a, i) is Ok,
    ensures
        instrument_metrics::labels_from_meta(attr, a + b, i) == match instrument_metrics::labels_from_meta(attr, b, 0) {
            Ok(rest) => Ok::<Seq<LabelView>, MacroErrorView>(instrument_metrics::labels_from_meta(attr, a, i)->Ok_0 + rest),
            Err(e) => Err(e),
        },
    decreases a.len() - i,
{
    if i == a.len() {
        assert forall|k: int| i <= k < (a + b).len() implies #[trigger] (a + b)[k] == b[k - i + 0] by {}
        lemma_metrics_items_shift(attr, a + b, i, b, 0);
        match instrument_metrics::labels_from_meta(attr, b, 0) {
            Ok(rest) => assert(Seq::<LabelView>::empty() + rest =~= rest),
            Err(_) => {},
        }
    } else {
        assert((a + b)[i] == a[i]);
        law_instrument_metrics_labels_lists_join(attr, a, b, i + 1);
        match instrument_metrics::labels_from_meta(attr, b, 0) {
            Ok(rest) => {
                match labels_list_tokens(attr, a[i]) {
                    Some(inner) => {
                        let items = meta_items(inner, 0)->Ok_0;
                        let here = instrument_metrics::list_labels(inner, items, 0)->Ok_0;
                        let later = instrument_metrics::labels_from_meta(attr, a, i + 1)->Ok_0;
                        assert(here + (later + rest) =~= (here + later) + rest);
                    },
                    None => {},
                }
            },
            Err(_) => {},
        }
    }
}

/// `#[instrument]` reads only the first `labels(...)` list: when the items
/// `a` hold one (from item `i` on), items appended after them change
/// nothing.
pub proof fn law_instrument_later_lists_ignored(attr: Seq<TokTreeView>, a: Seq<MetaItemView>, b: Seq<MetaItemView>, i: int)
    requires
        0 <= i <= a.len(),
        exists|j: int| i <= j < a.len() && (#[trigger] labels_list_tokens(attr, a[j])) is Some,
    ensures
        instrument::labels_from_meta(attr, a + b, i) == instrument::labels_from_meta(attr, a, i),
    decreases a.len() - i,
{
    let j = choose|j: int| i <= j < a.len() && (#[trigger] labels_list_tokens(attr, a[j])) is Some;
    assert((a + b)[i] == a[i]);
    if labels_list_tokens(attr, a[i]) is None {
        assert(i + 1 <= j);
        law_instrument_later_lists_ignored(attr, a, b, i + 1);
    }
}

/// In `#[instrument]`'s labels, `key = "value"` is a static label under
/// `key` with the literal's value.
pub proof fn law_static_label(key: Seq<char>, eq: TokTreeView, lit: TokTreeView, value: Seq<char>)
    requires
        plain_ident(key),
        is_eq_sign(eq),
        lit is Literal,
        parsed_expr(render_tree(lit)) == Ok::<ExprShapeView, Seq<char>>(ExprShapeView::StrLit(value)),
    ensures
        instrument::label_list(seq![TokTreeView::Ident(key), eq, lit], 0)
            == Ok::<Seq<LabelView>, Seq<char>>(seq![LabelView { key, value: LabelValueView::Static(value) }]),
{
    let toks = seq![TokTreeView::Ident(key), eq, lit];
    assert(toks.subrange(2, 3) =~= seq![lit]);
    assert(render(seq![lit]) == render_tree(lit));
    assert(instrument::expr_from(toks, 2, 2) == instrument::expr_from(toks, 2, 3));
}

/// In `#[instrument]`'s labels, a bare parameter name `name` is a dynamic
/// label under `name`, whose value is that parameter.
pub proof fn law_parameter_label(name: Seq<char>)
    requires
        parsed_expr(ident_text(name)) == Ok::<ExprShapeView, Seq<char>>(ExprShapeView::Path(false, seq![(name, true)])),
    ensures
        instrument::label_list(seq![TokTreeView::Ident(name)], 0)
            == Ok::<Seq<LabelView>, Seq<char>>(seq![LabelView { key: name, value: LabelValueView::Dynamic(ident_text(name)) }]),
{
    let toks = seq![TokTreeView::Ident(name)];
    assert(toks.subrange(0, 1) =~= toks);
    assert(render(toks) == render_tree(toks[0]));
    assert(render(toks) == ident_text(name));
    assert(instrument::expr_from(toks, 0, 0) == instrument::expr_from(toks, 0, 1));
}

/// In `#[instrument]`'s labels, a field access `base.member` (written
/// without commas) is a dynamic label under the member's name, whose value
/// is the whole expression.
pub proof fn law_field_label(toks: Seq<TokTreeView>, member: Seq<char>)
    requires
        toks.len() >= 3,
        toks[1] matches TokTreeView::Punct(c, _) && c == "."@,
        forall|i: int| 0 <= i < toks.len() ==> !is_comma(#[trigger] toks[i]),
        parsed_expr(render(toks)) == Ok::<ExprShapeView, Seq<char>>(ExprShapeView::Field(member)),
    ensures
        instrument::label_list(toks, 0)
            == Ok::<Seq<LabelView>, Seq<char>>(seq![LabelView { key: member, value: LabelValueView::Dynamic(render(toks)) }]),
{
    reveal_strlit(".");
    reveal_strlit("=");
    assert("."@[0] != "="@[0]);
    assert(!is_eq_sign(toks[1]));
    lemma_expr_from_no_comma(toks, 0, 0);
    assert(toks.subrange(0, toks.len() as int) =~= toks);
}

/// Without commas, the expression runs to the end of the tokens.
proof fn lemma_expr_from_no_comma(toks: Seq<TokTreeView>, start: int, j: int)
    requires
        0 <= start <= j <= toks.len(),
        forall|i: int| 0 <= i < toks.len() ==> !is_comma(#[trigger] toks[i]),
    ensures
        instrument::expr_from(toks, start, j) == instrument::expr_from(toks, start, toks.len() as int),
    decreases toks.len() - j,
{
    if j < toks.len() {
        assert(!is_comma(toks[j]));
        lemma_expr_from_no_comma(toks, start, j + 1);
    }
}

/// The tokens of an attribute with one more item `z` written after its
/// items: `attr, z` (or `z` alone when there were none).
pub open spec fn with_item(attr: Seq<TokTreeView>, z: Seq<TokTreeView>) -> Seq<TokTreeView> {
    if attr.len() == 0 {
        z
    } else {
        attr + seq![TokTreeView::Punct(","@, false)] + z
    }
}

/// Whether a comma stands among the tokens (outside any group).
pub open spec fn has_comma(toks: Seq<TokTreeView>) -> bool {
    exists|i: int| 0 <= i < toks.len() && is_comma(#[trigger] toks[i])
}

/// Extending the tokens after a comma does not change where an item that
/// ends within them ends, nor its shape.
proof fn lemma_meta_from_prefix(attr: Seq<TokTreeView>, extra: Seq<TokTreeView>, start: int, j: int)
    requires
        0 <= start <= j <= attr.len(),
        extra.len() > 0,
        is_comma(extra[0]),
        meta_from(attr, start, j) is Ok,
    ensures
        meta_from(attr + extra, start, j) == meta_from(attr, start, j),
    decreases attr.len() - j,
{
    let t = attr + extra;
    if j == attr.len() {
        assert(t[j] == extra[0]);
        assert(t.subrange(start, j) =~= attr.subrange(start, attr.len() as int));
    } else {
        assert(t[j] == attr[j]);
        assert(t.subrange(start, j) =~= attr.subrange(start, j));
        if is_comma(attr[j]) && parsed_meta(render(attr.subrange(start, j))) is Ok {
        } else {
            lemma_meta_from_prefix(attr, extra, start, j + 1);
        }
    }
}

/// The items of `attr` followed by a comma and more tokens are the items
/// of `attr` followed by those of the more tokens.
proof fn lemma_meta_items_prefix(attr: Seq<TokTreeView>, extra: Seq<TokTreeView>, i: int)
    requires
        0 <= i < attr.len(),
        !is_comma(attr.last()),
        extra.len() > 0,
        is_comma(extra[0]),
        meta_items(attr, i) is Ok,
    ensures
        meta_items(attr + extra, i) == match meta_items(attr + extra, attr.len() + 1int) {
            Ok(rest) => Ok::<Seq<MetaItemView>, Seq<char>>(meta_items(attr, i)->Ok_0 + rest),
            Err(e) => Err(e),
        },
    decreases attr.len() - i,
{
    let t = attr + extra;
    lemma_meta_from_end(attr, i, i);
    lemma_meta_from_prefix(attr, extra, i, i);
    let (end, shape) = meta_from(attr, i, i)->Ok_0;
    let it = MetaItemView { shape, start: i, end };
    if end >= attr.len() {
        assert(t[end] == extra[0]);
        match meta_items(t, attr.len() + 1int) {
            Ok(rest) => {},
            Err(_) => {},
        }
    } else {
        assert(t[end] == attr[end]);
        assert(end + 1 < attr.len());
        lemma_meta_items_prefix(attr, extra, end + 1);
        match meta_items(t, attr.len() + 1int) {
            Ok(rest) => {
                let later = meta_items(attr, end + 1)->Ok_0;
                assert(seq![it] + (later + rest) =~= (seq![it] + later) + rest);
            },
            Err(_) => {},
        }
    }
}

/// Without commas, an item runs to the end of the tokens.
proof fn lemma_meta_from_no_comma(toks: Seq<TokTreeView>, start: int, j: int)
    requires
        0 <= start <= j <= toks.len(),
        forall|i: int| start <= i < toks.len() ==> !is_comma(#[trigger] toks[i]),
    ensures
        meta_from(toks, start, j) == meta_from(toks, start, toks.len() as int),
    decreases toks.len() - j,
{
    if j < toks.len() {
        assert(!is_comma(toks[j]));
        lemma_meta_from_no_comma(toks, start, j + 1);
    }
}

/// An item without commas, written last, is one item.
proof fn lemma_meta_items_last(t: Seq<TokTreeView>, p: int, shape: MetaShapeView)
    requires
        0 <= p < t.len(),
        forall|i: int| p <= i < t.len() ==> !is_comma(#[trigger] t[i]),
        parsed_meta(render(t.subrange(p, t.len() as int))) == Ok::<MetaShapeView, Seq<char>>(shape),
    ensures
        meta_items(t, p) == Ok::<Seq<MetaItemView>, Seq<char>>(seq![MetaItemView { shape, start: p, end: t.len() as int }]),
{
    lemma_meta_from_no_comma(t, p, p);
}

/// The items of [`with_item`]: those of `attr`, then `z`.
proof fn lemma_with_item_items(attr: Seq<TokTreeView>, z: Seq<TokTreeView>, zshape: MetaShapeView)
    requires
        meta_items(attr, 0) is Ok,
        attr.len() > 0 ==> !is_comma(attr.last()),
        z.len() > 0,
        !has_comma(z),
        parsed_meta(render(z)) == Ok::<MetaShapeView, Seq<char>>(zshape),
    ensures
        meta_items(with_item(attr, z), 0) == Ok::<Seq<MetaItemView>, Seq<char>>(meta_items(attr, 0)->Ok_0
            + seq![MetaItemView { shape: zshape, start: with_item(attr, z).len() - z.len(), end: with_item(attr, z).len() as int }]),
{
    let t = with_item(attr, z);
    let p = t.len() - z.len();
    assert(t.subrange(p, t.len() as int) =~= z);
    assert forall|i: int| p <= i < t.len() implies !is_comma(#[trigger] t[i]) by {
        assert(t[i] == z[i - p]);
    }
    lemma_meta_items_last(t, p, zshape);
    if attr.len() == 0 {
        assert(meta_items(attr, 0)->Ok_0 =~= Seq::<MetaItemView>::empty());
        assert(Seq::<MetaItemView>::empty() + seq![MetaItemView { shape: zshape, start: 0, end: t.len() as int }]
            =~= seq![MetaItemView { shape: zshape, start: 0, end: t.len() as int }]);
    } else {
        let extra = seq![TokTreeView::Punct(","@, false)] + z;
        reveal_strlit(",");
        assert(t =~= attr + extra);
        assert(is_comma(extra[0]));
        lemma_meta_items_prefix(attr, extra, 0);
    }
}

/// Reading labels looks only at the tokens the items span.
proof fn lemma_labels_tokens_prefix(attr: Seq<TokTreeView>, t: Seq<TokTreeView>, items: Seq<MetaItemView>, i: int)
    requires
        0 <= i,
        attr.len() <= t.len(),
        forall|k: int| 0 <= k < attr.len() ==> #[trigger] t[k] == attr[k],
        forall|k: int| 0 <= k < items.len() ==> (#[trigger] items[k]).end <= attr.len(),
    ensures
        instrument::labels_from_meta(t, items, i) == instrument::labels_from_meta(attr, items, i),
        instrument_metrics::labels_from_meta(t, items, i) == instrument_metrics::labels_from_meta(attr, items, i),
    decreases items.len() - i,
{
    if i < items.len() {
        let it = items[i];
        assert(it.end <= attr.len());
        if 0 <= it.start < it.end {
            assert(t[it.end - 1] == attr[it.end - 1]);
        }
        assert(labels_list_tokens(t, it) == labels_list_tokens(attr, it));
        lemma_labels_tokens_prefix(attr, t, items, i + 1);
    }
}

/// An item that is not a `labels(...)` list, whatever it is (an unknown
/// key, `counter = "..."`, a flag), written after the attribute's items,
/// changes nothing of what `#[instrument]` and `#[instrument_metrics]`
/// make of the function.
pub proof fn law_appended_item_ignored(args: MetricNameArgsView, attr: Seq<TokTreeView>, z: Seq<TokTreeView>, zshape: MetaShapeView, item: Seq<TokTreeView>)
    requires
        meta_items(attr, 0) is Ok,
        attr.len() > 0 ==> !is_comma(attr.last()),
        z.len() > 0,
        !has_comma(z),
        parsed_meta(render(z)) == Ok::<MetaShapeView, Seq<char>>(zshape),
        !(zshape.kind == MetaKind::List && meta_ident(zshape) == Some("labels"@)),
    ensures
        instrument::spec_instrument(args, with_item(attr, z), item) == instrument::spec_instrument(args, attr, item),
        instrument_metrics::spec_instrument_metrics(args, with_item(attr, z), item)
            == instrument_metrics::spec_instrument_metrics(args, attr, item),
{
    let t = with_item(attr, z);
    let items = meta_items(attr, 0)->Ok_0;
    let x = MetaItemView { shape: zshape, start: t.len() - z.len(), end: t.len() as int };
    lemma_with_item_items(attr, z, zshape);
    assert(labels_list_tokens(t, x) is None);
    assert(items + seq![x] =~= items + seq![x] + Seq::<MetaItemView>::empty());
    assert(items + Seq::<MetaItemView>::empty() =~= items);
    law_instrument_ignores_other_items(t, items, x, Seq::empty(), 0);
    law_instrument_metrics_ignores_other_items(t, items, x, Seq::empty(), 0);
    crate::syntax::lemma_meta_items_ranges(attr, 0);
    if attr.len() > 0 {
        assert forall|k: int| 0 <= k < attr.len() implies #[trigger] t[k] == attr[k] by {
            assert(t == attr + (seq![TokTreeView::Punct(","@, false)] + z));
        }
    }
    lemma_labels_tokens_prefix(attr, t, items, 0);
}

/// Under `#[instrument_metrics]`, when no metric is recorded (no counter
/// and no histogram is named, and no error counter applies), the function
/// is its body alone: no label is captured and no timer started.
pub proof fn law_instrument_metrics_no_metric_only_body(args: MetricNameArgsView, attr: Seq<TokTreeView>, item: Seq<TokTreeView>)
    requires
        instrument_metrics::spec_instrument_metrics(args, attr, item) is Ok,
        !instrument_metrics::records_metric(args, fn_sig(item)),
    ensures
        metrics_steps_of(args, attr, item) == seq![run_step(fn_sig(item)), StepView::ReturnResult],
{
    lemma_metrics_layout(args, attr, item);
    assert(metrics_steps_of(args, attr, item) =~= seq![run_step(fn_sig(item)), StepView::ReturnResult]);
}

/// In `#[instrument]`'s labels, `key = e` with any expression `e` that is
/// not a string literal (a bare identifier, a field access, a call, ...)
/// is a dynamic label under `key`, whose value is the text of `e`.
pub proof fn law_explicit_key_dynamic_label(key: Seq<char>, eq: TokTreeView, value: Seq<TokTreeView>, shape: ExprShapeView)
    requires
        plain_ident(key),
        is_eq_sign(eq),
        value.len() > 0,
        forall|i: int| 0 <= i < value.len() ==> !is_comma(#[trigger] value[i]),
        parsed_expr(render(value)) == Ok::<ExprShapeView, Seq<char>>(shape),
        !(shape is StrLit),
    ensures
        instrument::label_list(seq![TokTreeView::Ident(key), eq] + value, 0)
            == Ok::<Seq<LabelView>, Seq<char>>(seq![LabelView { key, value: LabelValueView::Dynamic(render(value)) }]),
{
    let toks = seq![TokTreeView::Ident(key), eq] + value;
    assert forall|i: int| 0 <= i < toks.len() implies !is_comma(#[trigger] toks[i]) || i < 2 by {
        if i >= 2 {
            assert(toks[i] == value[i - 2]);
        }
    }
    assert forall|i: int| 2 <= i < toks.len() implies !is_comma(#[trigger] toks[i]) by {
        assert(toks[i] == value[i - 2]);
    }
    lemma_expr_from_no_comma_from(toks, 2, 2);
    assert(toks.subrange(2, toks.len() as int) =~= value);
    assert(toks[0] == TokTreeView::Ident(key));
    assert(toks[1] == eq);
}

/// Without commas from `start` on, the expression runs to the end of the
/// tokens.
proof fn lemma_expr_from_no_comma_from(toks: Seq<TokTreeView>, start: int, j: int)
    requires
        0 <= start <= j <= toks.len(),
        forall|i: int| start <= i < toks.len() ==> !is_comma(#[trigger] toks[i]),
    ensures
        instrument::expr_from(toks, start, j) == instrument::expr_from(toks, start, toks.len() as int),
    decreases toks.len() - j,
{
    if j < toks.len() {
        assert(!is_comma(toks[j]));
        lemma_expr_from_no_comma_from(toks, start, j + 1);
    }
}

/// Distinct label keys get distinct capture variables, so each dynamic
/// label's pair reads the value captured for that label alone.
pub proof fn law_capture_vars_distinct(k1: Seq<char>, k2: Seq<char>)
    ensures
        instrument::capture_var(k1) == instrument::capture_var(k2) ==> k1 == k2,
        instrument::capture_var(k1).len() == "__metrics_label_"@.len() + k1.len(),
        instrument::capture_var(k1).subrange(0, "__metrics_label_"@.len() as int) == "__metrics_label_"@,
        instrument::capture_var(k1).subrange("__metrics_label_"@.len() as int, instrument::capture_var(k1).len() as int) == k1,
{
    reveal_strlit("__metrics_label_");
    let p = "__metrics_label_"@.len() as int;
    assert(instrument::capture_var(k1).subrange(0, p) =~= "__metrics_label_"@);
    assert(instrument::capture_var(k1).subrange(p, instrument::capture_var(k1).len() as int) =~= k1);
    if instrument::capture_var(k1) == instrument::capture_var(k2) {
        let p = "__metrics_label_"@.len() as int;
        assert(k1 =~= instrument::capture_var(k1).subrange(p, instrument::capture_var(k1).len() as int));
        assert(k2 =~= instrument::capture_var(k2).subrange(p, instrument::capture_var(k2).len() as int));
    }
}

/// Under `#[instrument]`, two dynamic labels with different keys capture
/// into different variables, and each label's pair reads its own.
pub proof fn law_dynamic_labels_read_their_own_capture(labels: Seq<LabelView>, i: int, j: int)
    requires
        0 <= i < labels.len(),
        0 <= j < labels.len(),
        labels[i].value is Dynamic,
        labels[j].value is Dynamic,
        labels[i].key != labels[j].key,
    ensures
        instrument::label_pairs(labels)[i].value != instrument::label_pairs(labels)[j].value,
        instrument::label_pairs(labels)[i].value == LabelCodeView::CloneOf(instrument::capture_var(labels[i].key)),
{
    law_capture_vars_distinct(labels[i].key, labels[j].key);
}

/// Printing a token tree after a joined punctuation character (as the
/// quote of a lifetime, or the first `:` of `::`) puts nothing between
/// them, so the text lexes back into the same tokens.
pub proof fn law_joint_punct_printed_tight(c: Seq<char>, t: TokTreeView)
    ensures
        render(seq![TokTreeView::Punct(c, true), t]) == c + render_tree(t),
{
    let s = seq![TokTreeView::Punct(c, true), t];
    assert(s.drop_last() =~= seq![TokTreeView::Punct(c, true)]);
    assert(render(s.drop_last()) == render_tree(TokTreeView::Punct(c, true)));
}

/// Any other token is followed by a single space when another follows.
pub proof fn law_separate_tokens_spaced(x: TokTreeView, t: TokTreeView)
    requires
        !(x matches TokTreeView::Punct(_, true)),
    ensures
        render(seq![x, t]) == render_tree(x) + " "@ + render_tree(t),
{
    let s = seq![x, t];
    assert(s.drop_last() =~= seq![x]);
    assert(render(s.drop_last()) == render_tree(x));
    assert(s[s.len() - 2] == x);
    assert(crate::tokens::separator_after(x) == " "@);
}

/// Printing one more token tree appends its text, after the separator
/// that the previous token calls for.
pub proof fn law_render_push(ts: Seq<TokTreeView>, t: TokTreeView)
    ensures
        render(ts.push(t)) == if ts.len() == 0 {
            render_tree(t)
        } else {
            render(ts) + crate::tokens::separator_after(ts.last()) + render_tree(t)
        },
{
    assert(ts.push(t).drop_last() =~= ts);
}

/// In `#[instrument_metrics]`'s labels, `key = "..."` with a string
/// literal is a static label under `key` whose value is the literal's
/// value (escapes resolved), as syn gives it.
pub proof fn law_metrics_static_label_value(toks: Seq<TokTreeView>, item: MetaItemView, key: Seq<char>, v: Seq<char>)
    requires
        item.shape.kind == MetaKind::NameValue,
        meta_ident(item.shape) == Some(key),
        parsed_expr(render(instrument_metrics::item_value(toks, item))) == Ok::<ExprShapeView, Seq<char>>(ExprShapeView::StrLit(v)),
    ensures
        instrument_metrics::metrics_label(toks, item) == Ok::<LabelView, Seq<char>>(LabelView { key, value: LabelValueView::Static(v) }),
{
}

/// In `#[instrument_metrics]`'s labels, a bare name is a dynamic label
/// from the parameter of that name.
pub proof fn law_metrics_parameter_label(toks: Seq<TokTreeView>, item: MetaItemView, key: Seq<char>)
    requires
        item.shape.kind == MetaKind::Path,
        meta_ident(item.shape) == Some(key),
    ensures
        instrument_metrics::metrics_label(toks, item) == Ok::<LabelView, Seq<char>>(LabelView { key, value: LabelValueView::Dynamic(key) }),
{
}

/// The value of a `name = value` item of `#[instrument_metrics]`'s labels
/// is the tokens after the item's first `=`, up to the item's end.
pub proof fn law_metrics_item_value_after_first_eq(toks: Seq<TokTreeView>, item: MetaItemView, p: int)
    requires
        item.start <= p < item.end,
        is_eq_sign(toks[p]),
        forall|q: int| item.start <= q < p ==> !is_eq_sign(#[trigger] toks[q]),
    ensures
        instrument_metrics::item_value(toks, item) == toks.subrange(p + 1, item.end),
{
    lemma_eq_from_first(toks, item.start, item.end, p);
}

proof fn lemma_eq_from_first(toks: Seq<TokTreeView>, j: int, end: int, p: int)
    requires
        j <= p < end,
        is_eq_sign(toks[p]),
        forall|q: int| j <= q < p ==> !is_eq_sign(#[trigger] toks[q]),
    ensures
        instrument_metrics::eq_from(toks, j, end) == p,
    decreases p - j,
{
    if j < p {
        assert(!is_eq_sign(toks[j]));
        lemma_eq_from_first(toks, j + 1, end, p);
    }
}

/// A group is printed as its delimiters around its printed contents
/// (an invisible group in parentheses).
pub proof fn law_group_printed_delimited(ts: Seq<TokTreeView>)
    ensures
        render_tree(TokTreeView::Group(crate::tokens::Delim::Paren, ts)) == "("@ + render(ts) + ")"@,
        render_tree(TokTreeView::Group(crate::tokens::Delim::Bracket, ts)) == "["@ + render(ts) + "]"@,
        render_tree(TokTreeView::Group(crate::tokens::Delim::Brace, ts)) == "{"@ + render(ts) + "}"@,
        render_tree(TokTreeView::Group(crate::tokens::Delim::Invisible, ts)) == "("@ + render(ts) + ")"@,
{
}

} // verus!
