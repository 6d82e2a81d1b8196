//! Assembly of the instrumented body, shared by both macros.

use vstd::prelude::*;
use crate::model::{FnShape, FnShapeView, LabelPairView, ReturnShape, ReturnShapeView, Step, StepView, TypeShape, TypeShapeView};

verus! {

pub open spec fn opt_step_view(o: Option<Step>) -> Option<StepView> {
    match o {
        Some(s) => Some(s@),
        None => None,
    }
}

/// The steps contributed by an optional step: itself, or nothing.
pub open spec fn opt_steps(o: Option<StepView>) -> Seq<StepView> {
    match o {
        Some(s) => seq![s],
        None => Seq::empty(),
    }
}

/// The timer's start, when timing is needed.
pub open spec fn timer_steps(needs_timing: bool) -> Seq<StepView> {
    if needs_timing {
        seq![StepView::StartTimer]
    } else {
        Seq::empty()
    }
}

/// The instrumented body: the label captures, the call counter, the start
/// of the timer when timing is needed, the original body (`run`), the
/// duration record, the error counter, and the return of the body's value.
pub open spec fn body_steps(
    captures: Seq<StepView>,
    counter: Option<StepView>,
    histogram: Option<StepView>,
    error_counter: Option<StepView>,
    needs_timing: bool,
    run: StepView,
) -> Seq<StepView> {
    captures + opt_steps(counter) + timer_steps(needs_timing) + seq![run] + opt_steps(histogram)
        + opt_steps(error_counter) + seq![StepView::ReturnResult]
}

fn assemble_body(
    label_captures: Vec<Step>,
    counter_code: Option<Step>,
    histogram_code: Option<Step>,
    error_counter_code: Option<Step>,
    needs_timing: bool,
    run: Step,
) -> (r: Vec<Step>)
    ensures
        r.deep_view() == body_steps(
            label_captures.deep_view(),
            opt_step_view(counter_code),
            opt_step_view(histogram_code),
            opt_step_view(error_counter_code),
            needs_timing,
            run@,
        ),
{
    let ghost run_view = run@;
    let mut r = label_captures;
    let ghost mut expected = r.deep_view();
    match counter_code {
        Some(c) => {
            proof { expected = expected.push(c@); }
            r.push(c);
        },
        None => {},
    }
    assert(r.deep_view() =~= expected);
    if needs_timing {
        proof { expected = expected.push(StepView::StartTimer); }
        r.push(Step::StartTimer);
    }
    assert(r.deep_view() =~= expected);
    proof { expected = expected.push(run_view); }
    r.push(run);
    assert(r.deep_view() =~= expected);
    match histogram_code {
        Some(h) => {
            proof { expected = expected.push(h@); }
            r.push(h);
        },
        None => {},
    }
    assert(r.deep_view() =~= expected);
    match error_counter_code {
        Some(e) => {
            proof { expected = expected.push(e@); }
            r.push(e);
        },
        None => {},
    }
    assert(r.deep_view() =~= expected);
    proof { expected = expected.push(StepView::ReturnResult); }
    r.push(Step::ReturnResult);
    assert(r.deep_view() =~= expected);
    r
}

/// The body of an instrumented `async fn`: the original body runs as an
/// awaited async block.
pub fn build_async_body(
    label_captures: Vec<Step>,
    counter_code: Option<Step>,
    histogram_code: Option<Step>,
    error_counter_code: Option<Step>,
    needs_timing: bool,
) -> (r: Vec<Step>)
    ensures
        r.deep_view() == body_steps(
            label_captures.deep_view(),
            opt_step_view(counter_code),
            opt_step_view(histogram_code),
            opt_step_view(error_counter_code),
            needs_timing,
            StepView::AwaitBody,
        ),
{
    assemble_body(label_captures, counter_code, histogram_code, error_counter_code, needs_timing, Step::AwaitBody)
}

/// The body of an instrumented synchronous function.
pub fn build_sync_body(
    label_captures: Vec<Step>,
    counter_code: Option<Step>,
    histogram_code: Option<Step>,
    error_counter_code: Option<Step>,
    needs_timing: bool,
) -> (r: Vec<Step>)
    ensures
        r.deep_view() == body_steps(
            label_captures.deep_view(),
            opt_step_view(counter_code),
            opt_step_view(histogram_code),
            opt_step_view(error_counter_code),
            needs_timing,
            StepView::RunBody,
        ),
{
    assemble_body(label_captures, counter_code, histogram_code, error_counter_code, needs_timing, Step::RunBody)
}

/// Whether a type is taken for a `Result`: a path type whose last segment
/// is named `Result`.
pub open spec fn spec_is_result_type(ty: TypeShapeView) -> bool {
    match ty {
        TypeShapeView::Path(segs) => segs.len() > 0 && segs.last() == "Result"@,
        TypeShapeView::Other => false,
    }
}

/// Whether a function's declared return type is taken for a `Result`.
pub open spec fn returns_result(sig: FnShapeView) -> bool {
    match sig.output {
        ReturnShapeView::Type(ty) => spec_is_result_type(ty),
        ReturnShapeView::Default => false,
    }
}

/// Decides whether a type is a `Result` by the name of its last path
/// segment (so `Result<T, E>`, `std::result::Result<T, E>` and
/// `io::Result<T>` all count).
pub fn is_result_type(ty: &TypeShape) -> (r: bool)
    ensures
        r == spec_is_result_type(ty@),
{
    match ty {
        TypeShape::Path(segs) => {
            if segs.len() > 0 {
                let result_name = String::from_str("Result");
                segs[segs.len() - 1] == result_name
            } else {
                false
            }
        },
        TypeShape::Other => false,
    }
}

/// Whether the annotated function returns a `Result`.
pub fn fn_returns_result(sig: &FnShape) -> (r: bool)
    ensures
        r == returns_result(sig@),
{
    match &sig.output {
        ReturnShape::Type(ty) => is_result_type(ty),
        ReturnShape::Default => false,
    }
}

/// The step that runs the original body.
pub open spec fn run_step(sig: FnShapeView) -> StepView {
    if sig.is_async {
        StepView::AwaitBody
    } else {
        StepView::RunBody
    }
}

/// Whether a step runs the original body.
pub open spec fn is_run(s: StepView) -> bool {
    s is RunBody || s is AwaitBody
}

/// Whether a step records a metric (the steps compiled only with the
/// `metrics` feature).
pub open spec fn is_metric(s: StepView) -> bool {
    s is IncrementCounter || s is RecordDuration || s is CountError
}

/// The label pairs a metric step passes.
pub open spec fn metric_labels(s: StepView) -> Seq<LabelPairView> {
    match s {
        StepView::IncrementCounter { labels, .. } => labels,
        StepView::RecordDuration { labels, .. } => labels,
        StepView::CountError { labels, .. } => labels,
        _ => Seq::empty(),
    }
}

/// Whether a step is compiled only with the `metrics` feature: every step
/// but running the body and returning its value.
pub open spec fn is_gated(s: StepView) -> bool {
    !is_run(s) && !(s is ReturnResult)
}

/// The steps that remain when the `metrics` feature is off.
pub open spec fn without_feature(steps: Seq<StepView>) -> Seq<StepView>
    decreases steps.len(),
{
    if steps.len() == 0 {
        Seq::empty()
    } else if is_gated(steps.last()) {
        without_feature(steps.drop_last())
    } else {
        without_feature(steps.drop_last()).push(steps.last())
    }
}

pub proof fn lemma_without_feature_concat(a: Seq<StepView>, b: Seq<StepView>)
    ensures
        without_feature(a + b) == without_feature(a) + without_feature(b),
    decreases b.len(),
{
    if b.len() == 0 {
        assert(a + b =~= a);
        assert(without_feature(a) + without_feature(b) =~= without_feature(a));
    } else {
        assert((a + b).drop_last() =~= a + b.drop_last());
        assert((a + b).last() == b.last());
        lemma_without_feature_concat(a, b.drop_last());
        if !is_gated(b.last()) {
            assert(without_feature(a) + without_feature(b.drop_last()).push(b.last()) =~= (without_feature(a) + without_feature(b.drop_last())).push(b.last()));
        }
    }
}

/// A sequence of gated steps disappears entirely without the feature.
pub proof fn lemma_all_gated(steps: Seq<StepView>)
    requires
        forall|i: int| 0 <= i < steps.len() ==> is_gated(#[trigger] steps[i]),
    ensures
        without_feature(steps) == Seq::<StepView>::empty(),
    decreases steps.len(),
{
    if steps.len() > 0 {
        assert(is_gated(steps[steps.len() - 1]));
        lemma_without_feature_concat(steps.drop_last(), seq![steps.last()]);
        assert(steps.drop_last() + seq![steps.last()] =~= steps);
        lemma_all_gated(steps.drop_last());
        assert(seq![steps.last()].drop_last() =~= Seq::<StepView>::empty());
    }
}

/// [`without_feature`] of a single step.
pub proof fn lemma_without_feature_single(x: StepView)
    ensures
        without_feature(seq![x]) == (if is_gated(x) { Seq::<StepView>::empty() } else { seq![x] }),
{
    assert(seq![x].drop_last() =~= Seq::<StepView>::empty());
    assert(without_feature(Seq::<StepView>::empty()) == Seq::<StepView>::empty());
    assert(Seq::<StepView>::empty().push(x) =~= seq![x]);
}

/// Whatever is gated around the body, without the feature only the body
/// and the return of its value remain.
pub proof fn lemma_body_without_feature(
    captures: Seq<StepView>,
    counter: Option<StepView>,
    histogram: Option<StepView>,
    error_counter: Option<StepView>,
    needs_timing: bool,
    run: StepView,
)
    requires
        forall|i: int| 0 <= i < captures.len() ==> is_gated(#[trigger] captures[i]),
        counter matches Some(c) ==> is_gated(c),
        histogram matches Some(h) ==> is_gated(h),
        error_counter matches Some(e) ==> is_gated(e),
        is_run(run),
    ensures
        without_feature(body_steps(captures, counter, histogram, error_counter, needs_timing, run))
            == seq![run, StepView::ReturnResult],
{
    let before = captures + opt_steps(counter) + timer_steps(needs_timing);
    let after = opt_steps(histogram) + opt_steps(error_counter);
    assert(forall|i: int| 0 <= i < opt_steps(counter).len() ==> is_gated(#[trigger] opt_steps(counter)[i]));
    assert(forall|i: int| 0 <= i < timer_steps(needs_timing).len() ==> is_gated(#[trigger] timer_steps(needs_timing)[i]));
    assert(forall|i: int| 0 <= i < opt_steps(histogram).len() ==> is_gated(#[trigger] opt_steps(histogram)[i]));
    assert(forall|i: int| 0 <= i < opt_steps(error_counter).len() ==> is_gated(#[trigger] opt_steps(error_counter)[i]));
    assert forall|i: int| 0 <= i < before.len() implies is_gated(#[trigger] before[i]) by {
        if i < captures.len() {
            assert(before[i] == captures[i]);
        } else if i < captures.len() + opt_steps(counter).len() {
            assert(before[i] == opt_steps(counter)[i - captures.len()]);
        } else {
            assert(before[i] == timer_steps(needs_timing)[i - captures.len() - opt_steps(counter).len()]);
        }
    }
    assert forall|i: int| 0 <= i < after.len() implies is_gated(#[trigger] after[i]) by {
        if i < opt_steps(histogram).len() {
            assert(after[i] == opt_steps(histogram)[i]);
        } else {
            assert(after[i] == opt_steps(error_counter)[i - opt_steps(histogram).len()]);
        }
    }
    lemma_all_gated(before);
    lemma_all_gated(after);
    assert(body_steps(captures, counter, histogram, error_counter, needs_timing, run)
        =~= before + seq![run] + after + seq![StepView::ReturnResult]);
    lemma_without_feature_concat(before + seq![run] + after, seq![StepView::ReturnResult]);
    lemma_without_feature_concat(before + seq![run], after);
    lemma_without_feature_concat(before, seq![run]);
    lemma_without_feature_single(run);
    lemma_without_feature_single(StepView::ReturnResult);
    assert(Seq::<StepView>::empty() + seq![run] + Seq::<StepView>::empty() + seq![StepView::ReturnResult]
        =~= seq![run, StepView::ReturnResult]);
}

/// The steps before the body: captures, call counter, timer.
pub open spec fn steps_before_run(captures: Seq<StepView>, counter: Option<StepView>, needs_timing: bool) -> Seq<StepView> {
    captures + opt_steps(counter) + timer_steps(needs_timing)
}

/// The body is the sequence of steps before it, the run step, the metric
/// steps after it, and the return.
pub proof fn lemma_body_steps_split(
    captures: Seq<StepView>,
    counter: Option<StepView>,
    histogram: Option<StepView>,
    error_counter: Option<StepView>,
    needs_timing: bool,
    run: StepView,
)
    ensures
        body_steps(captures, counter, histogram, error_counter, needs_timing, run)
            == steps_before_run(captures, counter, needs_timing) + seq![run]
                + (opt_steps(histogram) + opt_steps(error_counter)) + seq![StepView::ReturnResult],
{
    assert(body_steps(captures, counter, histogram, error_counter, needs_timing, run)
        =~= steps_before_run(captures, counter, needs_timing) + seq![run]
            + (opt_steps(histogram) + opt_steps(error_counter)) + seq![StepView::ReturnResult]);
}

} // verus!
