//! Plain-value models of what the macros read (the annotated function's
//! signature, the metric-name arguments, the parsed labels) and of what
//! they produce (the steps of the instrumented body).

use vstd::prelude::*;

verus! {

/// The value of a label.
pub enum LabelValue {
    /// A fixed string: `key = "value"`.
    Static(String),
    /// A value computed at run time by displaying an expression; holds the
    /// expression's text.
    Dynamic(String),
}

/// A label as written in `labels(...)`.
pub struct Label {
    pub key: String,
    pub value: LabelValue,
}

pub enum LabelValueView {
    Static(Seq<char>),
    Dynamic(Seq<char>),
}

pub struct LabelView {
    pub key: Seq<char>,
    pub value: LabelValueView,
}

impl View for Label {
    type V = LabelView;

    open spec fn view(&self) -> LabelView {
        LabelView {
            key: self.key@,
            value: match self.value {
                LabelValue::Static(s) => LabelValueView::Static(s@),
                LabelValue::Dynamic(s) => LabelValueView::Dynamic(s@),
            },
        }
    }
}

impl DeepView for Label {
    type V = LabelView;

    open spec fn deep_view(&self) -> LabelView {
        self@
    }
}

/// The code that supplies a label's value to a metric.
pub enum LabelCode {
    /// The string literal itself.
    Literal(String),
    /// `var.clone()` of a variable that holds the captured value.
    CloneOf(String),
}

/// A `key => value` pair passed to a metrics macro.
pub struct LabelPair {
    pub key: String,
    pub value: LabelCode,
}

pub enum LabelCodeView {
    Literal(Seq<char>),
    CloneOf(Seq<char>),
}

pub struct LabelPairView {
    pub key: Seq<char>,
    pub value: LabelCodeView,
}

impl View for LabelPair {
    type V = LabelPairView;

    open spec fn view(&self) -> LabelPairView {
        LabelPairView {
            key: self.key@,
            value: match self.value {
                LabelCode::Literal(s) => LabelCodeView::Literal(s@),
                LabelCode::CloneOf(s) => LabelCodeView::CloneOf(s@),
            },
        }
    }
}

impl DeepView for LabelPair {
    type V = LabelPairView;

    open spec fn deep_view(&self) -> LabelPairView {
        self@
    }
}

/// One step of the instrumented function body, in execution order.
/// Every step but running the body and returning its value is compiled
/// only with the `metrics` feature.
pub enum Step {
    /// `let var = (expr).to_string();`
    CaptureLabel { var: String, expr: String },
    /// Increment counter `name` by one.
    IncrementCounter { name: String, labels: Vec<LabelPair> },
    /// `let __metrics_start = Instant::now();`
    StartTimer,
    /// Run the original body as an immediately called closure and keep its
    /// value; a `return` or `?` in the body ends only the body.
    RunBody,
    /// Run the original body as an async block, await it and keep its
    /// value; a `return` or `?` in the body ends only the body.
    AwaitBody,
    /// Record the time elapsed since the start in histogram `name`.
    RecordDuration { name: String, labels: Vec<LabelPair> },
    /// Increment counter `name` when the kept value is an `Err`.
    CountError { name: String, labels: Vec<LabelPair> },
    /// Return the kept value.
    ReturnResult,
}

pub enum StepView {
    CaptureLabel { var: Seq<char>, expr: Seq<char> },
    IncrementCounter { name: Seq<char>, labels: Seq<LabelPairView> },
    StartTimer,
    RunBody,
    AwaitBody,
    RecordDuration { name: Seq<char>, labels: Seq<LabelPairView> },
    CountError { name: Seq<char>, labels: Seq<LabelPairView> },
    ReturnResult,
}

impl View for Step {
    type V = StepView;

    open spec fn view(&self) -> StepView {
        match self {
            Step::CaptureLabel { var, expr } => StepView::CaptureLabel { var: var@, expr: expr@ },
            Step::IncrementCounter { name, labels } => StepView::IncrementCounter {
                name: name@,
                labels: labels.deep_view(),
            },
            Step::StartTimer => StepView::StartTimer,
            Step::RunBody => StepView::RunBody,
            Step::AwaitBody => StepView::AwaitBody,
            Step::RecordDuration { name, labels } => StepView::RecordDuration {
                name: name@,
                labels: labels.deep_view(),
            },
            Step::CountError { name, labels } => StepView::CountError {
                name: name@,
                labels: labels.deep_view(),
            },
            Step::ReturnResult => StepView::ReturnResult,
        }
    }
}

impl DeepView for Step {
    type V = StepView;

    open spec fn deep_view(&self) -> StepView {
        self@
    }
}

/// The shape of a type, as far as the macros look at it.
pub enum TypeShape {
    /// A path type, with the identifiers of its segments in order.
    Path(Vec<String>),
    /// Any other type.
    Other,
}

/// The declared return type of a function.
pub enum ReturnShape {
    /// No `-> T`.
    Default,
    Type(TypeShape),
}

/// What the macros read of the annotated function's signature.
pub struct FnShape {
    pub name: String,
    pub is_async: bool,
    pub output: ReturnShape,
}

pub enum TypeShapeView {
    Path(Seq<Seq<char>>),
    Other,
}

pub enum ReturnShapeView {
    Default,
    Type(TypeShapeView),
}

pub struct FnShapeView {
    pub name: Seq<char>,
    pub is_async: bool,
    pub output: ReturnShapeView,
}

impl View for TypeShape {
    type V = TypeShapeView;

    open spec fn view(&self) -> TypeShapeView {
        match self {
            TypeShape::Path(segs) => TypeShapeView::Path(segs.deep_view()),
            TypeShape::Other => TypeShapeView::Other,
        }
    }
}

impl View for FnShape {
    type V = FnShapeView;

    open spec fn view(&self) -> FnShapeView {
        FnShapeView {
            name: self.name@,
            is_async: self.is_async,
            output: match self.output {
                ReturnShape::Default => ReturnShapeView::Default,
                ReturnShape::Type(t) => ReturnShapeView::Type(t@),
            },
        }
    }
}

/// The metric-name arguments of the attribute (`counter = "..."`,
/// `histogram = "..."`, `error_counter = "..."`), each when given.
pub struct MetricNameArgs {
    pub counter: Option<String>,
    pub histogram: Option<String>,
    pub error_counter: Option<String>,
}

pub struct MetricNameArgsView {
    pub counter: Option<Seq<char>>,
    pub histogram: Option<Seq<char>>,
    pub error_counter: Option<Seq<char>>,
}

pub open spec fn opt_view(o: Option<String>) -> Option<Seq<char>> {
    match o {
        Some(s) => Some(s@),
        None => None,
    }
}

impl View for MetricNameArgs {
    type V = MetricNameArgsView;

    open spec fn view(&self) -> MetricNameArgsView {
        MetricNameArgsView {
            counter: opt_view(self.counter),
            histogram: opt_view(self.histogram),
            error_counter: opt_view(self.error_counter),
        }
    }
}

/// Why a macro refused its input.
pub enum MacroError {
    /// The attribute's syntax did not parse; the parser's message.
    Syntax(String),
    /// A message of the macro's own.
    Custom(String),
}

pub enum MacroErrorView {
    Syntax(Seq<char>),
    Custom(Seq<char>),
}

impl View for MacroError {
    type V = MacroErrorView;

    open spec fn view(&self) -> MacroErrorView {
        match self {
            MacroError::Syntax(s) => MacroErrorView::Syntax(s@),
            MacroError::Custom(s) => MacroErrorView::Custom(s@),
        }
    }
}

/// Copies a list of label pairs.
pub fn clone_pairs(pairs: &Vec<LabelPair>) -> (r: Vec<LabelPair>)
    ensures
        r.deep_view() == pairs.deep_view(),
{
    let mut r: Vec<LabelPair> = Vec::new();
    let mut i: usize = 0;
    while i < pairs.len()
        invariant
            i <= pairs.len(),
            r.deep_view() == pairs.deep_view().subrange(0, i as int),
        decreases pairs.len() - i,
    {
        let value = match &pairs[i].value {
            LabelCode::Literal(s) => LabelCode::Literal(s.clone()),
            LabelCode::CloneOf(s) => LabelCode::CloneOf(s.clone()),
        };
        let pair = LabelPair { key: pairs[i].key.clone(), value };
        assert(pair@ == pairs[i as int]@);
        let ghost prev = r.deep_view();
        r.push(pair);
        proof {
            assert(r.deep_view() =~= prev.push(pairs[i as int]@));
            assert(r.deep_view() =~= pairs.deep_view().subrange(0, i + 1));
        }
        i = i + 1;
    }
    proof {
        assert(pairs.deep_view().subrange(0, pairs.len() as int) =~= pairs.deep_view());
    }
    r
}

} // verus!
