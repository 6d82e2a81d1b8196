//! Functions annotated with `#[instrument]`, expanded by the library and
//! run through a small interpreter of the expansion's steps, which records
//! metrics the way the `metrics` crate would.

use std::collections::HashMap;

use metrics_helper_macros::instrument::instrument_impl;
use metrics_helper_macros::model::{LabelCode, LabelPair, MetricNameArgs, Step};
use metrics_helper_macros::tokens::{Delim, TokTree};
use proc_macro2::{Delimiter, Spacing, TokenStream, TokenTree};

type Labels = Vec<(String, String)>;

#[derive(Default)]
struct Recorder {
    counters: HashMap<(String, Labels), u64>,
    histograms: Vec<(String, Labels)>,
}

impl Recorder {
    fn counter(&self, name: &str, labels: &[(&str, &str)]) -> Option<u64> {
        let key: Labels = labels.iter().map(|(k, v)| (k.to_string(), v.to_string())).collect();
        self.counters.get(&(name.to_string(), key)).copied()
    }
}

/// The token trees of `text`, as a proc-macro receives them.
fn trees(text: &str) -> Vec<TokTree> {
    let ts: TokenStream = text.parse().expect("lexes");
    convert(ts)
}

fn convert(ts: TokenStream) -> Vec<TokTree> {
    ts.into_iter()
        .map(|t| match t {
            TokenTree::Ident(i) => TokTree::Ident(i.to_string()),
            TokenTree::Punct(p) => TokTree::Punct(p.as_char().to_string(), p.spacing() == Spacing::Joint),
            TokenTree::Literal(l) => TokTree::Literal(l.to_string()),
            TokenTree::Group(g) => TokTree::Group(
                match g.delimiter() {
                    Delimiter::Parenthesis => Delim::Paren,
                    Delimiter::Bracket => Delim::Bracket,
                    Delimiter::Brace => Delim::Brace,
                    Delimiter::None => Delim::Invisible,
                },
                convert(g.stream()),
            ),
        })
        .collect()
}

/// The tokens of a function `name` (async or not) whose return type is the
/// path `ret`, if any.
fn sig(name: &str, is_async: bool, ret: Option<&[&str]>) -> Vec<TokTree> {
    let ret = match ret {
        Some(segs) => format!("-> {}", segs.join("::")),
        None => String::new(),
    };
    trees(&format!("{}fn {}() {} {{}}", if is_async { "async " } else { "" }, name, ret))
}

fn names(counter: Option<&str>, histogram: Option<&str>, error_counter: Option<&str>) -> MetricNameArgs {
    MetricNameArgs {
        counter: counter.map(|s| s.to_string()),
        histogram: histogram.map(|s| s.to_string()),
        error_counter: error_counter.map(|s| s.to_string()),
    }
}

fn expand(attr: &str, args: MetricNameArgs, item: Vec<TokTree>) -> Vec<Step> {
    instrument_impl(args, &trees(attr), &item).ok().expect("attribute accepted")
}

fn resolve(labels: &[LabelPair], vars: &HashMap<String, String>, eval: &dyn Fn(&str) -> String) -> Labels {
    labels
        .iter()
        .map(|p| {
            let value = match &p.value {
                LabelCode::Literal(s) => s.clone(),
                LabelCode::CloneOf(v) => vars.get(v).expect("captured before use").clone(),
            };
            (p.key.clone(), value)
        })
        .collect()
}

/// Runs the steps of an instrumented body: `eval` gives the displayed value
/// of a label expression (spaces removed), `body` is the original body.
fn run<T>(
    steps: &[Step],
    rec: &mut Recorder,
    eval: &dyn Fn(&str) -> String,
    body: impl FnOnce() -> T,
    is_err: fn(&T) -> bool,
) -> T {
    let eval_text = |e: &str| eval(&e.replace(' ', ""));
    let mut vars: HashMap<String, String> = HashMap::new();
    let mut body = Some(body);
    let mut result: Option<T> = None;
    let mut timer = false;
    for step in steps {
        match step {
            Step::CaptureLabel { var, expr } => {
                vars.insert(var.clone(), eval_text(expr));
            }
            Step::IncrementCounter { name, labels } => {
                *rec.counters.entry((name.clone(), resolve(labels, &vars, &eval_text))).or_insert(0) += 1;
            }
            Step::StartTimer => timer = true,
            Step::RunBody | Step::AwaitBody => {
                result = Some((body.take().expect("body runs once"))());
            }
            Step::RecordDuration { name, labels } => {
                assert!(timer, "timer started before the duration is recorded");
                rec.histograms.push((name.clone(), resolve(labels, &vars, &eval_text)));
            }
            Step::CountError { name, labels } => {
                if is_err(result.as_ref().expect("body ran")) {
                    *rec.counters.entry((name.clone(), resolve(labels, &vars, &eval_text))).or_insert(0) += 1;
                }
            }
            Step::ReturnResult => return result.take().expect("body ran"),
        }
    }
    panic!("the body's value is never returned")
}

fn no_eval(e: &str) -> String {
    panic!("no label expression expected, got {}", e)
}

fn never_err<T>(_: &T) -> bool {
    false
}

fn is_err<T, E>(r: &Result<T, E>) -> bool {
    r.is_err()
}

#[derive(Clone)]
struct Request {
    method: String,
    path: String,
    user_id: u64,
}

struct Nested {
    inner: Request,
}

fn request_eval(request: &Request) -> impl Fn(&str) -> String + '_ {
    move |e: &str| match e {
        "request.method" => request.method.clone(),
        "request.path" => request.path.clone(),
        "request.user_id" => request.user_id.to_string(),
        _ => panic!("unexpected label expression {}", e),
    }
}

// The annotated functions of the original test-suite, each expanded from
// its attribute and signature and then run.

fn basic_sync_counter(rec: &mut Recorder) -> i32 {
    let steps = expand("", names(None, None, None), sig("basic_sync_counter", false, Some(&["i32"])));
    run(&steps, rec, &no_eval, || 42, never_err)
}

fn basic_async_counter(rec: &mut Recorder) -> i32 {
    let steps = expand("", names(None, None, None), sig("basic_async_counter", true, Some(&["i32"])));
    run(&steps, rec, &no_eval, || 42, never_err)
}

fn sync_with_timing(rec: &mut Recorder) -> String {
    let steps = expand("", names(None, None, None), sig("sync_with_timing", false, Some(&["String"])));
    run(&steps, rec, &no_eval, || "hello".to_string(), never_err)
}

fn async_with_timing(rec: &mut Recorder) -> String {
    let steps = expand("", names(None, None, None), sig("async_with_timing", true, Some(&["String"])));
    run(&steps, rec, &no_eval, || "hello".to_string(), never_err)
}

fn sync_result_ok(rec: &mut Recorder) -> Result<i32, &'static str> {
    let steps = expand("", names(None, None, None), sig("sync_result_ok", false, Some(&["Result"])));
    run(&steps, rec, &no_eval, || Ok(42), is_err)
}

fn sync_result_err(rec: &mut Recorder) -> Result<i32, &'static str> {
    let steps = expand("", names(None, None, None), sig("sync_result_err", false, Some(&["Result"])));
    run(&steps, rec, &no_eval, || Err("something went wrong"), is_err)
}

fn async_result(rec: &mut Recorder) -> Result<String, std::io::Error> {
    let steps = expand("", names(None, None, None), sig("async_result", true, Some(&["Result"])));
    run(&steps, rec, &no_eval, || Ok("success".to_string()), is_err)
}

fn single_static_label(rec: &mut Recorder) {
    let steps = expand("labels(service = \"test\")", names(None, None, None), sig("single_static_label", false, None));
    run(&steps, rec, &no_eval, || (), never_err)
}

fn multiple_static_labels(rec: &mut Recorder) {
    let steps = expand(
        "labels(service = \"api\", version = \"v1\", environment = \"test\")",
        names(None, None, None),
        sig("multiple_static_labels", false, None),
    );
    run(&steps, rec, &no_eval, || (), never_err)
}

fn single_dynamic_label<'a>(rec: &mut Recorder, method: &'a str) -> &'a str {
    let steps = expand("labels(method)", names(None, None, None), sig("single_dynamic_label", false, Some(&["str"])));
    let eval = |e: &str| match e {
        "method" => method.to_string(),
        _ => panic!("unexpected label expression {}", e),
    };
    run(&steps, rec, &eval, || method, never_err)
}

fn multiple_dynamic_labels(rec: &mut Recorder, operation: &str, tenant_id: &str) {
    let steps = expand("labels(operation, tenant_id)", names(None, None, None), sig("multiple_dynamic_labels", false, None));
    let eval = |e: &str| match e {
        "operation" => operation.to_string(),
        "tenant_id" => tenant_id.to_string(),
        _ => panic!("unexpected label expression {}", e),
    };
    run(&steps, rec, &eval, || { let _ = (operation, tenant_id); }, never_err)
}

fn dynamic_label_numeric(rec: &mut Recorder, user_id: u64) -> u64 {
    let steps = expand("labels(user_id)", names(None, None, None), sig("dynamic_label_numeric", false, Some(&["u64"])));
    let eval = |e: &str| match e {
        "user_id" => user_id.to_string(),
        _ => panic!("unexpected label expression {}", e),
    };
    run(&steps, rec, &eval, || user_id, never_err)
}

fn mixed_labels(rec: &mut Recorder, method: &str, tenant_id: &str, _payload: &[u8]) {
    let steps = expand("labels(service = \"api\", method, tenant_id)", names(None, None, None), sig("mixed_labels", false, None));
    let eval = |e: &str| match e {
        "method" => method.to_string(),
        "tenant_id" => tenant_id.to_string(),
        _ => panic!("unexpected label expression {}", e),
    };
    run(&steps, rec, &eval, || { let _ = (method, tenant_id); }, never_err)
}

fn full_configuration(rec: &mut Recorder, operation: &str) -> Result<Vec<String>, &'static str> {
    let steps = expand(
        "labels(service = \"database\", table = \"users\", operation)",
        names(None, None, None),
        sig("full_configuration", true, Some(&["Result"])),
    );
    let eval = |e: &str| match e {
        "operation" => operation.to_string(),
        _ => panic!("unexpected label expression {}", e),
    };
    run(&steps, rec, &eval, || Ok(vec!["user1".to_string(), "user2".to_string()]), is_err)
}

fn single_struct_field_label(rec: &mut Recorder, request: &Request) {
    let steps = expand("labels(request.method)", names(None, None, None), sig("single_struct_field_label", false, None));
    run(&steps, rec, &request_eval(request), || { let _ = request; }, never_err)
}

fn multiple_struct_field_labels(rec: &mut Recorder, request: &Request) {
    let steps = expand("labels(request.method, request.path)", names(None, None, None), sig("multiple_struct_field_labels", false, None));
    run(&steps, rec, &request_eval(request), || { let _ = request; }, never_err)
}

fn mixed_struct_and_static_labels(rec: &mut Recorder, request: &Request) {
    let steps = expand(
        "labels(service = \"api\", request.method, request.path)",
        names(None, None, None),
        sig("mixed_struct_and_static_labels", false, None),
    );
    run(&steps, rec, &request_eval(request), || { let _ = request; }, never_err)
}

fn mixed_struct_and_param_labels(rec: &mut Recorder, request: &Request, operation: &str) {
    let steps = expand("labels(request.method, operation)", names(None, None, None), sig("mixed_struct_and_param_labels", false, None));
    let eval = |e: &str| match e {
        "operation" => operation.to_string(),
        _ => request_eval(request)(e),
    };
    run(&steps, rec, &eval, || { let _ = (request, operation); }, never_err)
}

fn explicit_key_for_struct_field(rec: &mut Recorder, request: &Request) {
    let steps = expand("labels(http_method = request.method)", names(None, None, None), sig("explicit_key_for_struct_field", false, None));
    run(&steps, rec, &request_eval(request), || { let _ = request; }, never_err)
}

fn full_struct_configuration(rec: &mut Recorder, request: &Request) -> Result<(), &'static str> {
    let steps = expand(
        "labels(service = \"api\", request.method, request.path, request.user_id)",
        names(None, None, None),
        sig("full_struct_configuration", false, Some(&["Result"])),
    );
    run(&steps, rec, &request_eval(request), || { let _ = request; Ok(()) }, is_err)
}

fn nested_struct_field(rec: &mut Recorder, nested: &Nested) {
    let steps = expand("labels(nested.inner.method)", names(None, None, None), sig("nested_struct_field", false, None));
    let eval = |e: &str| match e {
        "nested.inner.method" => nested.inner.method.clone(),
        _ => panic!("unexpected label expression {}", e),
    };
    run(&steps, rec, &eval, || { let _ = nested; }, never_err)
}

fn async_consumes_struct(rec: &mut Recorder, request: Request) -> String {
    let steps = expand("labels(request.method, request.path)", names(None, None, None), sig("async_consumes_struct", true, Some(&["String"])));
    let captured = request.clone();
    let eval = request_eval(&captured);
    let result = run(&steps, rec, &eval, move || {
        let owned = request;
        format!("processed {} {}", owned.method, owned.path)
    }, never_err);
    result
}

fn sync_consumes_struct(rec: &mut Recorder, request: Request) -> String {
    let steps = expand("labels(request.method)", names(None, None, None), sig("sync_consumes_struct", false, Some(&["String"])));
    let captured = request.clone();
    let eval = request_eval(&captured);
    let result = run(&steps, rec, &eval, move || {
        let owned = request;
        owned.method
    }, never_err);
    result
}

fn labels_only(rec: &mut Recorder) {
    let steps = expand("labels(tag = \"value\")", names(None, None, None), sig("labels_only", false, None));
    run(&steps, rec, &no_eval, || (), never_err)
}

fn empty_labels(rec: &mut Recorder) {
    let steps = expand("labels()", names(None, None, None), sig("empty_labels", false, None));
    run(&steps, rec, &no_eval, || (), never_err)
}

struct MyService;

impl MyService {
    fn process(&self, rec: &mut Recorder) -> bool {
        let steps = expand("labels(action = \"process\")", names(None, None, None), sig("process", false, Some(&["bool"])));
        run(&steps, rec, &no_eval, || true, never_err)
    }

    fn async_process(&self, rec: &mut Recorder) -> Result<(), &'static str> {
        let steps = expand("", names(None, None, None), sig("async_process", true, Some(&["Result"])));
        run(&steps, rec, &no_eval, || Ok(()), is_err)
    }
}

fn generic_function<T: std::fmt::Display>(rec: &mut Recorder, value: T) -> String {
    let steps = expand("", names(None, None, None), sig("generic_function", false, Some(&["String"])));
    run(&steps, rec, &no_eval, || value.to_string(), never_err)
}

// ============================================================================
// The original runtime tests
// ============================================================================

#[test]
fn test_sync_functions_execute() {
    let mut rec = Recorder::default();
    assert_eq!(basic_sync_counter(&mut rec), 42);
    assert_eq!(sync_with_timing(&mut rec), "hello");
    assert_eq!(sync_result_ok(&mut rec), Ok(42));
    assert_eq!(sync_result_err(&mut rec), Err("something went wrong"));
}

#[test]
fn test_static_labels() {
    let mut rec = Recorder::default();
    single_static_label(&mut rec);
    multiple_static_labels(&mut rec);
}

#[test]
fn test_dynamic_labels() {
    let mut rec = Recorder::default();
    assert_eq!(single_dynamic_label(&mut rec, "GET"), "GET");
    multiple_dynamic_labels(&mut rec, "insert", "tenant-123");
    assert_eq!(dynamic_label_numeric(&mut rec, 42), 42);
}

#[test]
fn test_mixed_labels() {
    let mut rec = Recorder::default();
    mixed_labels(&mut rec, "POST", "acme-corp", b"data");
}

#[test]
fn test_method_on_struct() {
    let mut rec = Recorder::default();
    let svc = MyService;
    assert!(svc.process(&mut rec));
}

#[test]
fn test_generic_function() {
    let mut rec = Recorder::default();
    assert_eq!(generic_function(&mut rec, 42), "42");
    assert_eq!(generic_function(&mut rec, "hello"), "hello");
}

#[test]
fn test_edge_cases() {
    let mut rec = Recorder::default();
    labels_only(&mut rec);
    empty_labels(&mut rec);
}

#[test]
fn test_struct_field_labels() {
    let mut rec = Recorder::default();
    let request = Request {
        method: "GET".to_string(),
        path: "/users".to_string(),
        user_id: 42,
    };

    single_struct_field_label(&mut rec, &request);
    multiple_struct_field_labels(&mut rec, &request);
    mixed_struct_and_static_labels(&mut rec, &request);
    mixed_struct_and_param_labels(&mut rec, &request, "read");
    explicit_key_for_struct_field(&mut rec, &request);
    assert!(full_struct_configuration(&mut rec, &request).is_ok());

    let nested = Nested { inner: request };
    nested_struct_field(&mut rec, &nested);
}

#[test]
fn test_struct_consumed_sync() {
    let mut rec = Recorder::default();
    let request = Request {
        method: "DELETE".to_string(),
        path: "/resource".to_string(),
        user_id: 1,
    };
    let result = sync_consumes_struct(&mut rec, request);
    assert_eq!(result, "DELETE");
}

#[test]
fn test_struct_consumed_async() {
    let mut rec = Recorder::default();
    let request = Request {
        method: "POST".to_string(),
        path: "/api/data".to_string(),
        user_id: 99,
    };
    let result = async_consumes_struct(&mut rec, request);
    assert_eq!(result, "processed POST /api/data");
}

#[test]
fn test_async_functions() {
    let mut rec = Recorder::default();
    assert_eq!(basic_async_counter(&mut rec), 42);
    assert_eq!(async_with_timing(&mut rec), "hello");
    assert!(async_result(&mut rec).is_ok());
}

#[test]
fn test_full_configuration() {
    let mut rec = Recorder::default();
    let result = full_configuration(&mut rec, "select");
    assert!(result.is_ok());
    assert_eq!(result.unwrap().len(), 2);
}

#[test]
fn test_async_method() {
    let mut rec = Recorder::default();
    let svc = MyService;
    assert!(svc.async_process(&mut rec).is_ok());
}

// ============================================================================
// What the runs record
// ============================================================================

#[test]
fn instrument_derives_metric_names_from_the_function() {
    let mut rec = Recorder::default();
    basic_sync_counter(&mut rec);
    assert_eq!(rec.counter("basic_sync_counter_total", &[]), Some(1));
    assert_eq!(rec.histograms, vec![("basic_sync_counter_duration_seconds".to_string(), vec![])]);
    assert_eq!(rec.counter("basic_sync_counter_errors_total", &[]), None);
}

#[test]
fn instrument_counts_errors_of_result_functions_only_on_err() {
    let mut rec = Recorder::default();
    assert!(sync_result_ok(&mut rec).is_ok());
    assert_eq!(rec.counter("sync_result_ok_total", &[]), Some(1));
    assert_eq!(rec.counter("sync_result_ok_errors_total", &[]), None);
    assert!(sync_result_err(&mut rec).is_err());
    assert_eq!(rec.counter("sync_result_err_total", &[]), Some(1));
    assert_eq!(rec.counter("sync_result_err_errors_total", &[]), Some(1));
}

#[test]
fn instrument_uses_overridden_names() {
    let mut rec = Recorder::default();
    let steps = expand("counter = \"custom_counter_name\"", names(Some("custom_counter_name"), None, None), sig("with_custom_counter", false, Some(&["i32"])));
    assert_eq!(run(&steps, &mut rec, &no_eval, || 100, never_err), 100);
    assert_eq!(rec.counter("custom_counter_name", &[]), Some(1));
    assert_eq!(rec.histograms[0].0, "with_custom_counter_duration_seconds");

    let steps = expand(
        "counter = \"custom_total\", histogram = \"custom_duration\", error_counter = \"custom_errors\"",
        names(Some("custom_total"), Some("custom_duration"), Some("custom_errors")),
        sig("with_all_custom_names", false, Some(&["Result"])),
    );
    let r: Result<(), &str> = run(&steps, &mut rec, &no_eval, || Err("x"), is_err);
    assert!(r.is_err());
    assert_eq!(rec.counter("custom_total", &[]), Some(1));
    assert_eq!(rec.counter("custom_errors", &[]), Some(1));
    assert_eq!(rec.histograms[1].0, "custom_duration");
}

#[test]
fn instrument_attaches_labels_in_written_order() {
    let mut rec = Recorder::default();
    let request = Request { method: "GET".to_string(), path: "/users".to_string(), user_id: 42 };
    mixed_struct_and_static_labels(&mut rec, &request);
    let expected = [("service", "api"), ("method", "GET"), ("path", "/users")];
    assert_eq!(rec.counter("mixed_struct_and_static_labels_total", &expected), Some(1));
    let labels: Labels = expected.iter().map(|(k, v)| (k.to_string(), v.to_string())).collect();
    assert_eq!(rec.histograms, vec![("mixed_struct_and_static_labels_duration_seconds".to_string(), labels)]);
}

#[test]
fn instrument_keys_field_labels_by_member_or_explicit_key() {
    let mut rec = Recorder::default();
    let request = Request { method: "PUT".to_string(), path: "/x".to_string(), user_id: 7 };
    explicit_key_for_struct_field(&mut rec, &request);
    assert_eq!(rec.counter("explicit_key_for_struct_field_total", &[("http_method", "PUT")]), Some(1));
    let nested = Nested { inner: request };
    nested_struct_field(&mut rec, &nested);
    assert_eq!(rec.counter("nested_struct_field_total", &[("method", "PUT")]), Some(1));
}
