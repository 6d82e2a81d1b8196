//! The label syntax of both macros, their errors, and the pieces of the
//! expansion, checked on concrete attributes.

use metrics_helper_macros::instrument;
use metrics_helper_macros::instrument_metrics;
use metrics_helper_macros::model::{
    Label, LabelCode, LabelValue, MacroError, MetricNameArgs, ReturnShape, Step, TypeShape,
};
use metrics_helper_macros::plan::is_result_type;
use metrics_helper_macros::syntax::{fn_shape, get_ident, parse_meta_items, MetaKind};
use metrics_helper_macros::tokens::{render_range, Delim, TokTree};
use proc_macro2::{Delimiter, Spacing, TokenStream, TokenTree};

/// The token trees of `text`, as a proc-macro receives them.
fn trees(text: &str) -> Vec<TokTree> {
    let ts: TokenStream = text.parse().expect("lexes");
    convert(ts)
}

fn convert(ts: TokenStream) -> Vec<TokTree> {
    ts.into_iter()
        .map(|t| match t {
            TokenTree::Ident(i) => TokTree::Ident(i.to_string()),
            TokenTree::Punct(p) => TokTree::Punct(p.as_char().to_string(), p.spacing() == Spacing::Joint),
            TokenTree::Literal(l) => TokTree::Literal(l.to_string()),
            TokenTree::Group(g) => TokTree::Group(
                match g.delimiter() {
                    Delimiter::Parenthesis => Delim::Paren,
                    Delimiter::Bracket => Delim::Bracket,
                    Delimiter::Brace => Delim::Brace,
                    Delimiter::None => Delim::Invisible,
                },
                convert(g.stream()),
            ),
        })
        .collect()
}

/// A label as (key, value, is it static).
fn show(labels: &[Label]) -> Vec<(String, String, bool)> {
    labels
        .iter()
        .map(|l| match &l.value {
            LabelValue::Static(v) => (l.key.clone(), v.clone(), true),
            LabelValue::Dynamic(e) => (l.key.clone(), e.replace(' ', ""), false),
        })
        .collect()
}

fn error_text(e: MacroError) -> (bool, String) {
    match e {
        MacroError::Syntax(m) => (true, m),
        MacroError::Custom(m) => (false, m),
    }
}

fn instrument_labels(attr: &str) -> Result<Vec<(String, String, bool)>, (bool, String)> {
    let toks = trees(attr);
    let items = parse_meta_items(&toks).map_err(|m| (true, m))?;
    instrument::parse_labels_from_meta(&toks, &items).map(|l| show(&l)).map_err(error_text)
}

fn metrics_labels(attr: &str) -> Result<Vec<(String, String, bool)>, (bool, String)> {
    let toks = trees(attr);
    let items = parse_meta_items(&toks).map_err(|m| (true, m))?;
    instrument_metrics::parse_labels_from_meta(&toks, &items).map(|l| show(&l)).map_err(error_text)
}

fn l(key: &str, value: &str, is_static: bool) -> (String, String, bool) {
    (key.to_string(), value.to_string(), is_static)
}

fn custom(msg: &str) -> Result<Vec<(String, String, bool)>, (bool, String)> {
    Err((false, msg.to_string()))
}

// ----------------------------------------------------------------------------
// #[instrument] labels
// ----------------------------------------------------------------------------

#[test]
fn instrument_label_forms() {
    assert_eq!(
        instrument_labels("labels(service = \"api\", method, request.path, http_method = request.method)"),
        Ok(vec![
            l("service", "api", true),
            l("method", "method", false),
            l("path", "request.path", false),
            l("http_method", "request.method", false),
        ])
    );
}

#[test]
fn instrument_label_values_are_unescaped() {
    assert_eq!(instrument_labels("labels(quote = \"a\\\"b\")"), Ok(vec![l("quote", "a\"b", true)]));
    assert_eq!(instrument_labels("labels(raw = r#\"x\"#)"), Ok(vec![l("raw", "x", true)]));
}

#[test]
fn instrument_label_numbered_and_nested_fields() {
    assert_eq!(instrument_labels("labels(pair.0)"), Ok(vec![l("0", "pair.0", false)]));
    assert_eq!(instrument_labels("labels(ctx.request.method)"), Ok(vec![l("method", "ctx.request.method", false)]));
    assert_eq!(instrument_labels("labels(self.id)"), Ok(vec![l("id", "self.id", false)]));
    assert_eq!(instrument_labels("labels(lookup().name)"), Ok(vec![l("name", "lookup().name", false)]));
}

#[test]
fn instrument_label_explicit_keys_take_any_expression() {
    assert_eq!(
        instrument_labels("labels(n = items.len(), first = pair.0)"),
        Ok(vec![l("n", "items.len()", false), l("first", "pair.0", false)])
    );
}

#[test]
fn instrument_label_trailing_comma_and_empty_list() {
    assert_eq!(instrument_labels("labels(a, b,)"), Ok(vec![l("a", "a", false), l("b", "b", false)]));
    assert_eq!(instrument_labels("labels()"), Ok(vec![]));
    assert_eq!(instrument_labels("counter = \"c\""), Ok(vec![]));
}

#[test]
fn instrument_reads_only_the_first_labels_list() {
    assert_eq!(
        instrument_labels("labels(a = \"1\"), labels(b = \"2\")"),
        Ok(vec![l("a", "1", true)])
    );
}

#[test]
fn instrument_label_errors() {
    assert_eq!(instrument_labels("labels(a::b)"), custom("expected simple identifier for label"));
    assert_eq!(
        instrument_labels("labels(f())"),
        custom("expected identifier, field access (e.g., request.method), or key = value")
    );
    assert_eq!(
        instrument_labels("labels(a + b)"),
        custom("expected identifier, field access (e.g., request.method), or key = value")
    );
    assert_eq!(
        instrument_labels("labels(a.b())"),
        custom("expected identifier, field access (e.g., request.method), or key = value")
    );
}

#[test]
fn instrument_label_keyword_key_is_no_explicit_key() {
    // `type` is a keyword, so `type = "x"` is read as an expression, which it is not
    assert_eq!(instrument_labels("labels(type = \"x\")"), custom("expected an expression"));
    // a raw identifier is an identifier
    assert_eq!(instrument_labels("labels(r#type = \"x\")"), Ok(vec![l("r#type", "x", true)]));
}

#[test]
fn instrument_label_syntax_errors_are_reported() {
    assert_eq!(instrument_labels("labels(key = )"), custom("unexpected end of input, expected an expression"));
    assert_eq!(instrument_labels("labels(a b)"), custom("expected `,`"));
    assert_eq!(instrument_labels("labels(a, b c, d)"), custom("expected `,`"));
    assert_eq!(instrument_labels("labels(key => v)"), custom("expected an expression"));
    assert_eq!(instrument_labels("labels(k = a b)"), custom("expected `,`"));
    assert_eq!(instrument_labels("labels(f::<u8>)"), custom("expected simple identifier for label"));
}

// ----------------------------------------------------------------------------
// #[instrument_metrics] labels
// ----------------------------------------------------------------------------

#[test]
fn instrument_metrics_label_forms() {
    assert_eq!(
        metrics_labels("counter = \"c\", labels(service = \"db\", table, operation)"),
        Ok(vec![l("service", "db", true), l("table", "table", false), l("operation", "operation", false)])
    );
}

#[test]
fn instrument_metrics_reads_every_labels_list() {
    assert_eq!(
        metrics_labels("labels(a = \"1\"), labels(b)"),
        Ok(vec![l("a", "1", true), l("b", "b", false)])
    );
}

#[test]
fn instrument_metrics_label_errors() {
    assert_eq!(metrics_labels("labels(a::b = \"x\")"), custom("expected simple identifier for label key"));
    assert_eq!(metrics_labels("labels(k = 5)"), custom("expected string literal for label value"));
    assert_eq!(metrics_labels("labels(k = request.method)"), custom("expected string literal for label value"));
    assert_eq!(metrics_labels("labels(a::b)"), custom("expected simple identifier for dynamic label"));
    assert_eq!(metrics_labels("labels(k(1))"), custom("expected `key = \"value\"` or `key` for labels"));
    assert_eq!(metrics_labels("labels(\"lit\")"), custom("expected `key = \"value\"` or `key` for labels"));
}

#[test]
fn instrument_metrics_first_bad_label_is_reported() {
    assert_eq!(
        metrics_labels("labels(ok, k = 5, a::b)"),
        custom("expected string literal for label value")
    );
}

#[test]
fn instrument_metrics_label_list_syntax_error() {
    assert_eq!(metrics_labels("labels(=)"), Err((true, "expected identifier or literal".to_string())));
    assert_eq!(metrics_labels("labels(a b)"), Err((true, "expected `,`".to_string())));
}

#[test]
fn attribute_syntax_error() {
    assert_eq!(parse_meta_items(&trees("= =")).err(), Some("expected identifier or literal".to_string()));
    assert_eq!(parse_meta_items(&trees("a b")).err(), Some("expected `,`".to_string()));
    assert!(matches!(parse_meta_items(&trees("")), Ok(items) if items.is_empty()));
}

#[test]
fn attribute_items_by_kind() {
    let toks = trees("counter = \"c\", labels(a, b), flag, \"lit\", a::b = 1,");
    let items = parse_meta_items(&toks).ok().unwrap();
    assert_eq!(items.len(), 5);
    let shape = |i: usize| (items[i].shape.kind, items[i].shape.leading_colon, items[i].shape.segments.clone(), items[i].start, items[i].end);
    assert_eq!(shape(0), (MetaKind::NameValue, false, vec!["counter".to_string()], 0, 3));
    assert_eq!(shape(1), (MetaKind::List, false, vec!["labels".to_string()], 4, 6));
    assert_eq!(shape(2), (MetaKind::Path, false, vec!["flag".to_string()], 7, 8));
    assert_eq!(shape(3), (MetaKind::Lit, false, vec![], 9, 10));
    assert_eq!(shape(4), (MetaKind::NameValue, false, vec!["a".to_string(), "b".to_string()], 11, 17));
}

#[test]
fn attribute_item_values_may_hold_commas() {
    // the closure's parameter list holds a comma that separates no items
    let items = parse_meta_items(&trees("f = |a, b| a, g")).ok().unwrap();
    assert_eq!(items.len(), 2);
    assert_eq!((items[0].start, items[0].end), (0, 8));
    assert_eq!(items[1].shape.segments, vec!["g".to_string()]);
}

// ----------------------------------------------------------------------------
// Tokens
// ----------------------------------------------------------------------------

#[test]
fn rendering_joins_joint_punctuation() {
    let toks = trees("a::b.c(x, [y]) {z}");
    assert_eq!(render_range(&toks, 0, toks.len()), "a :: b . c (x , [y]) {z}");
    assert_eq!(render_range(&toks, 3, 6), "b . c");
    assert_eq!(render_range(&toks, 2, 2), "");
    let invisible = vec![TokTree::Group(Delim::Invisible, trees("p . q"))];
    assert_eq!(render_range(&invisible, 0, 1), "(p . q)");
    let dollar_crate = vec![TokTree::Ident("$crate".to_string()), TokTree::Punct(":".to_string(), true), TokTree::Punct(":".to_string(), false), TokTree::Ident("x".to_string())];
    assert_eq!(render_range(&dollar_crate, 0, 4), "crate :: x");
}

#[test]
fn single_identifiers_of_paths() {
    let seg = |s: &str, plain: bool| (s.to_string(), plain);
    assert_eq!(get_ident(false, &vec![seg("labels", true)]), Some("labels".to_string()));
    assert_eq!(get_ident(true, &vec![seg("labels", true)]), None);
    assert_eq!(get_ident(false, &vec![seg("a", true), seg("b", true)]), None);
    assert_eq!(get_ident(false, &vec![seg("a", false)]), None);
    assert_eq!(get_ident(false, &vec![]), None);
}

#[test]
fn signatures_read_from_the_function() {
    let s = fn_shape(&trees("pub async fn get_users(m: &str) -> std::result::Result<u8, E> { body() }")).ok().unwrap();
    assert_eq!(s.name, "get_users");
    assert!(s.is_async);
    assert!(matches!(s.output, ReturnShape::Type(TypeShape::Path(segs)) if segs == vec!["std", "result", "Result"]));
    let s = fn_shape(&trees("fn plain(&self) {}")).ok().unwrap();
    assert!(!s.is_async && matches!(s.output, ReturnShape::Default));
    let s = fn_shape(&trees("fn t() -> (u8, u8) { (1, 2) }")).ok().unwrap();
    assert!(matches!(s.output, ReturnShape::Type(TypeShape::Other)));
    assert!(fn_shape(&trees("struct S;")).is_err());
    // a function a macro expansion made, naming `$crate`
    let mut item = trees("fn m() -> X::Result<u8, E> { 1 }");
    item[5] = TokTree::Ident("$crate".to_string());
    let s = fn_shape(&item).ok().unwrap();
    assert!(matches!(s.output, ReturnShape::Type(TypeShape::Path(segs)) if segs == vec!["crate", "Result"]));
}

// ----------------------------------------------------------------------------
// Pieces of the expansion
// ----------------------------------------------------------------------------

fn path(segs: &[&str]) -> TypeShape {
    TypeShape::Path(segs.iter().map(|s| s.to_string()).collect())
}

#[test]
fn result_types_by_last_segment() {
    assert!(is_result_type(&path(&["Result"])));
    assert!(is_result_type(&path(&["std", "result", "Result"])));
    assert!(is_result_type(&path(&["io", "Result"])));
    assert!(!is_result_type(&path(&["MyResult"])));
    assert!(!is_result_type(&path(&["Result", "Ok"])));
    assert!(!is_result_type(&path(&[])));
    assert!(!is_result_type(&TypeShape::Other));
}

#[test]
fn capture_variable_names() {
    assert_eq!(instrument::capture_var_name(&"method".to_string()), "__metrics_label_method");
    let label = Label { key: "path".to_string(), value: LabelValue::Dynamic("request . path".to_string()) };
    assert!(matches!(instrument::capture_statement(&label),
        Some(Step::CaptureLabel { var, expr }) if var == "__metrics_label_path" && expr == "request . path"));
    let pair = instrument::label_pair(&label);
    assert_eq!(pair.key, "path");
    assert!(matches!(pair.value, LabelCode::CloneOf(v) if v == "__metrics_label_path"));
    let fixed = Label { key: "service".to_string(), value: LabelValue::Static("api".to_string()) };
    assert!(instrument::capture_statement(&fixed).is_none());
    assert!(matches!(instrument::label_pair(&fixed).value, LabelCode::Literal(v) if v == "api"));
}

#[test]
fn metric_names_default_to_the_function_name() {
    assert_eq!(instrument::derive_name(None, &"sync_data".to_string(), "_total"), "sync_data_total");
    assert_eq!(instrument::derive_name(Some("x".to_string()), &"sync_data".to_string(), "_total"), "x");
}


fn no_names() -> MetricNameArgs {
    MetricNameArgs { counter: None, histogram: None, error_counter: None }
}

#[test]
fn instrument_expansion_layout() {
    let steps = instrument::instrument_impl(
        no_names(),
        &trees("labels(service = \"api\", request.method)"),
        &trees("async fn handle(request: Request) -> Result<(), E> { Ok(()) }"),
    ).ok().unwrap();
    assert_eq!(steps.len(), 7);
    assert!(matches!(&steps[0], Step::CaptureLabel { var, .. } if var == "__metrics_label_method"));
    assert!(matches!(&steps[1], Step::IncrementCounter { name, labels } if name == "handle_total" && labels.len() == 2));
    assert!(matches!(steps[2], Step::StartTimer));
    assert!(matches!(steps[3], Step::AwaitBody));
    assert!(matches!(&steps[4], Step::RecordDuration { name, .. } if name == "handle_duration_seconds"));
    assert!(matches!(&steps[5], Step::CountError { name, .. } if name == "handle_errors_total"));
    assert!(matches!(steps[6], Step::ReturnResult));
}

#[test]
fn instrument_expansion_error_is_the_label_error() {
    let f = trees("fn f() {}");
    let r = instrument::instrument_impl(no_names(), &trees("labels(a::b)"), &f);
    assert!(matches!(r, Err(MacroError::Custom(m)) if m == "expected simple identifier for label"));
    let r = instrument_metrics::instrument_metrics_impl(no_names(), &trees("labels(k = 1)"), &f);
    assert!(matches!(r, Err(MacroError::Custom(m)) if m == "expected string literal for label value"));
    let r = instrument::instrument_impl(no_names(), &trees("= ="), &f);
    assert!(matches!(r, Err(MacroError::Syntax(_))));
    let r = instrument::instrument_impl(no_names(), &trees(""), &trees("fn f() -> {}"));
    assert!(matches!(r, Err(MacroError::Syntax(_))));
}

/// A step as text, for comparing expansions.
fn describe(steps: &[Step]) -> Vec<String> {
    let pairs = |labels: &Vec<metrics_helper_macros::model::LabelPair>| {
        labels
            .iter()
            .map(|p| match &p.value {
                LabelCode::Literal(v) => format!("{}={:?}", p.key, v),
                LabelCode::CloneOf(v) => format!("{}<-{}", p.key, v),
            })
            .collect::<Vec<_>>()
            .join(",")
    };
    steps
        .iter()
        .map(|s| match s {
            Step::CaptureLabel { var, expr } => format!("capture {} {}", var, expr),
            Step::IncrementCounter { name, labels } => format!("counter {} {}", name, pairs(labels)),
            Step::StartTimer => "timer".to_string(),
            Step::RunBody => "run".to_string(),
            Step::AwaitBody => "await".to_string(),
            Step::RecordDuration { name, labels } => format!("histogram {} {}", name, pairs(labels)),
            Step::CountError { name, labels } => format!("errors {} {}", name, pairs(labels)),
            Step::ReturnResult => "return".to_string(),
        })
        .collect()
}

#[test]
fn other_items_change_nothing() {
    let f = trees("fn f(a: u8) -> Result<(), E> { Ok(()) }");
    let base = describe(&instrument::instrument_impl(no_names(), &trees("labels(a)"), &f).ok().unwrap());
    assert_eq!(
        base,
        vec![
            "capture __metrics_label_a a",
            "counter f_total a<-__metrics_label_a",
            "timer",
            "run",
            "histogram f_duration_seconds a<-__metrics_label_a",
            "errors f_errors_total a<-__metrics_label_a",
            "return",
        ]
    );
    for attr in ["labels(a), z = \"s\"", "z = \"s\", labels(a)", "flag, labels(a), 7"] {
        let other = describe(&instrument::instrument_impl(no_names(), &trees(attr), &f).ok().unwrap());
        assert_eq!(other, base, "{}", attr);
    }
    let m = |attr: &str| {
        describe(&instrument_metrics::instrument_metrics_impl(
            MetricNameArgs { counter: Some("c".to_string()), histogram: None, error_counter: None },
            &trees(attr),
            &f,
        ).ok().unwrap())
    };
    assert_eq!(m("labels(a), unknown = 1"), m("labels(a)"));
    assert_eq!(m("labels(a)"), vec!["capture __metrics_label_a a", "counter c a<-__metrics_label_a", "run", "return"]);
}

#[test]
fn each_dynamic_label_is_captured_once_in_order() {
    let f = trees("fn f() {}");
    let steps = describe(&instrument::instrument_impl(no_names(), &trees("labels(s = \"x\", b, c.d, k = e.len())"), &f).ok().unwrap());
    let captures: Vec<&String> = steps.iter().filter(|s| s.starts_with("capture")).collect();
    assert_eq!(captures, vec!["capture __metrics_label_b b", "capture __metrics_label_d c . d", "capture __metrics_label_k e . len ()"]);
}

#[test]
fn only_the_body_is_not_gated() {
    let f = trees("async fn f() -> Result<(), E> { Ok(()) }");
    let steps = instrument::instrument_impl(no_names(), &trees("labels(x)"), &f).ok().unwrap();
    let kept: Vec<String> = describe(&steps)
        .into_iter()
        .filter(|s| s == "run" || s == "await" || s == "return")
        .collect();
    assert_eq!(kept, vec!["await", "return"]);
}
