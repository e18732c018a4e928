use css_node::deps::{Dependencies, CssUrl};
use css_node::diagnostics::{fatal_batch, recoverable_errors, Diagnostic};
use css_node::modules::{same_class, ClassMapping, CssClassName};
use css_node::pattern::{CssModulesConfig, PatternError};
use css_node::pipeline::{
    Action, Event, MinifyOptions, Pipeline, TransformError, TransformOptions,
};

fn diag(message: &str) -> Diagnostic {
    let mut span = serde_json::Map::new();
    span.insert("lo".to_string(), serde_json::Value::from(3));
    span.insert("hi".to_string(), serde_json::Value::from(9));
    Diagnostic {
        level: "error".to_string(),
        message: message.to_string(),
        span: serde_json::Value::Object(span),
    }
}

fn local(n: &str) -> CssClassName {
    CssClassName::Local { name: n.to_string() }
}

fn global(n: &str) -> CssClassName {
    CssClassName::Global { name: n.to_string() }
}

fn options() -> TransformOptions {
    TransformOptions {
        filename: None,
        source_map: false,
        css_modules: None,
        minify: false,
        analyze_dependencies: false,
    }
}

fn drive(p: &mut Pipeline, e: Event) {
    assert!(p.accepts(&e));
    p.step(e);
}

#[test]
fn mapping_records_local_and_global() {
    let m = ClassMapping::from_records(vec![
        ("a".to_string(), local("button__a___0f")),
        ("b".to_string(), global("b")),
    ]);
    let entries = m.entries();
    assert_eq!(entries.len(), 2);
    assert_eq!(entries[0].name, "a");
    assert!(matches!(&entries[0].classes[..], [CssClassName::Local { name }] if name == "button__a___0f"));
    assert_eq!(entries[1].name, "b");
    assert!(matches!(&entries[1].classes[..], [CssClassName::Global { name }] if name == "b"));
}

#[test]
fn mapping_drops_repeats_and_keeps_first_occurrence_order() {
    let m = ClassMapping::from_records(vec![
        ("x".to_string(), local("f_x")),
        ("y".to_string(), local("f_y")),
        ("x".to_string(), local("f_x")),
        ("x".to_string(), global("x")),
        (
            "z".to_string(),
            CssClassName::Import { name: "z".to_string(), from: "./other.css".to_string() },
        ),
        ("y".to_string(), local("f_y")),
    ]);
    let keys: Vec<&str> = m.entries().iter().map(|e| e.name.as_str()).collect();
    assert_eq!(keys, vec!["x", "y", "z"]);
    assert_eq!(m.entries()[0].classes.len(), 2);
    assert!(same_class(&m.entries()[0].classes[0], &local("f_x")));
    assert!(same_class(&m.entries()[0].classes[1], &global("x")));
    assert_eq!(m.entries()[1].classes.len(), 1);
    assert!(matches!(
        &m.entries()[2].classes[..],
        [CssClassName::Import { name, from }] if name == "z" && from == "./other.css"
    ));
}

#[test]
fn record_on_empty_mapping() {
    let mut m = ClassMapping::new();
    assert!(m.entries().is_empty());
    m.record("q".to_string(), local("n_q"));
    m.record("q".to_string(), local("n_q"));
    assert_eq!(m.entries().len(), 1);
    assert_eq!(m.entries()[0].classes.len(), 1);
    assert!(!same_class(&local("a"), &global("a")));
}

#[test]
fn recoverable_errors_absent_when_empty() {
    assert!(recoverable_errors(vec![]).is_none());
    let got = recoverable_errors(vec![diag("one"), diag("two")]).unwrap();
    assert_eq!(got.len(), 2);
    assert_eq!(got[0].message, "one");
    assert_eq!(got[1].message, "two");
}

#[test]
fn fatal_batch_puts_fatal_first() {
    let got = fatal_batch(diag("fatal"), vec![diag("r1"), diag("r2")]);
    let msgs: Vec<&str> = got.iter().map(|d| d.message.as_str()).collect();
    assert_eq!(msgs, vec!["fatal", "r1", "r2"]);
    assert_eq!(got[0].span["lo"], serde_json::Value::from(3));
}

#[test]
fn plain_stylesheet_yields_absent_extras() {
    let mut p = Pipeline::transform(options(), 7).unwrap();
    assert_eq!(p.next_action(), Action::Parse { css_modules: false });
    drive(&mut p, Event::Parsed { recovered: vec![] });
    assert_eq!(p.next_action(), Action::Downlevel);
    drive(&mut p, Event::Downleveled);
    assert_eq!(p.next_action(), Action::Emit { minify: false, source_map: false });
    drive(&mut p, Event::Emitted { code: ".a{color:red}".to_string(), map: Some("{}".to_string()) });
    assert_eq!(p.next_action(), Action::Finish);
    assert!(p.is_finished());
    let out = p.finish().unwrap();
    assert_eq!(out.code, ".a{color:red}");
    assert!(out.map.is_none());
    assert!(out.errors.is_none());
    assert!(out.deps.is_none());
    assert!(out.modules_mapping.is_none());
}

#[test]
fn recoverable_finding_is_reported_once() {
    let mut p = Pipeline::transform(options(), 0).unwrap();
    drive(&mut p, Event::Parsed { recovered: vec![diag("Unterminated string")] });
    assert!(!p.is_finished());
    drive(&mut p, Event::Downleveled);
    drive(&mut p, Event::Emitted { code: "a{}".to_string(), map: None });
    let out = p.finish().unwrap();
    let errors = out.errors.unwrap();
    assert_eq!(errors.len(), 1);
    assert_eq!(errors[0].message, "Unterminated string");
    assert_eq!(out.code, "a{}");
}

#[test]
fn fatal_parse_returns_no_code() {
    let mut p = Pipeline::transform(options(), 0).unwrap();
    drive(&mut p, Event::ParseFailed { fatal: diag("Unexpected end"), recovered: vec![diag("earlier")] });
    assert_eq!(p.next_action(), Action::Finish);
    assert!(!p.accepts(&Event::Downleveled));
    match p.finish() {
        Err(TransformError::Parse { diagnostics }) => {
            assert_eq!(diagnostics.len(), 2);
            assert_eq!(diagnostics[0].message, "Unexpected end");
            assert_eq!(diagnostics[1].message, "earlier");
        }
        other => panic!("unexpected {:?}", other.map(|o| o.code)),
    }
}

#[test]
fn full_transform_runs_every_phase_in_order() {
    let opts = TransformOptions {
        filename: Some("src/button.css".to_string()),
        source_map: true,
        css_modules: Some(CssModulesConfig { pattern: "[name]__[local]".to_string() }),
        minify: true,
        analyze_dependencies: true,
    };
    let mut p = Pipeline::transform(opts, 0x2a).unwrap();
    assert_eq!(p.next_action(), Action::Parse { css_modules: true });
    drive(&mut p, Event::Parsed { recovered: vec![] });
    assert_eq!(p.next_action(), Action::Analyze);
    drive(
        &mut p,
        Event::Analyzed(Dependencies {
            imports: vec![],
            urls: vec![CssUrl { value: "bg.png".to_string() }],
        }),
    );
    assert_eq!(p.next_action(), Action::Rename);
    let name = p.modules_config().unwrap().new_name_for("a");
    assert_eq!(name, "button__a");
    drive(&mut p, Event::Renamed(vec![("a".to_string(), local(&name)), ("b".to_string(), global("b"))]));
    assert_eq!(p.next_action(), Action::Downlevel);
    drive(&mut p, Event::Downleveled);
    assert_eq!(p.next_action(), Action::Minify);
    drive(&mut p, Event::Minified);
    assert_eq!(p.next_action(), Action::Emit { minify: true, source_map: true });
    drive(&mut p, Event::Emitted { code: ".button__a{}.b{}".to_string(), map: Some("{\"version\":3}".to_string()) });
    let out = p.finish().unwrap();
    assert_eq!(out.map.as_deref(), Some("{\"version\":3}"));
    assert!(out.errors.is_none());
    assert_eq!(out.deps.unwrap().urls[0].value, "bg.png");
    let mapping = out.modules_mapping.unwrap();
    assert_eq!(mapping.entries().len(), 2);
    assert!(out.code.contains(".button__a"));
    assert!(out.code.contains(".b{"));
}

#[test]
fn bad_pattern_fails_before_parsing() {
    let mut opts = options();
    opts.css_modules = Some(CssModulesConfig { pattern: "[bogus]".to_string() });
    match Pipeline::transform(opts, 0) {
        Err(TransformError::Pattern(PatternError::UnknownPlaceholder { placeholder, .. })) => {
            assert_eq!(placeholder, "[bogus]")
        }
        _ => panic!("expected a pattern error"),
    }
}

#[test]
fn missing_source_map_is_an_emission_error() {
    let mut opts = options();
    opts.source_map = true;
    let mut p = Pipeline::transform(opts, 0).unwrap();
    drive(&mut p, Event::Parsed { recovered: vec![] });
    drive(&mut p, Event::Downleveled);
    drive(&mut p, Event::Emitted { code: "a{}".to_string(), map: None });
    match p.finish() {
        Err(TransformError::Emit { message }) => assert_eq!(message, "no source map was produced"),
        _ => panic!("expected an emission error"),
    }
}

#[test]
fn emit_failure_ends_the_run() {
    let mut p = Pipeline::transform(options(), 0).unwrap();
    drive(&mut p, Event::Parsed { recovered: vec![] });
    drive(&mut p, Event::Downleveled);
    drive(&mut p, Event::EmitFailed { message: "failed to emit".to_string() });
    assert!(p.is_finished());
    assert!(matches!(p.finish(), Err(TransformError::Emit { message }) if message == "failed to emit"));
}

#[test]
fn minify_run_parses_minifies_and_prints() {
    let mut p = Pipeline::minify(MinifyOptions { filename: None, source_map: false });
    assert_eq!(p.next_action(), Action::Parse { css_modules: false });
    assert!(!p.accepts(&Event::Downleveled));
    drive(&mut p, Event::Parsed { recovered: vec![] });
    assert_eq!(p.next_action(), Action::Minify);
    drive(&mut p, Event::Minified);
    assert_eq!(p.next_action(), Action::Emit { minify: true, source_map: false });
    drive(&mut p, Event::Emitted { code: "a{}".to_string(), map: None });
    assert_eq!(p.finish().unwrap().code, "a{}");
}
