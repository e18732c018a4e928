use css_node::deps::{
    analyze, normalize_import_href, normalize_url, parse_url, Analyzer, ImportHref,
    ImportPrelude, Node, Url, UrlValue,
};

fn url_str(s: &str) -> Url {
    Url { value: Some(UrlValue::Str(s.to_string())) }
}

fn url_raw(s: &str) -> Url {
    Url { value: Some(UrlValue::Raw(s.to_string())) }
}

fn import(href: ImportHref) -> ImportPrelude {
    ImportPrelude { href, supports: None, layer: None, media: None }
}

#[test]
fn url_value_does_not_depend_on_quoting() {
    assert_eq!(normalize_url(&url_str("a.css")).unwrap().value, "a.css");
    assert_eq!(normalize_url(&url_raw("a.css")).unwrap().value, "a.css");
    assert_eq!(
        normalize_import_href(&ImportHref::Str("a.css".to_string())).unwrap().value,
        "a.css"
    );
    assert_eq!(
        normalize_import_href(&ImportHref::Url(url_raw("a.css"))).unwrap().value,
        "a.css"
    );
    assert_eq!(parse_url("b.png").value, "b.png");
}

#[test]
fn empty_url_contributes_nothing() {
    assert!(normalize_url(&Url { value: None }).is_none());
    let mut a = Analyzer::new();
    a.visit_url(&Url { value: None });
    a.visit_import_prelude(&import(ImportHref::Url(Url { value: None })));
    assert!(a.deps.urls.is_empty());
    assert!(a.deps.imports.is_empty());
}

#[test]
fn imports_and_urls_keep_document_order() {
    let nodes = vec![
        Node::ImportPrelude(import(ImportHref::Str("one.css".to_string()))),
        Node::Url(url_raw("bg.png")),
        Node::ImportPrelude(ImportPrelude {
            href: ImportHref::Url(url_str("two.css")),
            supports: Some("supports(display:grid)".to_string()),
            layer: Some("base".to_string()),
            media: Some(vec!["screen".to_string(), "print".to_string()]),
        }),
        Node::Url(url_str("font.woff")),
        Node::Url(Url { value: None }),
        Node::ImportPrelude(import(ImportHref::Str("three.css".to_string()))),
    ];
    let deps = analyze(&nodes);
    let imports: Vec<&str> = deps.imports.iter().map(|i| i.url.value.as_str()).collect();
    assert_eq!(imports, vec!["one.css", "two.css", "three.css"]);
    let urls: Vec<&str> = deps.urls.iter().map(|u| u.value.as_str()).collect();
    assert_eq!(urls, vec!["bg.png", "font.woff"]);
    let second = &deps.imports[1];
    assert_eq!(second.supports.as_deref(), Some("supports(display:grid)"));
    assert_eq!(second.layer.as_deref(), Some("base"));
    assert_eq!(
        second.media.clone().unwrap(),
        vec!["screen".to_string(), "print".to_string()]
    );
    assert!(deps.imports[0].supports.is_none());
    assert!(deps.imports[0].layer.is_none());
    assert!(deps.imports[0].media.is_none());
}

#[test]
fn nested_condition_url_is_also_a_location() {
    // The url inside an import's supports clause is shown before the prelude.
    let nodes = vec![
        Node::Url(url_str("x.svg")),
        Node::ImportPrelude(ImportPrelude {
            href: ImportHref::Str("theme.css".to_string()),
            supports: Some("supports(background:url(x.svg))".to_string()),
            layer: None,
            media: None,
        }),
    ];
    let deps = analyze(&nodes);
    assert_eq!(deps.imports.len(), 1);
    assert_eq!(deps.imports[0].url.value, "theme.css");
    assert_eq!(deps.urls.len(), 1);
    assert_eq!(deps.urls[0].value, "x.svg");
}

#[test]
fn import_without_value_is_dropped() {
    let nodes = vec![
        Node::ImportPrelude(import(ImportHref::Url(Url { value: None }))),
        Node::ImportPrelude(import(ImportHref::Str("kept.css".to_string()))),
    ];
    let deps = analyze(&nodes);
    assert_eq!(deps.imports.len(), 1);
    assert_eq!(deps.imports[0].url.value, "kept.css");
}

#[test]
fn analyzer_visit_matches_analyze() {
    let mut a = Analyzer::new();
    a.visit(&Node::Url(url_raw("a.png")));
    a.visit(&Node::ImportPrelude(import(ImportHref::Str("b.css".to_string()))));
    assert_eq!(a.deps.urls[0].value, "a.png");
    assert_eq!(a.deps.imports[0].url.value, "b.css");
}
