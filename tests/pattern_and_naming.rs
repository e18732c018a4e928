use css_node::naming::{CssModuleTransformConfig, FileName};
use css_node::pattern::{CssClassNameSegment, CssModulesConfig, PatternError};

fn compile(p: &str) -> Result<Vec<CssClassNameSegment>, PatternError> {
    CssModulesConfig { pattern: p.to_string() }.parse_pattern()
}

fn describe(segs: &[CssClassNameSegment]) -> Vec<String> {
    segs.iter()
        .map(|s| match s {
            CssClassNameSegment::Literal(t) => format!("lit:{}", t),
            CssClassNameSegment::Name => "name".to_string(),
            CssClassNameSegment::Local => "local".to_string(),
            CssClassNameSegment::Hash => "hash".to_string(),
        })
        .collect()
}

fn config(file: FileName, hash: u8, pattern: &str) -> CssModuleTransformConfig {
    CssModuleTransformConfig::new(&file, hash, compile(pattern).unwrap()).unwrap()
}

#[test]
fn compiles_all_placeholders_and_literals() {
    let segs = compile("[name]__[local]___[hash]").unwrap();
    assert_eq!(
        describe(&segs),
        vec!["name", "lit:__", "local", "lit:___", "hash"]
    );
}

#[test]
fn compiles_empty_pattern_to_nothing() {
    assert!(compile("").unwrap().is_empty());
}

#[test]
fn literal_runs_up_to_the_next_bracket() {
    let segs = compile("x-[local]-y").unwrap();
    assert_eq!(describe(&segs), vec!["lit:x-", "local", "lit:-y"]);
}

#[test]
fn rejects_unknown_placeholder() {
    match compile("[bogus]") {
        Err(PatternError::UnknownPlaceholder { placeholder, offset }) => {
            assert!(placeholder.contains("bogus"));
            assert_eq!(placeholder, "[bogus]");
            assert_eq!(offset, 0);
        }
        other => panic!("unexpected {:?}", other),
    }
}

#[test]
fn rejects_unterminated_bracket() {
    match compile("[name") {
        Err(PatternError::UnclosedBracket { offset }) => assert_eq!(offset, 0),
        other => panic!("unexpected {:?}", other),
    }
}

#[test]
fn error_offsets_count_bytes() {
    match compile("ab[local]é[x]") {
        Err(PatternError::UnknownPlaceholder { placeholder, offset }) => {
            assert_eq!(placeholder, "[x]");
            assert_eq!(offset, 11);
        }
        other => panic!("unexpected {:?}", other),
    }
    match compile("ab[hash][loc") {
        Err(PatternError::UnclosedBracket { offset }) => assert_eq!(offset, 8),
        other => panic!("unexpected {:?}", other),
    }
}

#[test]
fn token_runs_to_first_closing_bracket() {
    match compile("[na[me]") {
        Err(PatternError::UnknownPlaceholder { placeholder, offset }) => {
            assert_eq!(placeholder, "[na[me]");
            assert_eq!(offset, 0);
        }
        other => panic!("unexpected {:?}", other),
    }
}

#[test]
fn generated_name_is_deterministic() {
    let a = config(FileName::Real("src/button.css".to_string()), 0xab, "[name]__[local]___[hash]");
    let first = a.new_name_for("root");
    assert_eq!(first, "button__root___ab");
    assert_eq!(a.new_name_for("root"), first);
    let b = config(FileName::Real("src/button.css".to_string()), 0xab, "[name]__[local]___[hash]");
    assert_eq!(b.new_name_for("root"), first);
}

#[test]
fn hash_is_two_lowercase_digits() {
    let c = config(FileName::Real("a.css".to_string()), 0x0f, "[hash]");
    assert_eq!(c.new_name_for("x"), "0f");
    let c = config(FileName::Real("a.css".to_string()), 0xC3, "h[hash]");
    assert_eq!(c.new_name_for("x"), "hc3");
}

#[test]
fn anonymous_file_uses_placeholder_text() {
    let c = config(FileName::Anon, 1, "[name]-[local]");
    assert_eq!(c.new_name_for("title"), "[anon]-title");
}

#[test]
fn literal_only_pattern_ignores_local() {
    let c = config(FileName::Anon, 1, "fixed");
    assert_eq!(c.new_name_for("title"), "fixed");
}

#[test]
fn path_without_stem_is_refused() {
    let segs = compile("[local]").unwrap();
    assert!(CssModuleTransformConfig::new(&FileName::Real("..".to_string()), 0, segs).is_none());
}
