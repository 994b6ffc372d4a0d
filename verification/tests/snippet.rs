use esp_support::{build_snippet, compile, generate_filter_snippet, parse_spec, snippet, FilterError};

const UNCONFIGURED: &str = "pub(crate) const FILTER_MAX: log_04::LevelFilter = log_04::LevelFilter::Off; pub(crate) fn is_enabled(_level: log_04::Level, _target: &str) -> bool { true }";

#[test]
fn fragment_without_a_configuration() {
    assert_eq!(generate_filter_snippet(None).unwrap(), UNCONFIGURED);
}

#[test]
fn fragment_for_the_empty_specification() {
    assert_eq!(
        generate_filter_snippet(Some("")).unwrap(),
        "pub(crate) const FILTER_MAX: log_04::LevelFilter = log_04::LevelFilter::Off;\
         pub(crate) fn is_enabled(level: log_04::Level, _target: &str) -> bool { false}"
    );
}

#[test]
fn fragment_for_a_fallback() {
    assert_eq!(
        generate_filter_snippet(Some("warn")).unwrap(),
        "pub(crate) const FILTER_MAX: log_04::LevelFilter = log_04::LevelFilter::Warn;\
         pub(crate) fn is_enabled(level: log_04::Level, _target: &str) -> bool {\
         level <= log_04::LevelFilter::Warn}"
    );
}

#[test]
fn fragment_for_targets_and_a_fallback() {
    assert_eq!(
        generate_filter_snippet(Some("foo=debug,warn,foobar=error")).unwrap(),
        "pub(crate) const FILTER_MAX: log_04::LevelFilter = log_04::LevelFilter::Debug;\
         pub(crate) fn is_enabled(level: log_04::Level, _target: &str) -> bool {\
         if _target.starts_with(\"foobar\") { return level <= log_04::LevelFilter::Error; }\
         if _target.starts_with(\"foo\") { return level <= log_04::LevelFilter::Debug; }\
         level <= log_04::LevelFilter::Warn}"
    );
}

#[test]
fn fragment_for_targets_alone() {
    assert_eq!(
        generate_filter_snippet(Some("a::b=trace,c=off/ignored")).unwrap(),
        "pub(crate) const FILTER_MAX: log_04::LevelFilter = log_04::LevelFilter::Trace;\
         pub(crate) fn is_enabled(level: log_04::Level, _target: &str) -> bool {\
         if _target.starts_with(\"a::b\") { return level <= log_04::LevelFilter::Trace; }\
         if _target.starts_with(\"c\") { return level <= log_04::LevelFilter::Off; } \
         false}"
    );
}

#[test]
fn every_level_has_its_identifier_in_the_fragment() {
    for (word, ident) in [
        ("off", "Off"),
        ("error", "Error"),
        ("warn", "Warn"),
        ("info", "Info"),
        ("debug", "Debug"),
        ("trace", "Trace"),
    ] {
        let text = generate_filter_snippet(Some(word)).unwrap();
        assert!(text.starts_with(&format!(
            "pub(crate) const FILTER_MAX: log_04::LevelFilter = log_04::LevelFilter::{ident};"
        )));
        assert!(text.ends_with(&format!("{{level <= log_04::LevelFilter::{ident}}}")));
    }
}

#[test]
fn the_fragment_of_a_filter_is_what_generating_gives() {
    for spec in ["", "warn", "a=info,b=debug", "x,y,z=error,2"] {
        let filter = compile(parse_spec(spec)).unwrap();
        assert_eq!(snippet(&filter), generate_filter_snippet(Some(spec)).unwrap());
    }
}

#[test]
fn generating_fails_as_compiling_does() {
    assert_eq!(
        generate_filter_snippet(Some("a=,b=notalevel")).unwrap_err(),
        FilterError::Syntax(vec!["invalid logging spec 'notalevel'".to_string()])
    );
    assert_eq!(
        generate_filter_snippet(Some("info,debug")).unwrap_err(),
        FilterError::MultipleGlobalLevels
    );
}

#[test]
fn deprecated_variables_abort_the_build() {
    assert_eq!(build_snippet(true, false, Some("warn")).unwrap_err(), FilterError::DeprecatedVariable);
    assert_eq!(build_snippet(false, true, Some("warn")).unwrap_err(), FilterError::DeprecatedVariable);
    assert_eq!(build_snippet(true, true, None).unwrap_err(), FilterError::DeprecatedVariable);
    assert_eq!(
        build_snippet(true, false, Some("a=b=c,info,debug")).unwrap_err(),
        FilterError::DeprecatedVariable
    );
}

#[test]
fn a_build_without_deprecated_variables_generates() {
    assert_eq!(build_snippet(false, false, None).unwrap(), UNCONFIGURED);
    assert_eq!(
        build_snippet(false, false, Some("warn")).unwrap(),
        generate_filter_snippet(Some("warn")).unwrap()
    );
    assert_eq!(
        build_snippet(false, false, Some("info,debug")).unwrap_err(),
        FilterError::MultipleGlobalLevels
    );
}
