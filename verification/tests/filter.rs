use esp_support::{
    compile, compile_spec, parse_spec, CompiledFilter, Directive, FilterError, ParseResult,
    Severity,
};

const ALL: [Severity; 6] = [
    Severity::Off,
    Severity::Error,
    Severity::Warn,
    Severity::Info,
    Severity::Debug,
    Severity::Trace,
];

fn filter_for(spec: &str) -> CompiledFilter {
    compile(parse_spec(spec)).unwrap()
}

#[test]
fn the_longer_prefix_wins() {
    let filter = filter_for("foo=debug,foobar=error");
    assert!(!filter.decide(Severity::Debug, "foobar"));
    assert!(filter.decide(Severity::Error, "foobar"));
    assert!(filter.decide(Severity::Debug, "foo"));
    assert!(filter.decide(Severity::Debug, "foob"));
    assert!(!filter.decide(Severity::Trace, "foo"));
    assert!(!filter.decide(Severity::Warn, "foobar::baz"));
    assert!(!filter.decide(Severity::Error, "fo"));
    assert_eq!(filter.max_severity(), Severity::Debug);
}

#[test]
fn the_longer_prefix_wins_whatever_the_written_order() {
    let filter = filter_for("foobar=error,foo=debug");
    assert!(!filter.decide(Severity::Debug, "foobar"));
    assert!(filter.decide(Severity::Error, "foobar"));
    assert!(filter.decide(Severity::Debug, "foo"));
}

#[test]
fn the_longer_prefix_wins_across_a_fallback() {
    let filter = filter_for("b,info,bbb=error");
    assert!(!filter.decide(Severity::Debug, "bbbx"));
    assert!(filter.decide(Severity::Error, "bbbx"));
    assert!(filter.decide(Severity::Trace, "bx"));
    assert!(filter.decide(Severity::Info, "x"));
    assert!(!filter.decide(Severity::Debug, "x"));
}

#[test]
fn warn_alone_decides_every_target() {
    let filter = filter_for("warn");
    assert!(filter.decide(Severity::Warn, "anything"));
    assert!(!filter.decide(Severity::Info, "anything"));
    assert!(filter.decide(Severity::Error, ""));
    assert_eq!(filter.max_severity(), Severity::Warn);
    assert!(filter.is_configured());
    assert_eq!(filter.fallback(), Some(Severity::Warn));
    assert!(filter.rules().is_empty());
}

#[test]
fn no_configuration_bounds_at_off_and_lets_everything_pass() {
    let filter = compile_spec(None).unwrap();
    assert_eq!(filter.max_severity(), Severity::Off);
    assert!(filter.decide(Severity::Trace, "x"));
    assert!(!filter.is_configured());
    for level in ALL {
        assert!(filter.decide(level, ""));
        assert!(filter.decide(level, "any::target"));
    }
    assert_eq!(CompiledFilter::unconfigured().max_severity(), Severity::Off);
    assert!(CompiledFilter::unconfigured().decide(Severity::Trace, "x"));
}

#[test]
fn the_empty_specification_bounds_at_off_and_lets_nothing_pass() {
    let filter = compile_spec(Some("")).unwrap();
    assert_eq!(filter.max_severity(), Severity::Off);
    assert!(filter.is_configured());
    for level in ALL {
        assert!(!filter.decide(level, "x"));
    }
}

#[test]
fn faults_abort_with_all_messages() {
    let parsed = parse_spec("a=,b=notalevel");
    assert_eq!(parsed.directives.len(), 1);
    assert_eq!(parsed.directives[0].name.as_deref(), Some("a"));
    assert_eq!(parsed.directives[0].level, Severity::Trace);
    assert_eq!(parsed.errors.len(), 1);
    assert!(parsed.errors[0].contains("notalevel"));
    assert_eq!(
        compile(parsed).unwrap_err(),
        FilterError::Syntax(vec!["invalid logging spec 'notalevel'".to_string()])
    );
    assert_eq!(
        compile_spec(Some("x=y,info,debug,a=b=c")).unwrap_err(),
        FilterError::Syntax(vec![
            "invalid logging spec 'y'".to_string(),
            "invalid logging spec 'a=b=c'".to_string(),
        ])
    );
}

#[test]
fn a_third_target_is_no_conflict() {
    let mut parsed = parse_spec("x=error,y=warn");
    parsed.add_directive(Directive::named("z", Severity::Info));
    let filter = compile(parsed).unwrap();
    assert_eq!(filter.max_severity(), Severity::Info);
    assert!(filter.decide(Severity::Info, "z"));
    assert!(filter.decide(Severity::Warn, "y"));
    assert!(!filter.decide(Severity::Warn, "x"));
    assert!(!filter.decide(Severity::Error, "w"));
    assert_eq!(filter.fallback(), None);
}

#[test]
fn two_fallback_levels_are_a_conflict() {
    assert_eq!(compile(parse_spec("info,debug")).unwrap_err(), FilterError::MultipleGlobalLevels);
    assert_eq!(compile(parse_spec("info,a=warn,info")).unwrap_err(), FilterError::MultipleGlobalLevels);
    assert_eq!(compile_spec(Some("1,2,3")).unwrap_err(), FilterError::MultipleGlobalLevels);
    let mut parsed = parse_spec("x=error,warn");
    parsed.add_directive(Directive::global(Severity::Info));
    assert_eq!(compile(parsed).unwrap_err(), FilterError::MultipleGlobalLevels);
    assert!(compile(parse_spec("info,a=warn")).is_ok());
}

#[test]
fn faults_are_reported_before_a_conflict() {
    assert_eq!(
        compile(parse_spec("info,debug,a=b")).unwrap_err(),
        FilterError::Syntax(vec!["invalid logging spec 'b'".to_string()])
    );
}

#[test]
fn the_bound_is_the_most_verbose_level() {
    assert_eq!(filter_for("a=error").max_severity(), Severity::Error);
    assert_eq!(filter_for("a=error,b=info,c=warn").max_severity(), Severity::Info);
    assert_eq!(filter_for("a=error,debug").max_severity(), Severity::Debug);
    assert_eq!(filter_for("a,off").max_severity(), Severity::Trace);
    assert_eq!(filter_for("off").max_severity(), Severity::Off);
    assert_eq!(filter_for("a=off,b=0").max_severity(), Severity::Off);
    assert_eq!(filter_for(" , ,").max_severity(), Severity::Off);
    assert_eq!(filter_for("/a=trace").max_severity(), Severity::Off);
    for spec in ["a=error,b=info,c=warn", "warn,x=debug", "x::y=trace,x=off", "3"] {
        let parsed = parse_spec(spec);
        let highest = parsed.directives.iter().map(|d| d.level).max().unwrap();
        assert_eq!(compile(parsed).unwrap().max_severity(), highest);
    }
}

#[test]
fn nothing_passes_above_the_bound() {
    let targets = ["", "a", "ab", "abc", "abcd", "b", "x::y", "x::y::z", "zzz"];
    for spec in ["", "warn", "a=info,ab=off,abc=debug", "x::y=trace,error", "b=1,a=2,3", "abc"] {
        let filter = filter_for(spec);
        for level in ALL {
            for target in targets {
                if filter.decide(level, target) {
                    assert!(level <= filter.max_severity());
                }
            }
        }
    }
}

#[test]
fn a_target_that_no_rule_names_gets_the_fallback_or_nothing() {
    let with_fallback = filter_for("a::b=trace,error");
    assert!(with_fallback.decide(Severity::Error, "a"));
    assert!(!with_fallback.decide(Severity::Warn, "a"));
    assert!(with_fallback.decide(Severity::Off, "a"));
    let without = filter_for("a::b=trace");
    assert!(!without.decide(Severity::Error, "a"));
    assert!(!without.decide(Severity::Off, "a"));
    assert!(without.decide(Severity::Trace, "a::b"));
    assert!(without.decide(Severity::Off, "a::b"));
}

#[test]
fn off_for_a_target_silences_it() {
    let filter = filter_for("trace,noisy=off");
    assert!(!filter.decide(Severity::Error, "noisy::part"));
    assert!(filter.decide(Severity::Off, "noisy::part"));
    assert!(filter.decide(Severity::Trace, "quiet"));
}

#[test]
fn the_empty_name_names_every_target() {
    let filter = filter_for("=warn,error");
    assert!(filter.decide(Severity::Warn, "anything"));
    assert!(filter.decide(Severity::Warn, ""));
    assert!(!filter.decide(Severity::Info, "anything"));
}

#[test]
fn rules_are_tried_in_the_order_given() {
    let unsorted = ParseResult {
        directives: vec![
            Directive::named("a", Severity::Error),
            Directive::named("ab", Severity::Debug),
        ],
        errors: Vec::new(),
    };
    let filter = compile(unsorted).unwrap();
    assert!(!filter.decide(Severity::Debug, "ab"));
    assert!(filter.decide(Severity::Error, "ab"));
    assert_eq!(filter.max_severity(), Severity::Debug);
    assert_eq!(
        filter.rules(),
        &vec![Directive::named("a", Severity::Error), Directive::named("ab", Severity::Debug)]
    );
}

#[test]
fn prefixes_are_compared_by_characters() {
    let filter = filter_for("gr\u{fc}=info");
    assert!(filter.decide(Severity::Info, "gr\u{fc}\u{df}e"));
    assert!(!filter.decide(Severity::Info, "gru"));
    assert!(!filter.decide(Severity::Info, "gr"));
}

#[test]
fn messages_tell_why_no_filter_was_made() {
    assert_eq!(
        FilterError::DeprecatedVariable.message(),
        "`ESP_LOGLEVEL` and `ESP_LOGFILTER` is not supported anymore. Please use `ESP_LOG` instead."
    );
    assert_eq!(
        FilterError::MultipleGlobalLevels.message(),
        "Multiple global log levels specified in `ESP_LOG`"
    );
    assert_eq!(
        compile(parse_spec("a=,b=notalevel")).unwrap_err().message(),
        "Error parsing `ESP_LOG`: [\"invalid logging spec 'notalevel'\"]"
    );
    assert_eq!(
        compile(parse_spec("a=x,b=c=d,e=\"\\")).unwrap_err().message(),
        "Error parsing `ESP_LOG`: [\"invalid logging spec 'x'\", \"invalid logging spec 'b=c=d'\", \"invalid logging spec '\\\"\\\\'\"]"
    );
    assert_eq!(FilterError::Syntax(Vec::new()).message(), "Error parsing `ESP_LOG`: []");
}

#[test]
fn the_message_for_faulty_entries_starts_the_same() {
    assert_eq!(esp_support::filter::syntax_message(""), "Error parsing `ESP_LOG`: ");
    assert_eq!(esp_support::filter::syntax_message("[x]"), "Error parsing `ESP_LOG`: [x]");
}
