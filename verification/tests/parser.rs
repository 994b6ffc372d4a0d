use esp_support::{parse_entry, parse_spec, read_entries, Directive, Entry, Severity};

fn named(name: &str, level: Severity) -> Directive {
    Directive { name: Some(name.to_string()), level }
}

fn global(level: Severity) -> Directive {
    Directive { name: None, level }
}

#[test]
fn a_level_alone_is_the_fallback() {
    assert_eq!(parse_entry("warn"), Entry::Rule(global(Severity::Warn)));
    assert_eq!(parse_entry("3"), Entry::Rule(global(Severity::Info)));
    assert_eq!(parse_entry("  off "), Entry::Rule(global(Severity::Off)));
}

#[test]
fn a_token_that_is_no_level_is_a_target_at_trace() {
    assert_eq!(parse_entry("crate1"), Entry::Rule(named("crate1", Severity::Trace)));
    assert_eq!(parse_entry("crate2::mod3"), Entry::Rule(named("crate2::mod3", Severity::Trace)));
    assert_eq!(parse_entry("WARN"), Entry::Rule(named("WARN", Severity::Trace)));
    assert_eq!(parse_entry("7"), Entry::Rule(named("7", Severity::Trace)));
}

#[test]
fn a_target_with_an_empty_level_is_at_trace() {
    assert_eq!(parse_entry("a="), Entry::Rule(named("a", Severity::Trace)));
    assert_eq!(parse_entry("a=   "), Entry::Rule(named("a", Severity::Trace)));
    assert_eq!(parse_entry("="), Entry::Rule(named("", Severity::Trace)));
}

#[test]
fn a_target_with_a_level() {
    assert_eq!(parse_entry("crate3::x=error"), Entry::Rule(named("crate3::x", Severity::Error)));
    assert_eq!(parse_entry("x=4"), Entry::Rule(named("x", Severity::Debug)));
    assert_eq!(parse_entry("x= info"), Entry::Rule(named("x", Severity::Info)));
    assert_eq!(parse_entry(" x =info "), Entry::Rule(named("x ", Severity::Info)));
    assert_eq!(parse_entry("=debug"), Entry::Rule(named("", Severity::Debug)));
    assert_eq!(parse_entry("warn=warn"), Entry::Rule(named("warn", Severity::Warn)));
}

#[test]
fn an_unknown_level_is_a_fault_that_names_the_level() {
    assert_eq!(
        parse_entry("b=notalevel"),
        Entry::Fault("invalid logging spec 'notalevel'".to_string())
    );
    assert_eq!(parse_entry("b= INFO "), Entry::Fault("invalid logging spec 'INFO'".to_string()));
    assert_eq!(parse_entry("b=9"), Entry::Fault("invalid logging spec '9'".to_string()));
}

#[test]
fn more_than_one_equals_sign_is_a_fault_that_names_the_entry() {
    assert_eq!(
        parse_entry(" a=info=debug "),
        Entry::Fault("invalid logging spec 'a=info=debug'".to_string())
    );
    assert_eq!(parse_entry("a=="), Entry::Fault("invalid logging spec 'a=='".to_string()));
    assert_eq!(parse_entry("==="), Entry::Fault("invalid logging spec '==='".to_string()));
}

#[test]
fn blank_entries_are_skipped() {
    assert_eq!(parse_entry(""), Entry::Blank);
    assert_eq!(parse_entry("   "), Entry::Blank);
    assert_eq!(parse_entry("\t\n\u{a0}\u{2003}\u{3000}"), Entry::Blank);
}

#[test]
fn white_space_is_what_unicode_says() {
    for c in ['\u{9}', '\u{a}', '\u{b}', '\u{c}', '\u{d}', ' ', '\u{85}', '\u{a0}', '\u{1680}',
        '\u{2000}', '\u{2005}', '\u{200a}', '\u{2028}', '\u{2029}', '\u{202f}', '\u{205f}',
        '\u{3000}']
    {
        assert!(c.is_whitespace());
        assert_eq!(parse_entry(&format!("{c}warn{c}")), Entry::Rule(global(Severity::Warn)));
    }
    for c in ['\u{8}', '\u{e}', '\u{1f}', '\u{200b}', '\u{180e}', '\u{feff}', '_'] {
        assert!(!c.is_whitespace());
        assert_eq!(
            parse_entry(&format!("{c}warn{c}")),
            Entry::Rule(named(&format!("{c}warn{c}"), Severity::Trace))
        );
    }
}

#[test]
fn entries_are_read_in_written_order() {
    let read = read_entries("crate1,crate2::mod3,crate3::x=error");
    assert_eq!(
        read.directives,
        vec![
            named("crate1", Severity::Trace),
            named("crate2::mod3", Severity::Trace),
            named("crate3::x", Severity::Error),
        ]
    );
    assert!(read.errors.is_empty());
}

#[test]
fn targets_without_a_fallback() {
    let parsed = parse_spec("crate1,crate2::mod3,crate3::x=error");
    assert_eq!(
        parsed.directives,
        vec![
            named("crate2::mod3", Severity::Trace),
            named("crate3::x", Severity::Error),
            named("crate1", Severity::Trace),
        ]
    );
    assert!(parsed.errors.is_empty());
}

#[test]
fn what_follows_the_first_slash_is_not_read() {
    let parsed = parse_spec("error/foo");
    assert_eq!(parsed.directives, vec![global(Severity::Error)]);
    assert!(parsed.errors.is_empty());

    let parsed = parse_spec("a=info/b=debug,c==,warn/x");
    assert_eq!(parsed.directives, vec![named("a", Severity::Info)]);
    assert!(parsed.errors.is_empty());

    let parsed = parse_spec("/a=info");
    assert!(parsed.directives.is_empty());
    assert!(parsed.errors.is_empty());
}

#[test]
fn warn_alone_sets_the_fallback() {
    let parsed = parse_spec("warn");
    assert_eq!(parsed.directives, vec![global(Severity::Warn)]);
    assert!(parsed.errors.is_empty());
}

#[test]
fn the_empty_specification_has_no_directives() {
    let parsed = parse_spec("");
    assert!(parsed.directives.is_empty());
    assert!(parsed.errors.is_empty());
}

#[test]
fn trailing_and_doubled_commas_are_tolerated() {
    let parsed = parse_spec("a=info,,b=warn, ,");
    assert_eq!(parsed.directives, vec![named("a", Severity::Info), named("b", Severity::Warn)]);
    assert!(parsed.errors.is_empty());
    let parsed = parse_spec(",,,");
    assert!(parsed.directives.is_empty());
    assert!(parsed.errors.is_empty());
}

#[test]
fn a_fault_does_not_stop_the_reading() {
    let parsed = parse_spec("a=,b=notalevel");
    assert_eq!(parsed.directives, vec![named("a", Severity::Trace)]);
    assert_eq!(parsed.errors, vec!["invalid logging spec 'notalevel'".to_string()]);
}

#[test]
fn all_faults_are_reported_in_order() {
    let parsed = parse_spec("x=1=2, good=info ,y=loud,z=debug=,last");
    assert_eq!(
        parsed.directives,
        vec![named("good", Severity::Info), named("last", Severity::Trace)]
    );
    assert_eq!(
        parsed.errors,
        vec![
            "invalid logging spec 'x=1=2'".to_string(),
            "invalid logging spec 'loud'".to_string(),
            "invalid logging spec 'z=debug='".to_string(),
        ]
    );
}

#[test]
fn every_entry_faulty() {
    let parsed = parse_spec("a=b,c=d=e");
    assert!(parsed.directives.is_empty());
    assert_eq!(
        parsed.errors,
        vec!["invalid logging spec 'b'".to_string(), "invalid logging spec 'c=d=e'".to_string()]
    );
}

#[test]
fn names_that_are_not_ascii() {
    let parsed = parse_spec("gr\u{fc}\u{df}e=warn,\u{65e5}\u{672c}=info");
    assert_eq!(
        parsed.directives,
        vec![named("gr\u{fc}\u{df}e", Severity::Warn), named("\u{65e5}\u{672c}", Severity::Info)]
    );
    assert!(parsed.errors.is_empty());
}

#[test]
fn add_directive_and_add_error_append() {
    let mut parsed = parse_spec("x=error");
    parsed.add_directive(named("longer::name", Severity::Info));
    parsed.add_error("seen".to_string());
    assert_eq!(
        parsed.directives,
        vec![named("x", Severity::Error), named("longer::name", Severity::Info)]
    );
    assert_eq!(parsed.errors, vec!["seen".to_string()]);
}

#[test]
fn directive_constructors() {
    assert_eq!(Directive::named("a::b", Severity::Info), named("a::b", Severity::Info));
    assert_eq!(Directive::global(Severity::Warn), global(Severity::Warn));
    assert!(Directive::global(Severity::Warn).is_global());
    assert!(!Directive::named("", Severity::Warn).is_global());
    assert_eq!(Directive::named("a::b", Severity::Info).specificity(), 4);
    assert_eq!(Directive::named("\u{65e5}\u{672c}", Severity::Info).specificity(), 6);
    assert_eq!(Directive::global(Severity::Info).specificity(), 0);
    let d = named("a", Severity::Error);
    assert_eq!(d.clone(), d);
}

#[test]
fn every_character_is_white_space_or_not_as_unicode_says() {
    let mut buffer = [0u8; 4];
    for c in '\u{0}'..=char::MAX {
        let blank = parse_entry(c.encode_utf8(&mut buffer)) == Entry::Blank;
        assert_eq!(blank, c.is_whitespace());
    }
}
