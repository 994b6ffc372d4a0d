//! The source fragment that carries a compiled filter into the program that
//! logs: a constant for the bound and a function for the decision.

use crate::directive::{directive_views, Directive, DirectiveView};
use crate::filter::{
    compile_spec, configuration_view, spec_outcome, CompiledFilter, CompiledFilterView, FilterError, FilterErrorView,
};
use crate::severity::Severity;
use vstd::prelude::*;
use vstd::string::*;

verus! {

/// The statement for one rule: targets that start with the rule's name are
/// decided by its threshold. A rule without a name gives no statement.
///
/// The name is written between the quotes as it is. A name that holds a
/// quote or a backslash gives a statement that the compiler of the fragment
/// reads otherwise, or refuses.
pub open spec fn rule_text(rule: DirectiveView) -> Seq<char> {
    match rule.name {
        Some(name) => "if _target.starts_with(\""@ + name
            + "\") { return level <= log_04::LevelFilter::"@ + rule.level.ident() + "; }"@,
        None => Seq::empty(),
    }
}

/// The statements for the rules, in the order of the rules.
pub open spec fn rules_text(rules: Seq<DirectiveView>) -> Seq<char>
    decreases rules.len(),
{
    if rules.len() == 0 {
        Seq::empty()
    } else {
        rules_text(rules.drop_last()) + rule_text(rules.last())
    }
}

/// The expression that ends the decision: the fallback's threshold, or
/// a refusal where there is no fallback.
pub open spec fn fallback_text(fallback: Option<Severity>) -> Seq<char> {
    match fallback {
        Some(threshold) => "level <= log_04::LevelFilter::"@ + threshold.ident(),
        None => " false"@,
    }
}

/// The fragment for a filter: the constant `FILTER_MAX` and the function
/// `is_enabled`, and nothing else.
pub open spec fn snippet_text(f: CompiledFilterView) -> Seq<char> {
    if f.configured {
        "pub(crate) const FILTER_MAX: log_04::LevelFilter = log_04::LevelFilter::"@
            + f.max_severity.ident() + ";"@
            + "pub(crate) fn is_enabled(level: log_04::Level, _target: &str) -> bool {"@
            + rules_text(f.rules) + fallback_text(f.fallback) + "}"@
    } else {
        "pub(crate) const FILTER_MAX: log_04::LevelFilter = log_04::LevelFilter::Off; pub(crate) fn is_enabled(_level: log_04::Level, _target: &str) -> bool { true }"@
    }
}

/// What generating gives for a configuration: the fragment of its filter, or
/// the reason why there is no filter.
pub open spec fn snippet_outcome(filter: Option<Seq<char>>) -> Result<Seq<char>, FilterErrorView> {
    match spec_outcome(filter) {
        Ok(f) => Ok(snippet_text(f)),
        Err(e) => Err(e),
    }
}

/// What a build gives: a refusal where one of the two variables that are no
/// longer read is set, whatever the configuration holds; else what
/// generating gives.
pub open spec fn build_outcome(
    loglevel_set: bool,
    logfilter_set: bool,
    filter: Option<Seq<char>>,
) -> Result<Seq<char>, FilterErrorView> {
    if loglevel_set || logfilter_set {
        Err(FilterErrorView::DeprecatedVariable)
    } else {
        snippet_outcome(filter)
    }
}

/// Writes the statement for one rule.
fn rule_statement(rule: &Directive) -> (r: String)
    ensures
        r@ == rule_text(rule@),
{
    match &rule.name {
        Some(name) => {
            let mut text = String::from_str("if _target.starts_with(\"");
            text.append(name.as_str());
            text.append("\") { return level <= log_04::LevelFilter::");
            text.append(rule.level.name());
            text.append("; }");
            text
        },
        None => String::new(),
    }
}

/// Writes the source fragment for a filter.
pub fn snippet(filter: &CompiledFilter) -> (r: String)
    ensures
        r@ == snippet_text(filter@),
{
    if !filter.is_configured() {
        return String::from_str(
            "pub(crate) const FILTER_MAX: log_04::LevelFilter = log_04::LevelFilter::Off; pub(crate) fn is_enabled(_level: log_04::Level, _target: &str) -> bool { true }",
        );
    }
    let mut text = String::from_str(
        "pub(crate) const FILTER_MAX: log_04::LevelFilter = log_04::LevelFilter::",
    );
    text.append(filter.max_severity().name());
    text.append(";");
    text.append("pub(crate) fn is_enabled(level: log_04::Level, _target: &str) -> bool {");
    let ghost head = text@;
    let rules = filter.rules();
    let ghost views = directive_views(rules@);
    let mut i: usize = 0;
    proof {
        assert(views.take(0) == Seq::<DirectiveView>::empty());
        assert(head + Seq::<char>::empty() == head);
    }
    while i < rules.len()
        invariant
            views == directive_views(rules@),
            i <= rules.len(),
            text@ == head + rules_text(views.take(i as int)),
        decreases rules.len() - i,
    {
        let statement = rule_statement(&rules[i]);
        text.append(statement.as_str());
        proof {
            assert(views.take(i + 1).drop_last() == views.take(i as int));
            assert(views.take(i + 1).last() == rules@[i as int]@);
            assert(head + rules_text(views.take(i as int)) + statement@ == head + (rules_text(
                views.take(i as int),
            ) + statement@));
        }
        i += 1;
    }
    proof {
        assert(views.take(i as int) == views);
    }
    match filter.fallback() {
        Some(threshold) => {
            let mut tail = String::from_str("level <= log_04::LevelFilter::");
            tail.append(threshold.name());
            text.append(tail.as_str());
        },
        None => {
            text.append(" false");
        },
    }
    text.append("}");
    text
}

/// Generates the source fragment for a configuration: `None` where no
/// specification was supplied, which is not the same as an empty one.
pub fn generate_filter_snippet(filter: Option<&str>) -> (r: Result<String, FilterError>)
    ensures
        match r {
            Ok(text) => snippet_outcome(configuration_view(filter)) == Ok::<
                Seq<char>,
                FilterErrorView,
            >(text@),
            Err(e) => snippet_outcome(configuration_view(filter)) == Err::<
                Seq<char>,
                FilterErrorView,
            >(e@),
        },
{
    match compile_spec(filter) {
        Ok(compiled) => Ok(snippet(&compiled)),
        Err(e) => Err(e),
    }
}

/// Runs a build: refuses where `ESP_LOGLEVEL` or `ESP_LOGFILTER` is set, to
/// whatever value, before the configuration is looked at; else generates the
/// fragment for the configuration.
pub fn build_snippet(loglevel_set: bool, logfilter_set: bool, filter: Option<&str>) -> (r: Result<
    String,
    FilterError,
>)
    ensures
        match r {
            Ok(text) => build_outcome(loglevel_set, logfilter_set, configuration_view(filter))
                == Ok::<Seq<char>, FilterErrorView>(text@),
            Err(e) => build_outcome(loglevel_set, logfilter_set, configuration_view(filter))
                == Err::<Seq<char>, FilterErrorView>(e@),
        },
{
    if loglevel_set || logfilter_set {
        return Err(FilterError::DeprecatedVariable);
    }
    generate_filter_snippet(filter)
}

} // verus!
