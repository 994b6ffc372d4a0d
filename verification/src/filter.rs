//! The compiled filter: a bound on the severity of everything that can pass,
//! and the decision whether a message for a target passes.

use crate::directive::{
    directive_views, string_views, Directive, DirectiveView, ParseResult, ParseResultView,
};
use crate::parser::{directives_in, entries_of, errors_in, parse, parse_spec};
use crate::severity::{higher, Severity};
use crate::specificity::{
    lemma_members, lemma_order_keeps_fallbacks, lemma_order_keeps_members, lemma_tried_order,
    lemma_unnamed_of_prefix, most_specific_first, named_of, tried_order, unnamed_of,
};
use crate::text::{chars_of, starts_with};
use vstd::prelude::*;
use vstd::string::*;

verus! {

/// Why no filter was made.
#[derive(Debug, PartialEq, Eq)]
pub enum FilterError {
    /// A variable that is no longer read was set.
    DeprecatedVariable,
    /// The specification has faulty entries: the messages for all of them.
    Syntax(Vec<String>),
    /// The specification sets the fallback level more than once.
    MultipleGlobalLevels,
}

/// What a [`FilterError`] stands for.
pub enum FilterErrorView {
    DeprecatedVariable,
    Syntax(Seq<Seq<char>>),
    MultipleGlobalLevels,
}

impl View for FilterError {
    type V = FilterErrorView;

    open spec fn view(&self) -> FilterErrorView {
        match self {
            FilterError::DeprecatedVariable => FilterErrorView::DeprecatedVariable,
            FilterError::Syntax(messages) => FilterErrorView::Syntax(string_views(messages@)),
            FilterError::MultipleGlobalLevels => FilterErrorView::MultipleGlobalLevels,
        }
    }
}

/// The text that `{:?}` of `std::fmt` gives for a list of strings: the
/// strings, each quoted and escaped, between square brackets.
pub uninterp spec fn debug_listing(messages: Seq<Seq<char>>) -> Seq<char>;

/// The message for faulty entries, given the listing of their messages.
pub open spec fn syntax_text(listing: Seq<char>) -> Seq<char> {
    "Error parsing `ESP_LOG`: "@ + listing
}

/// The message that tells the user why no filter was made.
pub open spec fn message_text(e: FilterErrorView) -> Seq<char> {
    match e {
        FilterErrorView::DeprecatedVariable => "`ESP_LOGLEVEL` and `ESP_LOGFILTER` is not supported anymore. Please use `ESP_LOG` instead."@,
        FilterErrorView::Syntax(messages) => syntax_text(debug_listing(messages)),
        FilterErrorView::MultipleGlobalLevels => "Multiple global log levels specified in `ESP_LOG`"@,
    }
}

/// Formats a list of messages with `{:?}` of `std::fmt`, through `format!`.
///
/// Not proved: the text depends on the messages alone, which is all that the
/// contract claims by giving it a name. What the text looks like is not
/// stated.
#[verifier::external_body]
fn listing_of(messages: &Vec<String>) -> (r: String)
    ensures
        r@ == debug_listing(string_views(messages@)),
{
    format!("{:?}", messages)
}

/// Builds the message for faulty entries from the listing of their
/// messages.
pub fn syntax_message(listing: &str) -> (r: String)
    ensures
        r@ == syntax_text(listing@),
{
    let mut text = String::from_str("Error parsing `ESP_LOG`: ");
    text.append(listing);
    text
}

impl FilterError {
    /// The message that tells the user why no filter was made. For faulty
    /// entries it lists the messages of all of them.
    pub fn message(&self) -> (r: String)
        ensures
            r@ == message_text(self@),
    {
        match self {
            FilterError::DeprecatedVariable => String::from_str(
                "`ESP_LOGLEVEL` and `ESP_LOGFILTER` is not supported anymore. Please use `ESP_LOG` instead.",
            ),
            FilterError::Syntax(messages) => {
                let listing = listing_of(messages);
                syntax_message(listing.as_str())
            },
            FilterError::MultipleGlobalLevels => String::from_str(
                "Multiple global log levels specified in `ESP_LOG`",
            ),
        }
    }
}

/// The most verbose level among the directives; `Off` where there are none.
pub open spec fn max_level(ds: Seq<DirectiveView>) -> Severity
    decreases ds.len(),
{
    if ds.len() == 0 {
        Severity::Off
    } else {
        higher(max_level(ds.drop_last()), ds.last().level)
    }
}

/// The level of the first fallback directive, if there is one.
pub open spec fn fallback_of(ds: Seq<DirectiveView>) -> Option<Severity> {
    if unnamed_of(ds).len() > 0 {
        Some(unnamed_of(ds)[0].level)
    } else {
        None
    }
}

/// The threshold that holds for `target`: that of the first rule that names
/// it, else the fallback.
pub open spec fn threshold_for(
    rules: Seq<DirectiveView>,
    fallback: Option<Severity>,
    target: Seq<char>,
) -> Option<Severity>
    decreases rules.len(),
{
    if rules.len() == 0 {
        fallback
    } else if rules[0].names(target) {
        Some(rules[0].level)
    } else {
        threshold_for(rules.drop_first(), fallback, target)
    }
}

/// What a [`CompiledFilter`] stands for.
pub struct CompiledFilterView {
    /// No message above this severity passes a configured filter.
    pub max_severity: Severity,
    /// Whether the filter was made from a specification.
    pub configured: bool,
    /// The named directives, in the order in which they are tried.
    pub rules: Seq<DirectiveView>,
    /// The threshold for targets that no rule names.
    pub fallback: Option<Severity>,
}

impl CompiledFilterView {
    /// Whether a message at `level` for `target` passes. Without a
    /// configuration everything does. With one, the first rule that names the
    /// target decides, else the fallback; with neither, nothing passes.
    pub open spec fn decides(self, level: Severity, target: Seq<char>) -> bool {
        if !self.configured {
            true
        } else {
            match threshold_for(self.rules, self.fallback, target) {
                Some(threshold) => threshold.admits(level),
                None => false,
            }
        }
    }

    /// In a configured filter no threshold is above the bound.
    pub open spec fn bounded(self) -> bool {
        self.configured ==> {
            &&& forall|k: int|
                0 <= k < self.rules.len() ==> (#[trigger] self.rules[k]).level.rank()
                    <= self.max_severity.rank()
            &&& self.fallback matches Some(g) ==> g.rank() <= self.max_severity.rank()
        }
    }
}

/// The filter for the case that no specification was supplied: the bound is
/// `Off`, so that nothing is ever asked, and whatever is asked passes.
pub open spec fn unconfigured_filter() -> CompiledFilterView {
    CompiledFilterView {
        max_severity: Severity::Off,
        configured: false,
        rules: Seq::empty(),
        fallback: None,
    }
}

/// The filter that a list of directives makes.
pub open spec fn compiled(ds: Seq<DirectiveView>) -> CompiledFilterView {
    CompiledFilterView {
        max_severity: max_level(ds),
        configured: true,
        rules: named_of(ds),
        fallback: fallback_of(ds),
    }
}

/// What compiling gives: the messages where there are any, else a conflict
/// where the fallback level is set more than once, else the filter.
pub open spec fn compile_outcome(p: ParseResultView) -> Result<
    CompiledFilterView,
    FilterErrorView,
> {
    if p.errors.len() > 0 {
        Err(FilterErrorView::Syntax(p.errors))
    } else if unnamed_of(p.directives).len() > 1 {
        Err(FilterErrorView::MultipleGlobalLevels)
    } else {
        Ok(compiled(p.directives))
    }
}

/// A configuration as the contracts see it.
pub open spec fn configuration_view(spec: Option<&str>) -> Option<Seq<char>> {
    match spec {
        Some(s) => Some(s@),
        None => None,
    }
}

/// What a configuration gives: the unconfigured filter where no
/// specification was supplied (an empty one is a specification), else what
/// compiling the specification gives.
pub open spec fn spec_outcome(spec: Option<Seq<char>>) -> Result<
    CompiledFilterView,
    FilterErrorView,
> {
    match spec {
        None => Ok(unconfigured_filter()),
        Some(s) => compile_outcome(parse(s)),
    }
}

/// `max_level` is the maximum of the levels: no directive is above it, and
/// some directive attains it unless there is none, where it is `Off`.
pub proof fn lemma_max_level_is_maximum(ds: Seq<DirectiveView>)
    ensures
        forall|i: int| 0 <= i < ds.len() ==> (#[trigger] ds[i]).level.rank() <= max_level(ds).rank(),
        ds.len() > 0 ==> exists|i: int| 0 <= i < ds.len() && (#[trigger] ds[i]).level == max_level(ds),
        ds.len() == 0 ==> max_level(ds) == Severity::Off,
    decreases ds.len(),
{
    if ds.len() > 0 {
        let shorter = ds.drop_last();
        lemma_max_level_is_maximum(shorter);
        assert forall|i: int| 0 <= i < ds.len() implies (#[trigger] ds[i]).level.rank()
            <= max_level(ds).rank() by {
            if i < shorter.len() {
                assert(ds[i] == shorter[i]);
            }
        }
        if max_level(ds) == ds.last().level {
            assert(ds[ds.len() - 1].level == max_level(ds));
        } else {
            let i = choose|i: int| 0 <= i < shorter.len() && (#[trigger] shorter[i]).level == max_level(shorter);
            assert(ds[i].level == max_level(ds));
        }
    }
}

/// The threshold for a target is that of a rule that names it, or the
/// fallback.
pub proof fn lemma_threshold_source(
    rules: Seq<DirectiveView>,
    fallback: Option<Severity>,
    target: Seq<char>,
)
    ensures
        threshold_for(rules, fallback, target) == fallback || exists|k: int|
            0 <= k < rules.len() && (#[trigger] rules[k]).names(target) && threshold_for(
                rules,
                fallback,
                target,
            ) == Some(rules[k].level),
    decreases rules.len(),
{
    if rules.len() > 0 {
        if rules[0].names(target) {
            assert(threshold_for(rules, fallback, target) == Some(rules[0].level));
        } else {
            let rest = rules.drop_first();
            lemma_threshold_source(rest, fallback, target);
            if threshold_for(rest, fallback, target) != fallback {
                let k = choose|k: int|
                    0 <= k < rest.len() && (#[trigger] rest[k]).names(target) && threshold_for(
                        rest,
                        fallback,
                        target,
                    ) == Some(rest[k].level);
                assert(rules[k + 1] == rest[k]);
            }
        }
    }
}

/// Whatever passes a filter with bounded thresholds is within its bound.
pub proof fn lemma_bounded_decision(f: CompiledFilterView, level: Severity, target: Seq<char>)
    requires
        f.configured,
        f.bounded(),
        f.decides(level, target),
    ensures
        level.rank() <= f.max_severity.rank(),
{
    lemma_threshold_source(f.rules, f.fallback, target);
}

/// The filter that directives make has bounded thresholds.
pub proof fn lemma_compiled_bounded(ds: Seq<DirectiveView>)
    ensures
        compiled(ds).bounded(),
{
    lemma_members(ds);
    lemma_max_level_is_maximum(ds);
    let f = compiled(ds);
    assert forall|k: int| 0 <= k < f.rules.len() implies (#[trigger] f.rules[k]).level.rank()
        <= f.max_severity.rank() by {
        let d = named_of(ds)[k];
        assert(ds.contains(d));
        let j = choose|j: int| 0 <= j < ds.len() && ds[j] == d;
        assert(ds[j].level.rank() <= max_level(ds).rank());
    }
    if unnamed_of(ds).len() > 0 {
        let d = unnamed_of(ds)[0];
        assert(ds.contains(d));
        let j = choose|j: int| 0 <= j < ds.len() && ds[j] == d;
        assert(ds[j].level.rank() <= max_level(ds).rank());
    }
}

/// The bound and the decision of a compiled filter agree: a message that
/// passes the filter made from `ds` is at most as verbose as the most verbose
/// directive of `ds`.
pub proof fn lemma_decision_within_bound(
    ds: Seq<DirectiveView>,
    level: Severity,
    target: Seq<char>,
)
    requires
        compiled(ds).decides(level, target),
    ensures
        level.rank() <= compiled(ds).max_severity.rank(),
        compiled(ds).max_severity == max_level(ds),
{
    lemma_compiled_bounded(ds);
    lemma_bounded_decision(compiled(ds), level, target);
}

/// The most verbose level depends on which directives there are, not on
/// their order or number.
pub proof fn lemma_max_level_by_members(a: Seq<DirectiveView>, b: Seq<DirectiveView>)
    requires
        forall|d: DirectiveView| a.contains(d) <==> b.contains(d),
    ensures
        max_level(a) == max_level(b),
{
    lemma_max_level_is_maximum(a);
    lemma_max_level_is_maximum(b);
    if a.len() > 0 {
        let i = choose|i: int| 0 <= i < a.len() && (#[trigger] a[i]).level == max_level(a);
        assert(b.contains(a[i]));
        let j = choose|j: int| 0 <= j < b.len() && b[j] == a[i];
        assert(b[j].level.rank() <= max_level(b).rank());
    }
    if b.len() > 0 {
        let i = choose|i: int| 0 <= i < b.len() && (#[trigger] b[i]).level == max_level(b);
        assert(a.contains(b[i]));
        let j = choose|j: int| 0 <= j < a.len() && a[j] == b[i];
        assert(a[j].level.rank() <= max_level(a).rank());
    }
    if a.len() == 0 && b.len() > 0 {
        assert(b.contains(b[0]));
    }
    if b.len() == 0 && a.len() > 0 {
        assert(a.contains(a[0]));
    }
}

/// What a specification compiles into, told by its entries as they are
/// written: it fails with the messages of the faulty entries where there are
/// any; else with a conflict where more than one entry is a level alone;
/// else the bound is the most verbose level of any entry, the fallback is
/// the level that stands alone, and the rules are the entries with a target
/// in the order in which they are tried.
pub proof fn lemma_outcome_by_entries(spec: Seq<char>)
    ensures
        ({
            let written = directives_in(entries_of(spec));
            let messages = errors_in(entries_of(spec));
            match spec_outcome(Some(spec)) {
                Ok(f) => {
                    &&& messages.len() == 0
                    &&& unnamed_of(written).len() <= 1
                    &&& f.configured
                    &&& f.max_severity == max_level(written)
                    &&& f.fallback == fallback_of(written)
                    &&& f.rules == named_of(tried_order(written))
                },
                Err(FilterErrorView::Syntax(m)) => messages.len() > 0 && m == messages,
                Err(FilterErrorView::MultipleGlobalLevels) => messages.len() == 0 && unnamed_of(
                    written,
                ).len() > 1,
                Err(FilterErrorView::DeprecatedVariable) => false,
            }
        }),
{
    let written = directives_in(entries_of(spec));
    lemma_tried_order(written);
    lemma_order_keeps_fallbacks(written, tried_order(written));
    lemma_order_keeps_members(written, tried_order(written));
    lemma_max_level_by_members(written, tried_order(written));
}

/// The bound of the filter for a configuration is the most verbose level of
/// the directives that the specification holds: no directive is above it, and
/// one of them attains it. It is `Off` where the specification holds no
/// directive, and where none was supplied.
pub proof fn lemma_bound_is_maximum(spec: Option<Seq<char>>)
    requires
        spec_outcome(spec) is Ok,
    ensures
        match spec {
            None => spec_outcome(spec)->Ok_0.max_severity == Severity::Off,
            Some(s) => {
                let ds = parse(s).directives;
                let bound = spec_outcome(spec)->Ok_0.max_severity;
                &&& bound == max_level(ds)
                &&& forall|i: int| 0 <= i < ds.len() ==> (#[trigger] ds[i]).level.rank() <= bound.rank()
                &&& ds.len() > 0 ==> exists|i: int| 0 <= i < ds.len() && (#[trigger] ds[i]).level == bound
                &&& ds.len() == 0 ==> bound == Severity::Off
            },
        },
{
    if let Some(s) = spec {
        lemma_max_level_is_maximum(parse(s).directives);
    }
}

/// The bound and the decision of the filter for a specification agree: what
/// passes is within the bound. (Without a specification the bound is `Off`
/// and everything passes: the bound keeps the question from being asked.)
pub proof fn lemma_decision_within_bound_of_spec(
    spec: Seq<char>,
    level: Severity,
    target: Seq<char>,
)
    requires
        spec_outcome(Some(spec)) matches Ok(f) && f.decides(level, target),
    ensures
        level.rank() <= spec_outcome(Some(spec))->Ok_0.max_severity.rank(),
{
    lemma_decision_within_bound(parse(spec).directives, level, target);
}

/// The rules of the filter for a specification come with the more specific
/// first, so that the most specific rule that names a target decides.
pub proof fn lemma_rules_of_spec_ordered(spec: Seq<char>)
    requires
        spec_outcome(Some(spec)) is Ok,
    ensures
        most_specific_first(spec_outcome(Some(spec))->Ok_0.rules),
{
    lemma_tried_order(directives_in(entries_of(spec)));
}

/// Where no rule names the target, the fallback holds for it.
pub proof fn lemma_fallback_applies(
    rules: Seq<DirectiveView>,
    fallback: Option<Severity>,
    target: Seq<char>,
)
    requires
        forall|k: int| 0 <= k < rules.len() ==> !(#[trigger] rules[k]).names(target),
    ensures
        threshold_for(rules, fallback, target) == fallback,
    decreases rules.len(),
{
    if rules.len() > 0 {
        let rest = rules.drop_first();
        assert forall|k: int| 0 <= k < rest.len() implies !(#[trigger] rest[k]).names(target) by {
            assert(rest[k] == rules[k + 1]);
        }
        assert(!rules[0].names(target));
        lemma_fallback_applies(rest, fallback, target);
    }
}

/// The most specific rule wins: where rules come with the more specific
/// first and some rule names the target, the threshold is that of a rule
/// that names the target, and no rule that names the target is more specific
/// than it.
pub proof fn lemma_most_specific_wins(
    rules: Seq<DirectiveView>,
    fallback: Option<Severity>,
    target: Seq<char>,
) -> (k: int)
    requires
        most_specific_first(rules),
        exists|j: int| 0 <= j < rules.len() && (#[trigger] rules[j]).names(target),
    ensures
        0 <= k < rules.len(),
        rules[k].names(target),
        threshold_for(rules, fallback, target) == Some(rules[k].level),
        forall|j: int|
            0 <= j < rules.len() && (#[trigger] rules[j]).names(target) ==> rules[j].specificity()
                <= rules[k].specificity(),
        forall|j: int| 0 <= j < k ==> !(#[trigger] rules[j]).names(target),
    decreases rules.len(),
{
    if rules[0].names(target) {
        0
    } else {
        let rest = rules.drop_first();
        let w = choose|j: int| 0 <= j < rules.len() && (#[trigger] rules[j]).names(target);
        assert(rest[w - 1] == rules[w]);
        assert forall|i: int, j: int| 0 <= i < j < rest.len() implies rest[i].specificity()
            >= rest[j].specificity() by {
            assert(rest[i] == rules[i + 1] && rest[j] == rules[j + 1]);
        }
        let k = lemma_most_specific_wins(rest, fallback, target);
        assert(rules[k + 1] == rest[k]);
        assert forall|j: int|
            0 <= j < rules.len() && (#[trigger] rules[j]).names(target) implies rules[j].specificity()
            <= rules[k + 1].specificity() by {
            assert(rest[j - 1] == rules[j]);
        }
        assert forall|j: int| 0 <= j < k + 1 implies !(#[trigger] rules[j]).names(target) by {
            if j > 0 {
                assert(rest[j - 1] == rules[j]);
            }
        }
        k + 1
    }
}

/// The two artifacts that a specification is compiled into: the bound
/// [`max_severity`](CompiledFilter::max_severity) and the decision
/// [`decide`](CompiledFilter::decide). A filter does not change once made.
#[derive(Debug)]
pub struct CompiledFilter {
    max_severity: Severity,
    configured: bool,
    rules: Vec<Directive>,
    fallback: Option<Severity>,
}

impl View for CompiledFilter {
    type V = CompiledFilterView;

    closed spec fn view(&self) -> CompiledFilterView {
        CompiledFilterView {
            max_severity: self.max_severity,
            configured: self.configured,
            rules: directive_views(self.rules@),
            fallback: self.fallback,
        }
    }
}

impl CompiledFilter {
    #[verifier::type_invariant]
    spec fn thresholds_bounded(&self) -> bool {
        self@.bounded()
    }

    /// The filter for the case that no specification was supplied.
    pub fn unconfigured() -> (r: CompiledFilter)
        ensures
            r@ == unconfigured_filter(),
    {
        let r = CompiledFilter {
            max_severity: Severity::Off,
            configured: false,
            rules: Vec::new(),
            fallback: None,
        };
        assert(r@.rules =~= Seq::empty());
        r
    }

    /// The bound: no message above it passes a configured filter.
    pub fn max_severity(&self) -> (r: Severity)
        ensures
            r == self@.max_severity,
    {
        self.max_severity
    }

    /// Whether the filter was made from a specification.
    pub fn is_configured(&self) -> (r: bool)
        ensures
            r == self@.configured,
    {
        self.configured
    }

    /// The named directives, in the order in which they are tried.
    pub fn rules(&self) -> (r: &Vec<Directive>)
        ensures
            directive_views(r@) == self@.rules,
    {
        &self.rules
    }

    /// The threshold for targets that no rule names.
    pub fn fallback(&self) -> (r: Option<Severity>)
        ensures
            r == self@.fallback,
    {
        self.fallback
    }

    /// Decides whether a message at `level` for `target` passes.
    ///
    /// What passes a configured filter is within its bound.
    pub fn decide(&self, level: Severity, target: &str) -> (r: bool)
        ensures
            r == self@.decides(level, target@),
            r && self@.configured ==> level.rank() <= self@.max_severity.rank(),
    {
        proof {
            use_type_invariant(self);
            if self@.configured && self@.decides(level, target@) {
                lemma_bounded_decision(self@, level, target@);
            }
        }
        if !self.configured {
            return true;
        }
        let chars = chars_of(target);
        let ghost rules = directive_views(self.rules@);
        let mut i: usize = 0;
        proof {
            assert(rules.skip(0) == rules);
        }
        while i < self.rules.len()
            invariant
                self.configured,
                self@.decides(level, target@) ==> level.rank() <= self@.max_severity.rank(),
                rules == directive_views(self.rules@),
                chars@ == target@,
                i <= self.rules.len(),
                threshold_for(rules.skip(i as int), self.fallback, target@) == threshold_for(
                    rules,
                    self.fallback,
                    target@,
                ),
            decreases self.rules.len() - i,
        {
            let rule = &self.rules[i];
            proof {
                assert(rules.skip(i as int)[0] == rule@);
                assert(rules.skip(i as int).drop_first() == rules.skip(i + 1));
            }
            let named = match &rule.name {
                Some(name) => starts_with(&chars, name.as_str()),
                None => false,
            };
            assert(named == rule@.names(target@));
            if named {
                return rule.level.allows(level);
            }
            i += 1;
        }
        match self.fallback {
            Some(threshold) => threshold.allows(level),
            None => false,
        }
    }
}

/// Compiles the directives of a specification into a filter.
///
/// Fails with all the messages where the specification had faulty entries,
/// and with a conflict where it sets the fallback level more than once.
/// Otherwise the filter's bound is the most verbose level of any directive,
/// `Off` where there is none; its rules are the named directives in the
/// order given, and its fallback is that of the specification.
pub fn compile(result: ParseResult) -> (r: Result<CompiledFilter, FilterError>)
    ensures
        match r {
            Ok(f) => compile_outcome(result@) == Ok::<CompiledFilterView, FilterErrorView>(f@),
            Err(e) => compile_outcome(result@) == Err::<CompiledFilterView, FilterErrorView>(e@),
        },
{
    let ghost ds = result@.directives;
    if result.errors.len() > 0 {
        return Err(FilterError::Syntax(result.errors));
    }
    let mut max = Severity::Off;
    let mut rules: Vec<Directive> = Vec::new();
    let mut fallback: Option<Severity> = None;
    let mut i: usize = 0;
    proof {
        assert(ds.take(0) == Seq::<DirectiveView>::empty());
        assert(directive_views(rules@) == Seq::<DirectiveView>::empty());
    }
    while i < result.directives.len()
        invariant
            ds == directive_views(result.directives@),
            result@.errors.len() == 0,
            i <= result.directives.len(),
            max == max_level(ds.take(i as int)),
            directive_views(rules@) == named_of(ds.take(i as int)),
            unnamed_of(ds.take(i as int)).len() <= 1,
            fallback == fallback_of(ds.take(i as int)),
            forall|k: int|
                0 <= k < rules.len() ==> (#[trigger] directive_views(rules@)[k]).level.rank()
                    <= max.rank(),
            fallback matches Some(g) ==> g.rank() <= max.rank(),
        decreases result.directives.len() - i,
    {
        let d = &result.directives[i];
        let ghost before = directive_views(rules@);
        proof {
            assert(ds.take(i + 1).drop_last() == ds.take(i as int));
            assert(ds.take(i + 1).last() == d@);
        }
        max = max.or_higher(d.level);
        if d.is_global() {
            if fallback.is_some() {
                proof {
                    lemma_unnamed_of_prefix(ds, i + 1);
                }
                return Err(FilterError::MultipleGlobalLevels);
            }
            fallback = Some(d.level);
        } else {
            let rule = d.clone();
            rules.push(rule);
            proof {
                assert(directive_views(rules@) == before.push(rule@));
            }
        }
        i += 1;
    }
    proof {
        assert(ds.take(i as int) == ds);
    }
    Ok(CompiledFilter { max_severity: max, configured: true, rules, fallback })
}

/// Makes the filter for a configuration: the unconfigured filter where no
/// specification was supplied, else what the specification compiles into.
pub fn compile_spec(spec: Option<&str>) -> (r: Result<CompiledFilter, FilterError>)
    ensures
        match r {
            Ok(f) => spec_outcome(configuration_view(spec)) == Ok::<
                CompiledFilterView,
                FilterErrorView,
            >(f@),
            Err(e) => spec_outcome(configuration_view(spec)) == Err::<
                CompiledFilterView,
                FilterErrorView,
            >(e@),
        },
{
    match spec {
        None => Ok(CompiledFilter::unconfigured()),
        Some(s) => compile(parse_spec(s)),
    }
}

} // verus!
