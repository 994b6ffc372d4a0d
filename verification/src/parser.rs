//! The grammar of a specification: entries separated by commas, each a
//! level, a target, or a target and a level joined by `=`. Whatever follows
//! the first `/` is not read.

use crate::directive::{Directive, DirectiveView, ParseResult, ParseResultView};
use crate::severity::{severity_in, severity_of_token, Severity};
use crate::specificity::{is_specificity_order, sort_by_specificity, tried_order};
use crate::text::{
    chars_of, find_char, first_index_of, lemma_split_first, split, trim_range, trimmed,
};
use vstd::prelude::*;
use vstd::string::*;

verus! {

/// What one entry of a specification turns out to be.
#[derive(Debug, PartialEq, Eq)]
pub enum Entry {
    /// Nothing but white space: skipped.
    Blank,
    /// A directive.
    Rule(Directive),
    /// Not understood: the message that says so.
    Fault(String),
}

/// What an [`Entry`] stands for.
pub enum EntryView {
    Blank,
    Rule(DirectiveView),
    Fault(Seq<char>),
}

impl View for Entry {
    type V = EntryView;

    open spec fn view(&self) -> EntryView {
        match self {
            Entry::Blank => EntryView::Blank,
            Entry::Rule(d) => EntryView::Rule(d@),
            Entry::Fault(m) => EntryView::Fault(m@),
        }
    }
}

/// The message for a piece of a specification that was not understood.
pub open spec fn invalid_spec(what: Seq<char>) -> Seq<char> {
    "invalid logging spec '"@ + what + "'"@
}

/// The meaning of one entry, by the number of pieces that `=` cuts it into
/// once the white space around it is gone:
///
/// * one piece is a level, which makes the fallback, or else a target at the
///   most verbose level;
/// * two pieces are a target and a level, where an empty level stands for the
///   most verbose one and an unknown level is a fault;
/// * more pieces are a fault.
pub open spec fn entry_meaning(entry: Seq<char>) -> EntryView {
    let e = trimmed(entry);
    let parts = split(e, '=');
    if e.len() == 0 {
        EntryView::Blank
    } else if parts.len() == 1 {
        match severity_of_token(e) {
            Some(level) => EntryView::Rule(DirectiveView { name: None, level }),
            None => EntryView::Rule(DirectiveView { name: Some(e), level: Severity::Trace }),
        }
    } else if parts.len() == 2 {
        let token = trimmed(parts[1]);
        if token.len() == 0 {
            EntryView::Rule(DirectiveView { name: Some(parts[0]), level: Severity::Trace })
        } else {
            match severity_of_token(token) {
                Some(level) => EntryView::Rule(DirectiveView { name: Some(parts[0]), level }),
                None => EntryView::Fault(invalid_spec(token)),
            }
        }
    } else {
        EntryView::Fault(invalid_spec(e))
    }
}

/// The part of a specification that holds directives: all that stands before
/// the first `/`.
pub open spec fn directive_segment(spec: Seq<char>) -> Seq<char> {
    spec.take(first_index_of(spec, '/') as int)
}

/// The entries of a specification, as written.
pub open spec fn entries_of(spec: Seq<char>) -> Seq<Seq<char>> {
    split(directive_segment(spec), ',')
}

/// The directives among the entries, in the order of the entries.
pub open spec fn directives_in(entries: Seq<Seq<char>>) -> Seq<DirectiveView>
    decreases entries.len(),
{
    if entries.len() == 0 {
        Seq::empty()
    } else {
        let before = directives_in(entries.drop_last());
        match entry_meaning(entries.last()) {
            EntryView::Rule(d) => before.push(d),
            _ => before,
        }
    }
}

/// The messages for the faulty entries, in the order of the entries.
pub open spec fn errors_in(entries: Seq<Seq<char>>) -> Seq<Seq<char>>
    decreases entries.len(),
{
    if entries.len() == 0 {
        Seq::empty()
    } else {
        let before = errors_in(entries.drop_last());
        match entry_meaning(entries.last()) {
            EntryView::Fault(m) => before.push(m),
            _ => before,
        }
    }
}

/// What a specification means: its directives in the order in which they are
/// tried, and a message for each faulty entry in the order of the entries.
pub open spec fn parse(spec: Seq<char>) -> ParseResultView {
    ParseResultView {
        directives: tried_order(directives_in(entries_of(spec))),
        errors: errors_in(entries_of(spec)),
    }
}

/// Builds the message for a piece that was not understood.
pub fn invalid_spec_message(what: &str) -> (r: String)
    ensures
        r@ == invalid_spec(what@),
{
    let mut message = String::from_str("invalid logging spec '");
    message.append(what);
    message.append("'");
    message
}

/// Reads the entry `chars[from..to]` of `spec`.
fn entry_in(spec: &str, chars: &[char], from: usize, to: usize) -> (r: Entry)
    requires
        chars@ == spec@,
        from <= to <= chars.len(),
    ensures
        r@ == entry_meaning(chars@.subrange(from as int, to as int)),
{
    let (a, b) = trim_range(chars, from, to);
    let ghost e = chars@.subrange(a as int, b as int);
    if a == b {
        return Entry::Blank;
    }
    let eq1 = find_char(chars, a, b, '=');
    proof {
        lemma_split_first(e, '=');
    }
    if eq1 == b {
        match severity_in(chars, a, b) {
            Some(level) => Entry::Rule(Directive::global(level)),
            None => Entry::Rule(Directive::named(spec.substring_char(a, b), Severity::Trace)),
        }
    } else {
        let eq2 = find_char(chars, eq1 + 1, b, '=');
        let ghost rest = chars@.subrange(eq1 + 1, b as int);
        proof {
            assert(e.skip(eq1 - a + 1) == rest);
            assert(e.take(eq1 - a) == chars@.subrange(a as int, eq1 as int));
            lemma_split_first(rest, '=');
            assert(split(e, '=').len() == 1 + split(rest, '=').len());
            assert(split(e, '=')[1] == split(e, '=').skip(1)[0]);
        }
        if eq2 == b {
            let (c, d) = trim_range(chars, eq1 + 1, b);
            let name = spec.substring_char(a, eq1);
            if c == d {
                Entry::Rule(Directive::named(name, Severity::Trace))
            } else {
                match severity_in(chars, c, d) {
                    Some(level) => Entry::Rule(Directive::named(name, level)),
                    None => Entry::Fault(invalid_spec_message(spec.substring_char(c, d))),
                }
            }
        } else {
            proof {
                lemma_split_first(rest.skip(eq2 - (eq1 + 1) + 1), '=');
            }
            Entry::Fault(invalid_spec_message(spec.substring_char(a, b)))
        }
    }
}

/// Reads a single entry of a specification.
pub fn parse_entry(entry: &str) -> (r: Entry)
    ensures
        r@ == entry_meaning(entry@),
{
    let chars = chars_of(entry);
    assert(chars@.subrange(0, chars@.len() as int) == chars@);
    entry_in(entry, &chars, 0, chars.len())
}

/// Reads the entries of a specification in the order in which they are
/// written. Every entry is read, whatever came before it: a fault adds a
/// message and reading goes on.
pub fn read_entries(spec: &str) -> (r: ParseResult)
    ensures
        r@.directives == directives_in(entries_of(spec@)),
        r@.errors == errors_in(entries_of(spec@)),
{
    let chars = chars_of(spec);
    assert(chars@.subrange(0, chars@.len() as int) == chars@);
    let end = find_char(&chars, 0, chars.len(), '/');
    let ghost segment = chars@.subrange(0, end as int);
    let ghost all = split(segment, ',');
    let ghost mut k: int = 0;
    let mut result = ParseResult::default();
    let mut pos: usize = 0;
    proof {
        lemma_split_first(segment, ',');
        assert(all.skip(0) == all);
        assert(all.take(0) == Seq::<Seq<char>>::empty());
    }
    loop
        invariant_except_break
            result@.directives == directives_in(all.take(k)),
            result@.errors == errors_in(all.take(k)),
        invariant
            chars@ == spec@,
            pos <= end <= chars.len(),
            all == split(chars@.subrange(0, end as int), ','),
            0 <= k < all.len(),
            all.skip(k) == split(chars@.subrange(pos as int, end as int), ','),
        ensures
            result@.directives == directives_in(all),
            result@.errors == errors_in(all),
        decreases end - pos,
    {
        let comma = find_char(&chars, pos, end, ',');
        let ghost rest = chars@.subrange(pos as int, end as int);
        proof {
            lemma_split_first(rest, ',');
            assert(all[k] == all.skip(k)[0]);
            assert(rest.take(comma - pos) == chars@.subrange(pos as int, comma as int));
            assert(all.take(k + 1).drop_last() == all.take(k));
            assert(all.take(k + 1).last() == all[k]);
        }
        match entry_in(spec, &chars, pos, comma) {
            Entry::Blank => {},
            Entry::Rule(d) => {
                result.add_directive(d);
            },
            Entry::Fault(m) => {
                result.add_error(m);
            },
        }
        if comma == end {
            proof {
                assert(all.skip(k).len() == 1);
                assert(all.take(k + 1) == all);
            }
            break ;
        }
        proof {
            assert(rest.skip(comma - pos + 1) == chars@.subrange(comma + 1, end as int));
            assert(all.skip(k).skip(1) == all.skip(k + 1));
            lemma_split_first(chars@.subrange(comma + 1, end as int), ',');
            k = k + 1;
        }
        pos = comma + 1;
    }
    result
}

/// Reads a specification such as `crate1,crate2::mod3,crate3::x=error/foo`.
///
/// Reading never fails: what is not understood is reported in the result's
/// messages, one for each faulty entry, and the other entries still count.
/// The directives come in the order in which they are tried.
pub fn parse_spec(spec: &str) -> (r: ParseResult)
    ensures
        r@ == parse(spec@),
        is_specificity_order(directives_in(entries_of(spec@)), r@.directives),
{
    let read = read_entries(spec);
    let directives = sort_by_specificity(&read.directives);
    ParseResult { directives, errors: read.errors }
}

} // verus!
