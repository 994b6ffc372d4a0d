//! Directives and the result of reading a specification.

use crate::severity::Severity;
use vstd::prelude::*;
use vstd::utf8::encode_utf8;

verus! {

/// One rule of a specification: a threshold for the targets that start with
/// `name`, or, without a name, the fallback for every other target.
#[derive(Debug, PartialEq, Eq)]
pub struct Directive {
    pub name: Option<String>,
    pub level: Severity,
}

/// What a [`Directive`] stands for.
pub struct DirectiveView {
    pub name: Option<Seq<char>>,
    pub level: Severity,
}

impl View for Directive {
    type V = DirectiveView;

    open spec fn view(&self) -> DirectiveView {
        DirectiveView {
            name: match self.name {
                Some(n) => Some(n@),
                None => None,
            },
            level: self.level,
        }
    }
}

impl DirectiveView {
    /// How specific the directive is: the length of its name in bytes of
    /// UTF-8. The fallback has none.
    pub open spec fn specificity(self) -> nat {
        match self.name {
            Some(n) => encode_utf8(n).len(),
            None => 0,
        }
    }

    /// Whether the directive names `target`: it has a name, and the target
    /// starts with it.
    pub open spec fn names(self, target: Seq<char>) -> bool {
        self.name matches Some(n) && n.is_prefix_of(target)
    }
}

impl Clone for Directive {
    fn clone(&self) -> (r: Self)
        ensures
            r@ == self@,
    {
        let name = match &self.name {
            Some(n) => Some(n.clone()),
            None => None,
        };
        Directive { name, level: self.level }
    }
}

impl Directive {
    /// A directive for the targets that start with `name`.
    pub fn named(name: &str, level: Severity) -> (r: Directive)
        ensures
            r@ == (DirectiveView { name: Some(name@), level }),
    {
        Directive { name: Some(name.to_owned()), level }
    }

    /// The fallback directive.
    pub fn global(level: Severity) -> (r: Directive)
        ensures
            r@ == (DirectiveView { name: None, level }),
    {
        Directive { name: None, level }
    }

    /// Whether this is the fallback directive.
    pub fn is_global(&self) -> (r: bool)
        ensures
            r == (self@.name is None),
    {
        self.name.is_none()
    }

    /// Length of the name in bytes; 0 for the fallback.
    pub fn specificity(&self) -> (r: usize)
        ensures
            r == self@.specificity(),
    {
        match &self.name {
            Some(n) => n.as_str().as_bytes().len(),
            None => 0,
        }
    }
}

/// The directives of a vector, each by its view.
pub open spec fn directive_views(v: Seq<Directive>) -> Seq<DirectiveView> {
    v.map_values(|d: Directive| d@)
}

/// The strings of a vector, each by its view.
pub open spec fn string_views(v: Seq<String>) -> Seq<Seq<char>> {
    v.map_values(|s: String| s@)
}

/// What reading a specification gives: the directives, and a message for
/// each entry that could not be read.
#[derive(Debug, PartialEq, Eq)]
pub struct ParseResult {
    pub directives: Vec<Directive>,
    pub errors: Vec<String>,
}

/// What a [`ParseResult`] stands for.
pub struct ParseResultView {
    pub directives: Seq<DirectiveView>,
    pub errors: Seq<Seq<char>>,
}

impl View for ParseResult {
    type V = ParseResultView;

    open spec fn view(&self) -> ParseResultView {
        ParseResultView {
            directives: directive_views(self.directives@),
            errors: string_views(self.errors@),
        }
    }
}

impl Default for ParseResult {
    fn default() -> (r: Self)
        ensures
            r@.directives == Seq::<DirectiveView>::empty(),
            r@.errors == Seq::<Seq<char>>::empty(),
    {
        ParseResult { directives: Vec::new(), errors: Vec::new() }
    }
}

impl ParseResult {
    /// Appends a directive; the messages stay as they are.
    pub fn add_directive(&mut self, directive: Directive)
        ensures
            final(self)@.directives == old(self)@.directives.push(directive@),
            final(self)@.errors == old(self)@.errors,
    {
        self.directives.push(directive);
    }

    /// Appends a message; the directives stay as they are.
    pub fn add_error(&mut self, message: String)
        ensures
            final(self)@.directives == old(self)@.directives,
            final(self)@.errors == old(self)@.errors.push(message@),
    {
        self.errors.push(message);
    }
}

} // verus!
