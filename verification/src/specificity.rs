//! The order in which directives are tried: among the named ones, the more
//! specific first.

use crate::directive::{directive_views, Directive, DirectiveView};
use vstd::prelude::*;

verus! {

/// The named directives of `s`, in their order.
pub open spec fn named_of(s: Seq<DirectiveView>) -> Seq<DirectiveView>
    decreases s.len(),
{
    if s.len() == 0 {
        Seq::empty()
    } else {
        let before = named_of(s.drop_last());
        if s.last().name is Some {
            before.push(s.last())
        } else {
            before
        }
    }
}

/// The fallback directives of `s`, in their order.
pub open spec fn unnamed_of(s: Seq<DirectiveView>) -> Seq<DirectiveView>
    decreases s.len(),
{
    if s.len() == 0 {
        Seq::empty()
    } else {
        let before = unnamed_of(s.drop_last());
        if s.last().name is None {
            before.push(s.last())
        } else {
            before
        }
    }
}

/// The named directives of `s` whose specificity is `n`, in their order:
/// the class of `n` in `s`.
pub open spec fn with_specificity(s: Seq<DirectiveView>, n: nat) -> Seq<DirectiveView>
    decreases s.len(),
{
    if s.len() == 0 {
        Seq::empty()
    } else {
        let before = with_specificity(s.drop_last(), n);
        if s.last().name is Some && s.last().specificity() == n {
            before.push(s.last())
        } else {
            before
        }
    }
}

/// No directive of `s` is more specific than one that stands before it.
pub open spec fn most_specific_first(s: Seq<DirectiveView>) -> bool {
    forall|i: int, j: int| 0 <= i < j < s.len() ==> s[i].specificity() >= s[j].specificity()
}

/// `output` is `input` in the order in which directives are tried:
///
/// * every fallback directive stands where it stood, and the named ones
///   share the other places;
/// * the named directives come with the more specific first;
/// * named directives that are equally specific keep their order.
pub open spec fn is_specificity_order(
    input: Seq<DirectiveView>,
    output: Seq<DirectiveView>,
) -> bool {
    &&& output.len() == input.len()
    &&& forall|i: int|
        0 <= i < input.len() ==> (if input[i].name is None {
            output[i] == input[i]
        } else {
            output[i].name is Some
        })
    &&& most_specific_first(named_of(output))
    &&& forall|n: nat| #[trigger] with_specificity(output, n) == with_specificity(input, n)
}

/// Every directive of `named_of` has a name.
pub proof fn lemma_named_of_named(s: Seq<DirectiveView>)
    ensures
        forall|k: int| 0 <= k < named_of(s).len() ==> (#[trigger] named_of(s)[k]).name is Some,
    decreases s.len(),
{
    if s.len() > 0 {
        lemma_named_of_named(s.drop_last());
    }
}

/// A prefix of `s` holds no more named directives than `s`.
pub proof fn lemma_named_of_prefix(s: Seq<DirectiveView>, i: int)
    requires
        0 <= i <= s.len(),
    ensures
        named_of(s.take(i)).len() <= named_of(s).len(),
    decreases s.len() - i,
{
    if i < s.len() {
        lemma_named_of_prefix(s, i + 1);
        assert(s.take(i + 1).drop_last() == s.take(i));
    } else {
        assert(s.take(i) == s);
    }
}

/// A prefix of `s` holds no more fallback directives than `s`.
pub proof fn lemma_unnamed_of_prefix(s: Seq<DirectiveView>, i: int)
    requires
        0 <= i <= s.len(),
    ensures
        unnamed_of(s.take(i)).len() <= unnamed_of(s).len(),
    decreases s.len() - i,
{
    if i < s.len() {
        lemma_unnamed_of_prefix(s, i + 1);
        assert(s.take(i + 1).drop_last() == s.take(i));
    } else {
        assert(s.take(i) == s);
    }
}

/// Every directive of `named_of` and of `unnamed_of` stands in the sequence
/// that it was taken from.
pub proof fn lemma_members(s: Seq<DirectiveView>)
    ensures
        forall|k: int| 0 <= k < named_of(s).len() ==> s.contains(#[trigger] named_of(s)[k]),
        forall|k: int| 0 <= k < unnamed_of(s).len() ==> s.contains(#[trigger] unnamed_of(s)[k]),
    decreases s.len(),
{
    if s.len() > 0 {
        let shorter = s.drop_last();
        lemma_members(shorter);
        assert forall|d: DirectiveView| shorter.contains(d) implies s.contains(d) by {
            let j = choose|j: int| 0 <= j < shorter.len() && shorter[j] == d;
            assert(s[j] == d);
        }
        assert(s.contains(s.last())) by {
            assert(s[s.len() - 1] == s.last());
        }
        assert forall|k: int| 0 <= k < named_of(s).len() implies s.contains(
            #[trigger] named_of(s)[k],
        ) by {
            if k < named_of(shorter).len() {
                assert(named_of(s)[k] == named_of(shorter)[k]);
            }
        }
        assert forall|k: int| 0 <= k < unnamed_of(s).len() implies s.contains(
            #[trigger] unnamed_of(s)[k],
        ) by {
            if k < unnamed_of(shorter).len() {
                assert(unnamed_of(s)[k] == unnamed_of(shorter)[k]);
            }
        }
    }
}

/// Leaving the fallback directives out changes nothing for
/// `with_specificity`.
pub proof fn lemma_with_specificity_of_named(s: Seq<DirectiveView>, n: nat)
    ensures
        with_specificity(named_of(s), n) == with_specificity(s, n),
    decreases s.len(),
{
    if s.len() > 0 {
        lemma_with_specificity_of_named(s.drop_last(), n);
        if s.last().name is Some {
            assert(named_of(s).drop_last() == named_of(s.drop_last()));
        }
    }
}

/// Putting a named directive in behind everything that is as specific as it
/// is adds it at the end of its own class and leaves the other classes alone.
pub proof fn lemma_with_specificity_insert(
    s: Seq<DirectiveView>,
    p: int,
    d: DirectiveView,
    n: nat,
)
    requires
        0 <= p <= s.len(),
        d.name is Some,
        forall|k: int| p <= k < s.len() ==> s[k].specificity() != d.specificity(),
    ensures
        with_specificity(s.insert(p, d), n) == if d.specificity() == n {
            with_specificity(s, n).push(d)
        } else {
            with_specificity(s, n)
        },
    decreases s.len() - p,
{
    let t = s.insert(p, d);
    if p == s.len() {
        assert(t.drop_last() == s);
    } else {
        assert(t.drop_last() == s.drop_last().insert(p, d));
        assert(t.last() == s.last());
        lemma_with_specificity_insert(s.drop_last(), p, d, n);
    }
}

/// The last directive of a class of `s` stands somewhere in `s`.
proof fn lemma_with_specificity_last(s: Seq<DirectiveView>, n: nat) -> (j: int)
    requires
        with_specificity(s, n).len() > 0,
    ensures
        0 <= j < s.len(),
        s[j] == with_specificity(s, n).last(),
        s[j].specificity() == n,
    decreases s.len(),
{
    if s.last().name is Some && s.last().specificity() == n {
        s.len() - 1
    } else {
        lemma_with_specificity_last(s.drop_last(), n)
    }
}

/// Two sequences of named directives, each with the more specific first,
/// whose classes agree, are the same sequence.
proof fn lemma_named_order_unique(x: Seq<DirectiveView>, y: Seq<DirectiveView>)
    requires
        forall|k: int| 0 <= k < x.len() ==> (#[trigger] x[k]).name is Some,
        forall|k: int| 0 <= k < y.len() ==> (#[trigger] y[k]).name is Some,
        most_specific_first(x),
        most_specific_first(y),
        forall|n: nat| #[trigger] with_specificity(x, n) == with_specificity(y, n),
    ensures
        x == y,
    decreases x.len(),
{
    if x.len() == 0 {
        if y.len() > 0 {
            let n = y.last().specificity();
            assert(y[y.len() - 1].name is Some);
            assert(with_specificity(y, n) == with_specificity(y.drop_last(), n).push(y.last()));
            assert(with_specificity(x, n) == with_specificity(y, n));
            assert(with_specificity(x, n).len() == 0);
            assert(false);
        }
        assert(x =~= y);
    } else {
        let n = x.last().specificity();
        assert(x[x.len() - 1].name is Some);
        assert(with_specificity(x, n) == with_specificity(x.drop_last(), n).push(x.last()));
        assert(with_specificity(x, n) == with_specificity(y, n));
        assert(with_specificity(x, n).last() == x.last());
        let j = lemma_with_specificity_last(y, n);
        let m = y.last().specificity();
        assert(y[y.len() - 1].name is Some);
        assert(with_specificity(y, m) == with_specificity(y.drop_last(), m).push(y.last()));
        assert(with_specificity(x, m) == with_specificity(y, m));
        assert(with_specificity(y, m).last() == y.last());
        let i = lemma_with_specificity_last(x, m);
        assert(n == m);
        assert(x.last() == y.last());
        let xs = x.drop_last();
        let ys = y.drop_last();
        assert forall|c: nat| #[trigger] with_specificity(xs, c) == with_specificity(ys, c) by {
            assert(with_specificity(x, c) == with_specificity(y, c));
            if c == n {
                assert(with_specificity(xs, c) == with_specificity(x, c).drop_last());
                assert(with_specificity(ys, c) == with_specificity(y, c).drop_last());
            }
        }
        lemma_named_order_unique(xs, ys);
        assert(x =~= xs.push(x.last()));
        assert(y =~= ys.push(y.last()));
    }
}

/// Two sequences with the same fallback directives at the same places and
/// the same named directives in the same order are the same sequence.
proof fn lemma_woven_unique(a: Seq<DirectiveView>, b: Seq<DirectiveView>)
    requires
        a.len() == b.len(),
        forall|i: int|
            0 <= i < a.len() ==> (if a[i].name is None {
                b[i] == a[i]
            } else {
                b[i].name is Some
            }),
        named_of(a) == named_of(b),
    ensures
        a == b,
    decreases a.len(),
{
    if a.len() > 0 {
        let xs = a.drop_last();
        let ys = b.drop_last();
        if a.last().name is Some {
            assert(named_of(a).drop_last() == named_of(xs));
            assert(named_of(b).drop_last() == named_of(ys));
            assert(named_of(a).last() == a.last());
            assert(named_of(b).last() == b.last());
        }
        lemma_woven_unique(xs, ys);
        assert(a =~= xs.push(a.last()));
        assert(b =~= ys.push(b.last()));
    } else {
        assert(a =~= b);
    }
}

/// The order in which directives are tried is determined by the directives:
/// whatever meets `is_specificity_order` for an input is the same sequence.
pub proof fn lemma_specificity_order_unique(
    input: Seq<DirectiveView>,
    a: Seq<DirectiveView>,
    b: Seq<DirectiveView>,
)
    requires
        is_specificity_order(input, a),
        is_specificity_order(input, b),
    ensures
        a == b,
{
    lemma_named_of_named(a);
    lemma_named_of_named(b);
    assert forall|n: nat| #[trigger]
        with_specificity(named_of(a), n) == with_specificity(named_of(b), n) by {
        lemma_with_specificity_of_named(a, n);
        lemma_with_specificity_of_named(b, n);
        assert(with_specificity(a, n) == with_specificity(input, n));
        assert(with_specificity(b, n) == with_specificity(input, n));
    }
    lemma_named_order_unique(named_of(a), named_of(b));
    lemma_woven_unique(a, b);
}


/// Where a directive of specificity `n` goes into `s`: behind the leading
/// directives that are at least as specific.
pub open spec fn place(s: Seq<DirectiveView>, n: nat) -> nat
    decreases s.len(),
{
    if s.len() == 0 || s[0].specificity() < n {
        0
    } else {
        1 + place(s.drop_first(), n)
    }
}

/// `s` with the more specific first, equally specific directives in the
/// order in which they stand in `s`.
pub open spec fn ranked(s: Seq<DirectiveView>) -> Seq<DirectiveView>
    decreases s.len(),
{
    if s.len() == 0 {
        Seq::empty()
    } else {
        let before = ranked(s.drop_last());
        before.insert(place(before, s.last().specificity()) as int, s.last())
    }
}

/// `input` with its named directives replaced, one by one and in order, by
/// those of `named`.
pub open spec fn woven(input: Seq<DirectiveView>, named: Seq<DirectiveView>) -> Seq<
    DirectiveView,
>
    decreases input.len(),
{
    if input.len() == 0 {
        Seq::empty()
    } else if input.last().name is None || named.len() == 0 {
        woven(input.drop_last(), named).push(input.last())
    } else {
        woven(input.drop_last(), named.drop_last()).push(named.last())
    }
}

/// The order in which the directives of `input` are tried: the one sequence
/// that `is_specificity_order` admits for it.
pub open spec fn tried_order(input: Seq<DirectiveView>) -> Seq<DirectiveView> {
    woven(input, ranked(named_of(input)))
}

/// `place` cuts a sequence that has the more specific first into the
/// directives at least as specific as `n` and the less specific ones.
proof fn lemma_place(s: Seq<DirectiveView>, n: nat)
    requires
        most_specific_first(s),
    ensures
        place(s, n) <= s.len(),
        forall|k: int| 0 <= k < place(s, n) ==> s[k].specificity() >= n,
        forall|k: int| place(s, n) <= k < s.len() ==> s[k].specificity() < n,
    decreases s.len(),
{
    if s.len() > 0 {
        let rest = s.drop_first();
        assert forall|i: int, j: int| 0 <= i < j < rest.len() implies rest[i].specificity()
            >= rest[j].specificity() by {
            assert(rest[i] == s[i + 1] && rest[j] == s[j + 1]);
        }
        if s[0].specificity() < n {
            assert forall|k: int| 0 <= k < s.len() implies s[k].specificity() < n by {
                if k > 0 {
                    assert(s[0].specificity() >= s[k].specificity());
                }
            }
        } else {
            lemma_place(rest, n);
            assert forall|k: int| 0 <= k < place(s, n) implies s[k].specificity() >= n by {
                if k > 0 {
                    assert(s[k] == rest[k - 1]);
                }
            }
            assert forall|k: int| place(s, n) <= k < s.len() implies s[k].specificity() < n by {
                assert(s[k] == rest[k - 1]);
            }
        }
    }
}

/// `ranked` keeps the directives, class by class in their order, and has the
/// more specific first.
proof fn lemma_ranked(s: Seq<DirectiveView>)
    requires
        forall|k: int| 0 <= k < s.len() ==> (#[trigger] s[k]).name is Some,
    ensures
        ranked(s).len() == s.len(),
        forall|k: int| 0 <= k < ranked(s).len() ==> (#[trigger] ranked(s)[k]).name is Some,
        most_specific_first(ranked(s)),
        forall|n: nat| #[trigger] with_specificity(ranked(s), n) == with_specificity(s, n),
    decreases s.len(),
{
    if s.len() > 0 {
        let before = ranked(s.drop_last());
        let d = s.last();
        let p = place(before, d.specificity()) as int;
        lemma_ranked(s.drop_last());
        lemma_place(before, d.specificity());
        assert forall|n: nat| #[trigger]
            with_specificity(ranked(s), n) == with_specificity(s, n) by {
            lemma_with_specificity_insert(before, p, d, n);
            assert(with_specificity(before, n) == with_specificity(s.drop_last(), n));
        }
    }
}

/// `woven` leaves the fallback directives where they are and puts `named`,
/// in its order, at the other places.
proof fn lemma_woven(input: Seq<DirectiveView>, named: Seq<DirectiveView>)
    requires
        named.len() == named_of(input).len(),
        forall|k: int| 0 <= k < named.len() ==> (#[trigger] named[k]).name is Some,
    ensures
        woven(input, named).len() == input.len(),
        forall|i: int|
            0 <= i < input.len() ==> (if input[i].name is None {
                woven(input, named)[i] == input[i]
            } else {
                woven(input, named)[i].name is Some
            }),
        named_of(woven(input, named)) == named,
    decreases input.len(),
{
    let output = woven(input, named);
    if input.len() == 0 {
        assert(named =~= Seq::empty());
    } else {
        let shorter = input.drop_last();
        if input.last().name is None {
            lemma_woven(shorter, named);
            assert(output.drop_last() == woven(shorter, named));
        } else {
            lemma_woven(shorter, named.drop_last());
            assert(output.drop_last() == woven(shorter, named.drop_last()));
            assert(named.drop_last().push(named.last()) == named);
        }
        assert forall|i: int| 0 <= i < input.len() implies (if input[i].name is None {
            output[i] == input[i]
        } else {
            output[i].name is Some
        }) by {
            if i < shorter.len() {
                assert(input[i] == shorter[i]);
                assert(output[i] == output.drop_last()[i]);
            }
        }
    }
}

/// `tried_order` is an order in which the directives are tried; by
/// `lemma_specificity_order_unique` it is the only one.
pub proof fn lemma_tried_order(input: Seq<DirectiveView>)
    ensures
        is_specificity_order(input, tried_order(input)),
{
    let output = tried_order(input);
    lemma_named_of_named(input);
    lemma_ranked(named_of(input));
    lemma_woven(input, ranked(named_of(input)));
    assert forall|n: nat| #[trigger]
        with_specificity(output, n) == with_specificity(input, n) by {
        lemma_with_specificity_of_named(output, n);
        lemma_with_specificity_of_named(input, n);
        assert(with_specificity(ranked(named_of(input)), n) == with_specificity(
            named_of(input),
            n,
        ));
    }
}

/// Every directive of a class of `s` stands in `s`.
proof fn lemma_class_members(s: Seq<DirectiveView>, n: nat)
    ensures
        forall|k: int|
            0 <= k < with_specificity(s, n).len() ==> s.contains(
                #[trigger] with_specificity(s, n)[k],
            ),
    decreases s.len(),
{
    if s.len() > 0 {
        let shorter = s.drop_last();
        lemma_class_members(shorter, n);
        assert forall|k: int| 0 <= k < with_specificity(s, n).len() implies s.contains(
            #[trigger] with_specificity(s, n)[k],
        ) by {
            if k < with_specificity(shorter, n).len() {
                let d = with_specificity(shorter, n)[k];
                assert(shorter.contains(d));
                let j = choose|j: int| 0 <= j < shorter.len() && shorter[j] == d;
                assert(s[j] == d);
            } else {
                assert(s[s.len() - 1] == s.last());
            }
        }
    }
}

/// A named directive of `s` stands in its class.
proof fn lemma_in_own_class(s: Seq<DirectiveView>, i: int)
    requires
        0 <= i < s.len(),
        s[i].name is Some,
    ensures
        with_specificity(s, s[i].specificity()).contains(s[i]),
    decreases s.len(),
{
    let n = s[i].specificity();
    let class = with_specificity(s, n);
    let shorter = s.drop_last();
    if i == s.len() - 1 {
        assert(class[class.len() - 1] == s[i]);
    } else {
        lemma_in_own_class(shorter, i);
        let earlier = with_specificity(shorter, n);
        let k = choose|k: int| 0 <= k < earlier.len() && earlier[k] == shorter[i];
        assert(class[k] == s[i]);
    }
}

/// Ordering loses no directive and adds none.
pub proof fn lemma_order_keeps_members(input: Seq<DirectiveView>, output: Seq<DirectiveView>)
    requires
        is_specificity_order(input, output),
    ensures
        forall|d: DirectiveView| input.contains(d) <==> output.contains(d),
{
    assert forall|d: DirectiveView| input.contains(d) implies output.contains(d) by {
        let i = choose|i: int| 0 <= i < input.len() && input[i] == d;
        if d.name is None {
            assert(output[i] == d);
        } else {
            let n = d.specificity();
            lemma_in_own_class(input, i);
            assert(with_specificity(output, n) == with_specificity(input, n));
            lemma_class_members(output, n);
        }
    }
    assert forall|d: DirectiveView| output.contains(d) implies input.contains(d) by {
        let i = choose|i: int| 0 <= i < output.len() && output[i] == d;
        if input[i].name is None {
            assert(input[i] == d);
        } else {
            let n = d.specificity();
            lemma_in_own_class(output, i);
            assert(with_specificity(output, n) == with_specificity(input, n));
            lemma_class_members(input, n);
        }
    }
}

/// Ordering leaves the fallback directives as they are, in number and in
/// order.
pub proof fn lemma_order_keeps_fallbacks(input: Seq<DirectiveView>, output: Seq<DirectiveView>)
    requires
        output.len() == input.len(),
        forall|i: int|
            0 <= i < input.len() ==> (if input[i].name is None {
                output[i] == input[i]
            } else {
                output[i].name is Some
            }),
    ensures
        unnamed_of(output) == unnamed_of(input),
    decreases input.len(),
{
    if input.len() > 0 {
        lemma_order_keeps_fallbacks(input.drop_last(), output.drop_last());
    }
}

/// Directives whose named ones already come with the more specific first
/// are tried in the order in which they stand: ordering twice is ordering
/// once.
pub proof fn lemma_tried_order_fixed(s: Seq<DirectiveView>)
    ensures
        most_specific_first(named_of(s)) ==> tried_order(s) == s,
        tried_order(tried_order(s)) == tried_order(s),
{
    lemma_tried_order(s);
    lemma_tried_order(tried_order(s));
    if most_specific_first(named_of(s)) {
        assert(is_specificity_order(s, s));
        lemma_specificity_order_unique(s, s, tried_order(s));
    }
    let t = tried_order(s);
    assert(is_specificity_order(t, t));
    lemma_specificity_order_unique(t, t, tried_order(t));
}

/// Finds the place of a new directive of specificity `n` among `named`: behind
/// every directive that is at least as specific.
fn place_for(named: &Vec<Directive>, n: usize) -> (p: usize)
    requires
        most_specific_first(directive_views(named@)),
    ensures
        p <= named.len(),
        forall|k: int| 0 <= k < p ==> directive_views(named@)[k].specificity() >= n,
        forall|k: int| p <= k < named.len() ==> directive_views(named@)[k].specificity() < n,
{
    let mut p: usize = 0;
    while p < named.len() && named[p].specificity() >= n
        invariant
            p <= named.len(),
            forall|k: int| 0 <= k < p ==> directive_views(named@)[k].specificity() >= n,
        decreases named.len() - p,
    {
        p += 1;
    }
    assert forall|k: int| p <= k < named.len() implies directive_views(named@)[k].specificity()
        < n by {
        assert(directive_views(named@)[p as int].specificity() >= directive_views(
            named@,
        )[k].specificity());
    }
    p
}

/// Collects the named directives of `directives` with the more specific
/// first, equally specific ones in the order in which they stand.
fn named_by_specificity(directives: &Vec<Directive>) -> (named: Vec<Directive>)
    ensures
        forall|k: int|
            0 <= k < named.len() ==> (#[trigger] directive_views(named@)[k]).name is Some,
        most_specific_first(directive_views(named@)),
        named.len() == named_of(directive_views(directives@)).len(),
        forall|n: nat| #[trigger]
            with_specificity(directive_views(named@), n) == with_specificity(
                directive_views(directives@),
                n,
            ),
{
    let ghost input = directive_views(directives@);
    let mut named: Vec<Directive> = Vec::new();
    let mut i: usize = 0;
    proof {
        assert(input.take(0) == Seq::<DirectiveView>::empty());
    }
    while i < directives.len()
        invariant
            input == directive_views(directives@),
            i <= directives.len(),
            forall|k: int|
                0 <= k < named.len() ==> (#[trigger] directive_views(named@)[k]).name is Some,
            most_specific_first(directive_views(named@)),
            named.len() == named_of(input.take(i as int)).len(),
            forall|n: nat| #[trigger]
                with_specificity(directive_views(named@), n) == with_specificity(
                    input.take(i as int),
                    n,
                ),
        decreases directives.len() - i,
    {
        let ghost before = directive_views(named@);
        proof {
            assert(input.take(i + 1).drop_last() == input.take(i as int));
            assert(input.take(i + 1).last() == directives@[i as int]@);
        }
        if !directives[i].is_global() {
            let n = directives[i].specificity();
            let p = place_for(&named, n);
            let d = directives[i].clone();
            named.insert(p, d);
            proof {
                let after = directive_views(named@);
                assert(after == before.insert(p as int, d@));
                assert forall|c: nat| #[trigger]
                    with_specificity(after, c) == with_specificity(input.take(i + 1), c) by {
                    lemma_with_specificity_insert(before, p as int, d@, c);
                    assert(with_specificity(before, c) == with_specificity(input.take(i as int), c));
                }
            }
        } else {
            proof {
                assert forall|c: nat| #[trigger]
                    with_specificity(before, c) == with_specificity(input.take(i + 1), c) by {
                    assert(with_specificity(before, c) == with_specificity(input.take(i as int), c));
                }
            }
        }
        i += 1;
    }
    proof {
        assert(input.take(i as int) == input);
    }
    named
}

/// Puts directives into the order in which they are tried: the named ones
/// with the more specific first, equally specific ones in the order in which
/// they were given, and every fallback directive at the place where it was.
pub fn sort_by_specificity(directives: &Vec<Directive>) -> (sorted: Vec<Directive>)
    ensures
        is_specificity_order(directive_views(directives@), directive_views(sorted@)),
        directive_views(sorted@) == tried_order(directive_views(directives@)),
{
    let ghost input = directive_views(directives@);
    let named = named_by_specificity(directives);
    let ghost ranked = directive_views(named@);
    let mut sorted: Vec<Directive> = Vec::new();
    let mut next: usize = 0;
    let mut i: usize = 0;
    proof {
        assert(input.take(0) == Seq::<DirectiveView>::empty());
        assert(ranked.take(0) == Seq::<DirectiveView>::empty());
    }
    while i < directives.len()
        invariant
            input == directive_views(directives@),
            ranked == directive_views(named@),
            i <= directives.len(),
            sorted.len() == i,
            next == named_of(input.take(i as int)).len(),
            named.len() == named_of(input).len(),
            forall|k: int| 0 <= k < ranked.len() ==> (#[trigger] ranked[k]).name is Some,
            forall|j: int|
                0 <= j < i ==> (if input[j].name is None {
                    directive_views(sorted@)[j] == input[j]
                } else {
                    directive_views(sorted@)[j].name is Some
                }),
            named_of(directive_views(sorted@)) == ranked.take(next as int),
        decreases directives.len() - i,
    {
        let ghost before = directive_views(sorted@);
        proof {
            assert(input.take(i + 1).drop_last() == input.take(i as int));
            assert(input.take(i + 1).last() == input[i as int]);
            lemma_named_of_prefix(input, i + 1);
        }
        if directives[i].is_global() {
            let d = directives[i].clone();
            sorted.push(d);
            proof {
                let after = directive_views(sorted@);
                assert(after == before.push(d@));
                assert(after.drop_last() == before);
            }
        } else {
            let d = named[next].clone();
            sorted.push(d);
            proof {
                let after = directive_views(sorted@);
                assert(after == before.push(d@));
                assert(after.drop_last() == before);
                assert(d@ == ranked[next as int]);
                assert(ranked.take(next as int).push(d@) == ranked.take(next + 1));
            }
            next += 1;
        }
        i += 1;
    }
    proof {
        let output = directive_views(sorted@);
        assert(input.take(i as int) == input);
        assert(ranked.take(next as int) == ranked);
        assert forall|n: nat| #[trigger]
            with_specificity(output, n) == with_specificity(input, n) by {
            lemma_with_specificity_of_named(output, n);
            assert(with_specificity(ranked, n) == with_specificity(input, n));
        }
        lemma_tried_order(input);
        lemma_specificity_order_unique(input, output, tried_order(input));
    }
    sorted
}

} // verus!
