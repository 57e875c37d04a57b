//! What holds of reading text, whatever the text: white space is ignored,
//! written terms are read back, a missing term is reported, and a polynomial
//! has one list of roots.

use crate::decimal::{decimal_text, lemma_read_written};
use crate::parser::{
    cleaned, interpreted, is_missing, is_white_space, lemma_first_failure_stays, magnitude_of,
    parsed, power_of, sign_factor, term_of, terms_of, validated, value_of, Failure,
};
use crate::polynomial::{partial_sum, term_at, Polynomial, Term};
use crate::scanner::Capture;
use crate::solver::roots_of;
use vstd::prelude::*;

verus! {

/// Cleaning a text made of two parts cleans each part.
pub proof fn lemma_cleaned_parts(a: Seq<char>, b: Seq<char>)
    ensures
        cleaned(a + b) == cleaned(a) + cleaned(b),
    decreases b.len(),
{
    if b.len() == 0 {
        assert(a + b == a);
        assert(cleaned(a) + cleaned(b) == cleaned(a));
    } else {
        lemma_cleaned_parts(a, b.drop_last());
        assert((a + b).drop_last() == a + b.drop_last());
        assert((a + b).last() == b.last());
        if !is_white_space(b.last()) {
            assert(cleaned(a) + cleaned(b.drop_last()).push(b.last()) == (cleaned(a) + cleaned(
                b.drop_last(),
            )).push(b.last()));
        }
    }
}

/// White space changes nothing: a text with a white-space character put in at
/// any place stands for the same polynomial, or fails in the same way.
pub proof fn lemma_white_space_is_ignored(before: Seq<char>, space: char, after: Seq<char>)
    requires
        is_white_space(space),
    ensures
        cleaned(before + seq![space] + after) == cleaned(before + after),
        parsed(before + seq![space] + after) == parsed(before + after),
{
    let gap = seq![space];
    assert(gap.drop_last() == Seq::<char>::empty());
    assert(cleaned(gap.drop_last()) == Seq::<char>::empty());
    assert(cleaned(gap) == Seq::<char>::empty());
    lemma_cleaned_parts(before, gap);
    lemma_cleaned_parts(before + gap, after);
    lemma_cleaned_parts(before, after);
    assert(cleaned(before) + Seq::<char>::empty() == cleaned(before));
}

/// A blank, a tab or a line break put in at any place changes nothing.
pub proof fn lemma_blanks_are_ignored(before: Seq<char>, after: Seq<char>)
    ensures
        parsed(before + seq![' '] + after) == parsed(before + after),
        parsed(before + seq!['\t'] + after) == parsed(before + after),
        parsed(before + seq!['\n'] + after) == parsed(before + after),
        parsed(before + seq!['\r'] + after) == parsed(before + after),
{
    lemma_white_space_is_ignored(before, ' ', after);
    lemma_white_space_is_ignored(before, '\t', after);
    lemma_white_space_is_ignored(before, '\n', after);
    lemma_white_space_is_ignored(before, '\r', after);
}

/// A text of white space only holds nothing once it is cleaned.
pub proof fn lemma_blank_text_is_cleaned_away(input: Seq<char>)
    requires
        forall|i: int| 0 <= i < input.len() ==> is_white_space(#[trigger] input[i]),
    ensures
        cleaned(input) == Seq::<char>::empty(),
    decreases input.len(),
{
    if input.len() > 0 {
        lemma_blank_text_is_cleaned_away(input.drop_last());
    }
}

/// The empty text, and every text of white space only, is an empty polynomial.
pub proof fn lemma_blank_text_is_an_empty_polynomial(input: Seq<char>)
    requires
        forall|i: int| 0 <= i < input.len() ==> is_white_space(#[trigger] input[i]),
    ensures
        parsed(input) == Err::<Seq<Term>, Failure>(Failure::EmptyPolynomial),
{
    lemma_blank_text_is_cleaned_away(input);
}

/// Texts that are equal once cleaned stand for the same polynomial, or fail
/// in the same way.
pub proof fn lemma_only_cleaned_text_counts(a: Seq<char>, b: Seq<char>)
    requires
        cleaned(a) == cleaned(b),
    ensures
        parsed(a) == parsed(b),
{
}

/// A term as it is written: `-` in front of a negative coefficient, and in
/// front of any other `+`, or nothing where the term is `bare`; then the
/// coefficient's magnitude in decimal, the variable, a caret and the exponent
/// in decimal.
pub open spec fn written(term: Term, bare: bool) -> Capture {
    let magnitude = if term.value < 0 {
        (-term.value) as nat
    } else {
        term.value as nat
    };
    let coefficient = decimal_text(magnitude);
    let exponent = decimal_text(term.power as nat);
    Capture {
        sign: if term.value < 0 {
            Some(seq!['-'])
        } else if bare {
            None
        } else {
            Some(seq!['+'])
        },
        body: Some(coefficient + seq!['x', '^'] + exponent),
        coefficient: Some(coefficient),
        variable: Some(seq!['x']),
        exponent: Some(exponent),
    }
}

/// The captures of terms written one after the other: every term after the
/// first with its sign, and the first with a `+` only where `leading_plus`
/// says so.
pub open spec fn written_all(terms: Seq<Term>, leading_plus: bool) -> Seq<Capture> {
    Seq::new(terms.len(), |i: int| written(terms[i], i == 0 && !leading_plus))
}

/// A written term is read back as it was, unless its coefficient is the
/// least of `i32`, whose magnitude is no number of `i32`. Only the first
/// term may be bare.
pub proof fn lemma_written_term_is_read_back(term: Term, index: nat, bare: bool)
    requires
        term.value > i32::MIN,
        bare ==> index == 0,
    ensures
        term_of(index, written(term, bare)) == Ok::<Term, Failure>(term),
{
    let capture = written(term, bare);
    let magnitude = if term.value < 0 {
        (-term.value) as nat
    } else {
        term.value as nat
    };
    lemma_read_written(magnitude, i32::MAX as nat);
    lemma_read_written(term.power as nat, u32::MAX as nat);
    assert(capture.body->0.len() > 0);
    assert(magnitude_of(capture) == magnitude);
    assert(power_of(capture) == term.power);
    assert(seq!['+'][0] != seq!['-'][0]);
    assert(sign_factor(seq!['+']) == 1);
    assert(sign_factor(seq!['-']) == -1);
    assert(value_of(index, capture) == Ok::<int, Failure>(term.value as int));
}

/// A term that is written without a sign at any place but the first is an
/// invalid term, and its text is what is reported.
pub proof fn lemma_bare_term_is_invalid(term: Term, index: nat)
    requires
        term.value >= 0,
        index > 0,
    ensures
        term_of(index, written(term, true)) == Err::<Term, Failure>(
            Failure::InvalidTerm(written(term, true).body->0),
        ),
{
    lemma_read_written(term.value as nat, i32::MAX as nat);
    assert(written(term, true).body->0.len() > 0);
}

/// Terms written one after the other, each after the first with its sign and
/// the first with or without a `+`, are read back exactly and in order. Two
/// terms or more, or one that is no constant, make a polynomial of exactly
/// these terms.
pub proof fn lemma_written_terms_are_read_back(terms: Seq<Term>, leading_plus: bool)
    requires
        forall|i: int| 0 <= i < terms.len() ==> (#[trigger] terms[i]).value > i32::MIN,
    ensures
        terms_of(written_all(terms, leading_plus)) == Ok::<Seq<Term>, Failure>(terms),
        interpreted(written_all(terms, leading_plus)) == validated(Ok(terms)),
        terms.len() >= 2 || (terms.len() == 1 && terms[0].power != 0) ==> interpreted(
            written_all(terms, leading_plus),
        ) == Ok::<Seq<Term>, Failure>(terms),
    decreases terms.len(),
{
    if terms.len() == 0 {
        assert(terms == Seq::<Term>::empty());
    } else {
        let head = terms.drop_last();
        let last = terms.len() - 1;
        lemma_written_terms_are_read_back(head, leading_plus);
        assert(written_all(terms, leading_plus).drop_last() == written_all(head, leading_plus));
        lemma_written_term_is_read_back(terms.last(), last as nat, last == 0 && !leading_plus);
        assert(written_all(terms, leading_plus).last() == written(
            terms.last(),
            last == 0 && !leading_plus,
        ));
        assert(head.push(terms.last()) == terms);
    }
}

/// The terms of the captures before `k`, where each of them has a term.
proof fn lemma_terms_before(captures: Seq<Capture>, k: int)
    requires
        0 <= k <= captures.len(),
        forall|j: int| 0 <= j < k ==> term_of(j as nat, #[trigger] captures[j]) is Ok,
    ensures
        terms_of(captures.take(k)) is Ok,
    decreases k,
{
    if k > 0 {
        lemma_terms_before(captures, k - 1);
        assert(captures.take(k).drop_last() == captures.take(k - 1));
        assert(captures.take(k).last() == captures[k - 1]);
    }
}

/// The first capture that holds no term is reported as missing, with its
/// position, whatever stands behind it: so a sign at the end of a text, with
/// nothing behind it, is a missing term.
pub proof fn lemma_missing_term_is_reported(captures: Seq<Capture>, i: int)
    requires
        0 <= i < captures.len(),
        is_missing(captures[i]),
        forall|j: int| 0 <= j < i ==> term_of(j as nat, #[trigger] captures[j]) is Ok,
    ensures
        interpreted(captures) == Err::<Seq<Term>, Failure>(Failure::MissingTerm(i as nat)),
{
    lemma_terms_before(captures, i);
    let upto = captures.take(i + 1);
    assert(upto.drop_last() == captures.take(i));
    assert(upto.last() == captures[i]);
    assert(terms_of(upto) == Err::<Seq<Term>, Failure>(Failure::MissingTerm(i as nat)));
    lemma_first_failure_stays(captures, i + 1);
}

/// The sum of the first `k` terms rests on these terms alone.
proof fn lemma_sum_of_equal_prefixes(a: Seq<Term>, b: Seq<Term>, x: int, k: nat)
    requires
        k <= a.len(),
        k <= b.len(),
        forall|i: int| 0 <= i < k ==> a[i] == b[i],
    ensures
        partial_sum(a, x, k) == partial_sum(b, x, k),
    decreases k,
{
    if k > 0 {
        lemma_sum_of_equal_prefixes(a, b, x, (k - 1) as nat);
    }
}

/// Taking one term out takes its value out of the sum.
proof fn lemma_sum_without(terms: Seq<Term>, x: int, j: int)
    requires
        0 <= j < terms.len(),
    ensures
        partial_sum(terms, x, terms.len()) == partial_sum(
            terms.remove(j),
            x,
            (terms.len() - 1) as nat,
        ) + term_at(terms[j], x),
    decreases terms.len(),
{
    let n = terms.len();
    let head = terms.drop_last();
    lemma_sum_of_equal_prefixes(terms, head, x, (n - 1) as nat);
    if j == n - 1 {
        assert(terms.remove(j) == head);
    } else {
        let rest = terms.remove(j);
        lemma_sum_without(head, x, j);
        assert(rest[n - 2] == terms[n - 1]);
        lemma_sum_of_equal_prefixes(rest, head.remove(j), x, (n - 2) as nat);
    }
}

/// Lists that hold the same terms, each as often as the other, have one sum.
proof fn lemma_sum_ignores_order(a: Seq<Term>, b: Seq<Term>, x: int)
    requires
        a.to_multiset() == b.to_multiset(),
    ensures
        a.len() == b.len(),
        partial_sum(a, x, a.len()) == partial_sum(b, x, b.len()),
    decreases a.len(),
{
    a.to_multiset_ensures();
    b.to_multiset_ensures();
    if a.len() > 0 {
        let last = a.len() - 1;
        let t = a[last];
        assert(a.contains(t));
        assert(a.to_multiset().count(t) > 0);
        assert(b.to_multiset().count(t) > 0);
        assert(b.contains(t));
        let j = choose|j: int| 0 <= j < b.len() && b[j] == t;
        assert(a.remove(last).to_multiset() == b.remove(j).to_multiset());
        lemma_sum_ignores_order(a.remove(last), b.remove(j), x);
        lemma_sum_without(a, x, last);
        lemma_sum_without(b, x, j);
    }
}

/// A polynomial's value, and so whether a number is a root, does not rest on
/// the order of its terms.
pub proof fn lemma_value_ignores_order(a: &Polynomial, b: &Polynomial, x: int)
    requires
        a@.to_multiset() == b@.to_multiset(),
    ensures
        a.value_at(x) == b.value_at(x),
{
    lemma_sum_ignores_order(a@, b@, x);
}

/// Whether every entry is below the entries after it.
pub open spec fn ascending(s: Seq<i32>) -> bool {
    forall|i: int, j: int| 0 <= i < j < s.len() ==> s[i] < s[j]
}

/// Two ascending lists that hold the same numbers are one list.
pub proof fn lemma_ascending_lists_agree(a: Seq<i32>, b: Seq<i32>)
    requires
        ascending(a),
        ascending(b),
        forall|x: i32| a.contains(x) <==> b.contains(x),
    ensures
        a == b,
    decreases a.len(),
{
    if a.len() == 0 {
        if b.len() > 0 {
            assert(b.contains(b[0]));
            assert(a.contains(b[0]));
        }
        assert(a =~= b);
    } else {
        assert(a.contains(a[0]));
        assert(b.contains(a[0]));
        let top_a = a.last();
        let top_b = b.last();
        assert(a.contains(top_a));
        assert(b.contains(top_b));
        assert(b.contains(top_a));
        assert(a.contains(top_b));
        let ja = choose|j: int| 0 <= j < b.len() && b[j] == top_a;
        let jb = choose|j: int| 0 <= j < a.len() && a[j] == top_b;
        assert(top_a <= top_b) by {
            if ja < b.len() - 1 {
                assert(b[ja] < b[b.len() - 1]);
            }
        }
        assert(top_b <= top_a) by {
            if jb < a.len() - 1 {
                assert(a[jb] < a[a.len() - 1]);
            }
        }
        let rest_a = a.drop_last();
        let rest_b = b.drop_last();
        assert forall|x: i32| rest_a.contains(x) <==> rest_b.contains(x) by {
            if rest_a.contains(x) {
                let i = choose|i: int| 0 <= i < rest_a.len() && rest_a[i] == x;
                assert(a[i] == x);
                assert(a[i] < a[a.len() - 1]);
                assert(a.contains(x));
                assert(b.contains(x));
                let j = choose|j: int| 0 <= j < b.len() && b[j] == x;
                assert(j < b.len() - 1);
                assert(rest_b[j] == x);
            }
            if rest_b.contains(x) {
                let j = choose|j: int| 0 <= j < rest_b.len() && rest_b[j] == x;
                assert(b[j] == x);
                assert(b[j] < b[b.len() - 1]);
                assert(b.contains(x));
                assert(a.contains(x));
                let i = choose|i: int| 0 <= i < a.len() && a[i] == x;
                assert(i < a.len() - 1);
                assert(rest_a[i] == x);
            }
        }
        lemma_ascending_lists_agree(rest_a, rest_b);
        assert(a =~= rest_a.push(top_a));
        assert(b =~= rest_b.push(top_b));
    }
}

/// A polynomial has one list of roots and no other: what `solve` promises
/// of its result leaves nothing open.
pub proof fn lemma_roots_are_determined(polynomial: &Polynomial, a: Seq<i32>, b: Seq<i32>)
    requires
        roots_of(polynomial, a),
        roots_of(polynomial, b),
    ensures
        a == b,
{
    assert forall|x: i32| a.contains(x) <==> b.contains(x) by {
        if a.contains(x) {
            let i = choose|i: int| 0 <= i < a.len() && a[i] == x;
            assert(b.contains(x));
        }
        if b.contains(x) {
            let j = choose|j: int| 0 <= j < b.len() && b[j] == x;
            assert(a.contains(x));
        }
    }
    lemma_ascending_lists_agree(a, b);
}

/// A candidate at which the polynomial is zero is among the roots, the two
/// ends of the window included, and nothing outside the window is.
pub proof fn lemma_roots_fill_the_window(polynomial: &Polynomial, roots: Seq<i32>, x: i32)
    requires
        roots_of(polynomial, roots),
    ensures
        roots.contains(x) <==> -10 <= x <= 10 && polynomial.value_at(x as int) == 0,
{
    if roots.contains(x) {
        let i = choose|i: int| 0 <= i < roots.len() && roots[i] == x;
        assert(roots[i] == x);
    }
}

} // verus!
