//! The one filter form that list requests support: `attribute eq "value"`.

use vstd::prelude::*;
use vstd::string::*;

use crate::error::{ScimError, ScimErrorView};
use crate::text::{
    contains_quote, eq_ignore_ascii_case, is_white_space, lemma_margin_len_is,
    lemma_trimmed_end_is, lemma_word_len_is, lowered, same_ignoring_case, split_once_whitespace,
    split_word, to_lowercase, trim_end, trim_start, trimmed_end, trimmed_start, unquote,
    unquoted,
};

verus! {

/// An equality filter. The attribute is in lower case.
#[derive(Debug, PartialEq)]
pub struct EqFilter {
    pub attribute: String,
    pub value: String,
}

/// The mathematical counterpart of [`EqFilter`].
#[verifier::ext_equal]
pub ghost struct EqFilterView {
    pub attribute: Seq<char>,
    pub value: Seq<char>,
}

impl View for EqFilter {
    type V = EqFilterView;

    open spec fn view(&self) -> EqFilterView {
        EqFilterView { attribute: self.attribute@, value: self.value@ }
    }
}

/// The attribute, as it was written, and the value of a filter of the supported
/// form. A quote inside the value is not supported: what follows it would be
/// read as part of the value.
pub open spec fn filter_parts(input: Seq<char>) -> Option<(Seq<char>, Seq<char>)> {
    match split_word(trimmed_start(input)) {
        Some((attribute, rest)) => match split_word(trimmed_start(rest)) {
            Some((operator, rest)) => match unquoted(trimmed_end(trimmed_start(rest))) {
                Some(value) => if attribute.len() > 0 && same_ignoring_case(operator, "eq"@)
                    && !value.contains('"') {
                    Some((attribute, value))
                } else {
                    None
                },
                None => None,
            },
            None => None,
        },
        None => None,
    }
}

/// The error of a filter that is not of the supported form.
pub open spec fn unsupported_filter() -> ScimErrorView {
    ScimErrorView::bad_request(
        "invalidFilter"@,
        "Only filters of the form: attribute eq \"value\" are supported"@,
    )
}

/// What a filter asks for.
pub open spec fn eq_filter(input: Seq<char>) -> Result<EqFilterView, ScimErrorView> {
    match filter_parts(input) {
        Some((attribute, value)) => Ok(EqFilterView { attribute: lowered(attribute), value }),
        None => Err(unsupported_filter()),
    }
}

/// Cuts a filter of the supported form into its attribute, as it was written, and
/// its value.
pub fn split_filter<'a>(input: &'a str) -> (r: Option<(&'a str, &'a str)>)
    ensures
        match r {
            Some((attribute, value)) => filter_parts(input@) == Some((attribute@, value@)),
            None => filter_parts(input@) is None,
        },
{
    let Some((attribute, rest)) = split_once_whitespace(trim_start(input)) else {
        return None;
    };
    let Some((operator, rest)) = split_once_whitespace(trim_start(rest)) else {
        return None;
    };
    let Some(value) = unquote(trim_end(trim_start(rest))) else {
        return None;
    };
    if attribute.is_empty() || !eq_ignore_ascii_case(operator, "eq") || contains_quote(value) {
        return None;
    }
    Some((attribute, value))
}

/// Reads a filter. Anything that is not of the supported form is refused, never
/// guessed at.
pub fn parse_eq_filter(input: &str) -> (r: Result<EqFilter, ScimError>)
    ensures
        match r {
            Ok(filter) => eq_filter(input@) == Ok::<EqFilterView, ScimErrorView>(filter@),
            Err(e) => eq_filter(input@) == Err::<EqFilterView, ScimErrorView>(e@),
        },
{
    match split_filter(input) {
        Some((attribute, value)) => Ok(
            EqFilter { attribute: to_lowercase(attribute), value: value.to_owned() },
        ),
        None => Err(
            ScimError::bad_request(
                "invalidFilter",
                "Only filters of the form: attribute eq \"value\" are supported",
            ),
        ),
    }
}

/// The text of an equality filter.
pub open spec fn filter_text(attribute: Seq<char>, value: Seq<char>) -> Seq<char> {
    attribute + " eq \""@ + value + "\""@
}

/// A filter is read as it was meant: every attribute name, and every value
/// without a quote, comes back out of the filter's text.
pub proof fn law_filter_round_trip(attribute: Seq<char>, value: Seq<char>)
    requires
        attribute.len() > 0,
        forall|i: int| 0 <= i < attribute.len() ==> !is_white_space(#[trigger] attribute[i]),
        !value.contains('"'),
    ensures
        filter_parts(filter_text(attribute, value)) == Some((attribute, value)),
{
    reveal_strlit(" eq \"");
    reveal_strlit("\"");
    reveal_strlit("eq");
    let n = attribute.len() as int;
    let input = filter_text(attribute, value);
    assert(input =~= attribute + seq![' ', 'e', 'q', ' ', '"'] + value + seq!['"']);
    assert(input[0] == attribute[0]);
    lemma_margin_len_is(input, 0);
    assert(trimmed_start(input) =~= input);
    assert forall|j: int| 0 <= j < n implies !is_white_space(#[trigger] input[j]) by {
        assert(input[j] == attribute[j]);
    }
    assert(input[n] == ' ');
    lemma_word_len_is(input, n);
    assert(input.take(n) =~= attribute);
    let rest = input.skip(n + 1);
    assert(rest =~= seq!['e', 'q', ' ', '"'] + value + seq!['"']);
    lemma_margin_len_is(rest, 0);
    assert(trimmed_start(rest) =~= rest);
    lemma_word_len_is(rest, 2);
    assert(rest.take(2) =~= "eq"@);
    let quoted = rest.skip(3);
    assert(quoted =~= seq!['"'] + value + seq!['"']);
    lemma_margin_len_is(quoted, 0);
    assert(trimmed_start(quoted) =~= quoted);
    lemma_trimmed_end_is(quoted, quoted.len() as int);
    assert(quoted.take(quoted.len() as int) =~= quoted);
    assert(quoted.subrange(1, quoted.len() - 1) =~= value);
}

} // verus!
