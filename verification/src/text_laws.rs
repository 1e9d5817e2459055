//! What the readers of texts accept: filters, filter paths, numbers and blank texts.

use vstd::prelude::*;

use crate::filter::filter_parts;
use crate::patch::members_filter_value;
use crate::text::{
    all_ascii, ascii_lowercase, decimal_text, is_blank_text, is_white_space, lemma_margin_len,
    lemma_margin_len_is, lemma_trimmed_end_is, lemma_word_len, lemma_word_len_is, margin_len,
    lowercase, lowered, same_ignoring_case, split_word, trimmed_end, trimmed_start, unquoted,
    word_len,
};

verus! {

/// A comparison of an attribute with a quoted value, with white space between its parts.
pub open spec fn comparison(
    attribute: Seq<char>,
    first: Seq<char>,
    operator: Seq<char>,
    second: Seq<char>,
    value: Seq<char>,
    last: Seq<char>,
) -> Seq<char> {
    attribute + first + operator + second + seq!['"'] + value + seq!['"'] + last
}

/// Whether a text holds nothing but white space.
pub open spec fn only_white(s: Seq<char>) -> bool {
    forall|i: int| 0 <= i < s.len() ==> is_white_space(#[trigger] s[i])
}

/// Whether a text is a word: it has no white space.
pub open spec fn is_word(s: Seq<char>) -> bool {
    forall|i: int| 0 <= i < s.len() ==> !is_white_space(#[trigger] s[i])
}

proof fn lemma_reads_comparison(
    attribute: Seq<char>,
    first: Seq<char>,
    operator: Seq<char>,
    second: Seq<char>,
    value: Seq<char>,
    last: Seq<char>,
)
    requires
        is_word(attribute),
        is_word(operator),
        operator.len() > 0,
        only_white(first) && first.len() > 0,
        only_white(second) && second.len() > 0,
        only_white(last),
    ensures
        split_word(comparison(attribute, first, operator, second, value, last)) matches Some(
            (word, rest),
        ) && word == attribute && (split_word(trimmed_start(rest)) matches Some((middle, after))
            && middle == operator && unquoted(trimmed_end(trimmed_start(after))) == Some(value)),
{
    let s = comparison(attribute, first, operator, second, value, last);
    let quoted = seq!['"'] + value + seq!['"'];
    let n = attribute.len() as int;
    assert forall|j: int| 0 <= j < n implies !is_white_space(#[trigger] s[j]) by {
        assert(s[j] == attribute[j]);
    }
    assert(s[n] == first[0]);
    lemma_word_len_is(s, n);
    assert(s.take(n) =~= attribute);
    let rest = s.skip(n + 1);
    let margin = first.len() - 1;
    let tail = operator + second + quoted + last;
    assert(rest =~= first.drop_first() + tail);
    assert forall|j: int| 0 <= j < margin implies is_white_space(#[trigger] rest[j]) by {
        assert(rest[j] == first[j + 1]);
    }
    assert(rest[margin] == operator[0]);
    lemma_margin_len_is(rest, margin);
    assert(trimmed_start(rest) =~= tail);
    let m = operator.len() as int;
    assert forall|j: int| 0 <= j < m implies !is_white_space(#[trigger] tail[j]) by {
        assert(tail[j] == operator[j]);
    }
    assert(tail[m] == second[0]);
    lemma_word_len_is(tail, m);
    assert(tail.take(m) =~= operator);
    let after = tail.skip(m + 1);
    let gap = second.len() - 1;
    assert(after =~= second.drop_first() + quoted + last);
    assert forall|j: int| 0 <= j < gap implies is_white_space(#[trigger] after[j]) by {
        assert(after[j] == second[j + 1]);
    }
    assert(after[gap] == '"');
    lemma_margin_len_is(after, gap);
    let end = trimmed_start(after);
    assert(end =~= quoted + last);
    assert forall|j: int| quoted.len() <= j < end.len() implies is_white_space(
        #[trigger] end[j],
    ) by {
        assert(end[j] == last[j - quoted.len()]);
    }
    assert(end[quoted.len() - 1] == '"');
    lemma_trimmed_end_is(end, quoted.len() as int);
    assert(end.take(quoted.len() as int) =~= quoted);
    assert(quoted.subrange(1, quoted.len() - 1) =~= value);
}

proof fn lemma_trailing_white(s: Seq<char>) -> (tail: Seq<char>)
    ensures
        s == trimmed_end(s) + tail,
        only_white(tail),
    decreases s.len(),
{
    if s.len() > 0 && is_white_space(s.last()) {
        let rest = s.drop_last();
        let inner = lemma_trailing_white(rest);
        let tail = inner.push(s.last());
        assert(s =~= rest.push(s.last()));
        assert(s =~= trimmed_end(s) + tail);
        tail
    } else {
        assert(s =~= trimmed_end(s) + Seq::empty());
        Seq::empty()
    }
}

// The white space between a word and what follows it.
proof fn lemma_gap(s: Seq<char>, word: Seq<char>, rest: Seq<char>) -> (gap: Seq<char>)
    requires
        split_word(s) == Some((word, rest)),
    ensures
        s == word + gap + trimmed_start(rest),
        only_white(gap) && gap.len() > 0,
        is_word(word),
{
    lemma_word_len(s);
    lemma_margin_len(rest);
    let n = word_len(s) as int;
    let m = margin_len(rest) as int;
    let gap = s.subrange(n, n + 1 + m);
    assert(s =~= word + gap + trimmed_start(rest));
    assert forall|i: int| 0 <= i < gap.len() implies is_white_space(#[trigger] gap[i]) by {
        if i > 0 {
            assert(gap[i] == rest[i - 1]);
        }
    }
    assert forall|i: int| 0 <= i < word.len() implies !is_white_space(#[trigger] word[i]) by {
        assert(word[i] == s[i]);
    }
    gap
}

/// The form of a filter: an attribute, the word eq in any casing, and a value in quotes, with
/// white space around them.
pub open spec fn is_filter(
    input: Seq<char>,
    attribute: Seq<char>,
    value: Seq<char>,
    lead: Seq<char>,
    first: Seq<char>,
    operator: Seq<char>,
    second: Seq<char>,
    last: Seq<char>,
) -> bool {
    &&& input == lead + comparison(attribute, first, operator, second, value, last)
    &&& is_word(attribute) && attribute.len() > 0
    &&& same_ignoring_case(operator, "eq"@)
    &&& !value.contains('"')
    &&& only_white(lead) && only_white(last)
    &&& only_white(first) && first.len() > 0
    &&& only_white(second) && second.len() > 0
}

proof fn lemma_operator_is_a_word(operator: Seq<char>)
    requires
        same_ignoring_case(operator, "eq"@),
    ensures
        is_word(operator),
        operator.len() == 2,
{
    reveal_strlit("eq");
    assert(ascii_lowercase(operator).len() == operator.len());
    assert(ascii_lowercase("eq"@).len() == 2);
    assert forall|i: int| 0 <= i < operator.len() implies !is_white_space(
        #[trigger] operator[i],
    ) by {
        assert(ascii_lowercase(operator)[i] == ascii_lowercase("eq"@)[i]);
    }
}

/// Every text of the form of a filter is read as that filter.
pub proof fn law_filters_are_read(
    input: Seq<char>,
    attribute: Seq<char>,
    value: Seq<char>,
    lead: Seq<char>,
    first: Seq<char>,
    operator: Seq<char>,
    second: Seq<char>,
    last: Seq<char>,
)
    requires
        is_filter(input, attribute, value, lead, first, operator, second, last),
    ensures
        filter_parts(input) == Some((attribute, value)),
{
    lemma_operator_is_a_word(operator);
    let s = comparison(attribute, first, operator, second, value, last);
    assert forall|j: int| 0 <= j < lead.len() implies is_white_space(#[trigger] input[j]) by {
        assert(input[j] == lead[j]);
    }
    assert(input[lead.len() as int] == attribute[0]);
    lemma_margin_len_is(input, lead.len() as int);
    assert(trimmed_start(input) =~= s);
    lemma_reads_comparison(attribute, first, operator, second, value, last);
}

/// Nothing but a text of the form of a filter is read as one.
pub proof fn law_only_filters_are_read(input: Seq<char>, attribute: Seq<char>, value: Seq<char>)
    requires
        filter_parts(input) == Some((attribute, value)),
    ensures
        exists|
            lead: Seq<char>,
            first: Seq<char>,
            operator: Seq<char>,
            second: Seq<char>,
            last: Seq<char>,
        | #[trigger]
            is_filter(input, attribute, value, lead, first, operator, second, last),
{
    lemma_margin_len(input);
    let lead = input.take(margin_len(input) as int);
    let s = trimmed_start(input);
    let (word, rest) = split_word(s)->Some_0;
    let tail = trimmed_start(rest);
    let (operator, after) = split_word(tail)->Some_0;
    let end = trimmed_start(after);
    let first = lemma_gap(s, word, rest);
    let second = lemma_gap(tail, operator, after);
    let last = lemma_trailing_white(end);
    let quoted = trimmed_end(end);
    assert(quoted =~= seq!['"'] + value + seq!['"']);
    assert(input =~= lead + s);
    assert(s =~= comparison(attribute, first, operator, second, value, last));
    assert forall|i: int| 0 <= i < lead.len() implies is_white_space(#[trigger] lead[i]) by {
        assert(lead[i] == input[i]);
    }
    assert(is_filter(input, attribute, value, lead, first, operator, second, last));
}

/// The form of a filter path: members in any casing, and in brackets a comparison of value
/// with an id in quotes.
pub open spec fn is_filter_path(
    path: Seq<char>,
    id: Seq<char>,
    members: Seq<char>,
    attribute: Seq<char>,
    first: Seq<char>,
    operator: Seq<char>,
    second: Seq<char>,
    last: Seq<char>,
) -> bool {
    &&& path == members + comparison(attribute, first, operator, second, id, last) + seq![']']
    &&& same_ignoring_case(members, "members["@)
    &&& same_ignoring_case(attribute, "value"@)
    &&& same_ignoring_case(operator, "eq"@)
    &&& id.len() > 0 && !id.contains('"')
    &&& only_white(first) && first.len() > 0
    &&& only_white(second) && second.len() > 0
    &&& only_white(last)
}

/// Every path of the form of a filter path names the id in it.
pub proof fn law_filter_paths_are_read(
    path: Seq<char>,
    id: Seq<char>,
    members: Seq<char>,
    attribute: Seq<char>,
    first: Seq<char>,
    operator: Seq<char>,
    second: Seq<char>,
    last: Seq<char>,
)
    requires
        is_filter_path(path, id, members, attribute, first, operator, second, last),
    ensures
        members_filter_value(path) == Some(id),
{
    reveal_strlit("members[");
    reveal_strlit("value");
    lemma_operator_is_a_word(operator);
    assert(ascii_lowercase(members).len() == members.len());
    assert(ascii_lowercase("members["@).len() == 8);
    assert(ascii_lowercase(attribute).len() == attribute.len());
    assert(ascii_lowercase("value"@).len() == 5);
    assert forall|i: int| 0 <= i < attribute.len() implies !is_white_space(
        #[trigger] attribute[i],
    ) by {
        assert(ascii_lowercase(attribute)[i] == ascii_lowercase("value"@)[i]);
    }
    assert(path.take(8) =~= members);
    assert(path.subrange(8, path.len() - 1) =~= comparison(
        attribute,
        first,
        operator,
        second,
        id,
        last,
    ));
    lemma_reads_comparison(attribute, first, operator, second, id, last);
}

/// Nothing but a path of the form of a filter path names an id.
pub proof fn law_only_filter_paths_are_read(path: Seq<char>, id: Seq<char>)
    requires
        members_filter_value(path) == Some(id),
    ensures
        exists|
            members: Seq<char>,
            attribute: Seq<char>,
            first: Seq<char>,
            operator: Seq<char>,
            second: Seq<char>,
            last: Seq<char>,
        | #[trigger]
            is_filter_path(path, id, members, attribute, first, operator, second, last),
{
    reveal_strlit("members[");
    let members = path.take(8);
    let s = path.subrange(8, path.len() - 1);
    let (attribute, rest) = split_word(s)->Some_0;
    let tail = trimmed_start(rest);
    let (operator, after) = split_word(tail)->Some_0;
    let end = trimmed_start(after);
    let first = lemma_gap(s, attribute, rest);
    let second = lemma_gap(tail, operator, after);
    let last = lemma_trailing_white(end);
    let quoted = trimmed_end(end);
    assert(quoted =~= seq!['"'] + id + seq!['"']);
    assert(s =~= comparison(attribute, first, operator, second, id, last));
    assert(path =~= members + s + seq![']']);
    assert(is_filter_path(path, id, members, attribute, first, operator, second, last));
}

/// The number that a text of digits stands for.
pub open spec fn number(digits: Seq<char>) -> int
    decreases digits.len(),
{
    if digits.len() == 0 {
        0
    } else {
        10 * number(digits.drop_last()) + (digits.last() as int - '0' as int)
    }
}

/// A number is written in digits alone, without a leading zero, and reads back as itself.
pub proof fn law_decimals_read_back(n: nat)
    ensures
        number(decimal_text(n)) == n,
        decimal_text(n).len() > 0,
        n > 0 ==> decimal_text(n)[0] != '0',
        n == 0 ==> decimal_text(n) == seq!['0'],
        forall|i: int| 0 <= i < decimal_text(n).len() ==> '0' <= #[trigger] decimal_text(n)[i] <= '9',
    decreases n,
{
    reveal_with_fuel(number, 2);
    if n >= 10 {
        law_decimals_read_back(n / 10);
        let head = decimal_text(n / 10);
        assert(decimal_text(n).drop_last() =~= head);
        assert(decimal_text(n)[0] == head[0]);
    } else {
        assert(decimal_text(n).drop_last() =~= Seq::<char>::empty());
    }
}

/// A text is blank exactly where no character in it is anything but white space: an empty one
/// is, and one with a letter, a digit or a sign is not.
pub proof fn law_blank_texts(s: Seq<char>)
    ensures
        is_blank_text(s) <==> only_white(s),
        s.len() == 0 ==> is_blank_text(s),
        forall|i: int|
            0 <= i < s.len() && '!' <= #[trigger] s[i] <= '~' ==> !is_blank_text(s),
        is_white_space(' ') && is_white_space('\t') && is_white_space('\n') && is_white_space('\r'),
{
}

/// White space is what Unicode takes for it: the controls from tab to carriage return, the
/// space, the next line, the no-break space, and the spaces and separators further up.
pub proof fn law_white_space(c: char)
    ensures
        is_white_space(c) <==> {
            ||| c == '\u{9}' || c == '\u{a}' || c == '\u{b}' || c == '\u{c}' || c == '\u{d}'
            ||| c == '\u{20}' || c == '\u{85}' || c == '\u{a0}' || c == '\u{1680}'
            ||| c == '\u{2000}' || c == '\u{2001}' || c == '\u{2002}' || c == '\u{2003}'
            ||| c == '\u{2004}' || c == '\u{2005}' || c == '\u{2006}' || c == '\u{2007}'
            ||| c == '\u{2008}' || c == '\u{2009}' || c == '\u{200a}'
            ||| c == '\u{2028}' || c == '\u{2029}' || c == '\u{202f}' || c == '\u{205f}'
            ||| c == '\u{3000}'
        },
{
}

/// A text is put in lower case letter by letter where it is ASCII, and as Unicode has it
/// otherwise.
pub proof fn law_lower_case(s: Seq<char>)
    ensures
        all_ascii(s) ==> lowered(s).len() == s.len() && forall|i: int|
            0 <= i < s.len() ==> #[trigger] lowered(s)[i] == (if 'A' <= s[i] <= 'Z' {
                (s[i] as int + 32) as char
            } else {
                s[i]
            }),
        !all_ascii(s) ==> lowered(s) == lowercase(s),
{
}

} // verus!
