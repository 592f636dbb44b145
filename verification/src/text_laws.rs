//! What the operations on text do, character by character.

use vstd::prelude::*;

use crate::text::{
    chars_of, decimal, decimal_digits, eq_ignore_ascii_case, is_before, is_space, is_whitespace,
    join2, join3, lower, lower_char, same_text, string_of, strip_prefix, strip_suffix, text_less,
    to_ascii_lowercase, to_lower_char, trim, trim_end_char, trim_end_matches, trim_end_of,
    trim_start_of, trimmed,
};

verus! {

/// Whether a character is white space: a tab, a line break of some kind, or a space
/// of some width.
pub open spec fn is_blank(c: char) -> bool {
    let code = c as u32;
    ||| code == 9 || code == 10 || code == 11 || code == 12 || code == 13
    ||| code == 32
    ||| code == 133
    ||| code == 160
    ||| code == 5760
    ||| 8192 <= code <= 8202
    ||| code == 8232 || code == 8233
    ||| code == 8239
    ||| code == 8287
    ||| code == 12288
}

/// White space is recognised.
pub proof fn white_space_is_recognised(c: char, res: bool)
    requires
        call_ensures(is_whitespace, (c,), res),
    ensures
        res == is_blank(c),
{
}

/// Whether a part of a text is what lies between the white space at its ends.
pub open spec fn lies_between_blanks(text: Seq<char>, from: int, to: int) -> bool {
    &&& 0 <= from <= to <= text.len()
    &&& forall|i: int| 0 <= i < from ==> is_blank(#[trigger] text[i])
    &&& forall|i: int| to <= i < text.len() ==> is_blank(#[trigger] text[i])
    &&& from < to ==> !is_blank(text[from]) && !is_blank(text[to - 1])
}

/// A trimmed text is what lies between the white space at its ends.
pub proof fn trimming_takes_the_ends(text: &str, res: &str)
    requires
        call_ensures(trim, (text,), res),
    ensures
        exists|from: int, to: int| #[trigger]
            lies_between_blanks(text@, from, to) && res@ == text@.subrange(from, to),
{
    lemma_trimmed(text@);
}

proof fn lemma_trimmed(text: Seq<char>)
    ensures
        exists|from: int, to: int| #[trigger]
            lies_between_blanks(text, from, to) && trimmed(text) == text.subrange(from, to),
{
    let from = lemma_start(text);
    let rest = trim_start_of(text);
    let n = lemma_end(rest);
    let to = from + n;
    assert forall|i: int| to <= i < text.len() implies is_blank(#[trigger] text[i]) by {
        assert(rest[i - from] == text[i]);
    }
    if n > 0 {
        assert(rest[0] == text[from]);
        assert(rest[n - 1] == text[to - 1]);
    }
    assert(trimmed(text) =~= text.subrange(from, to));
    assert(lies_between_blanks(text, from, to));
}

proof fn lemma_start(text: Seq<char>) -> (from: int)
    ensures
        0 <= from <= text.len(),
        trim_start_of(text) == text.subrange(from, text.len() as int),
        forall|i: int| 0 <= i < from ==> is_blank(#[trigger] text[i]),
        from < text.len() ==> !is_blank(text[from]),
    decreases text.len(),
{
    if text.len() > 0 && is_space(text[0]) {
        let rest = text.subrange(1, text.len() as int);
        let n = lemma_start(rest);
        assert(rest.subrange(n, rest.len() as int) =~= text.subrange(n + 1, text.len() as int));
        assert forall|i: int| 0 <= i < n + 1 implies is_blank(#[trigger] text[i]) by {
            if i > 0 {
                assert(rest[i - 1] == text[i]);
            }
        }
        if n + 1 < text.len() {
            assert(rest[n] == text[n + 1]);
        }
        n + 1
    } else {
        assert(text.subrange(0, text.len() as int) =~= text);
        0
    }
}

proof fn lemma_end(text: Seq<char>) -> (to: int)
    ensures
        0 <= to <= text.len(),
        trim_end_of(text) == text.subrange(0, to),
        forall|i: int| to <= i < text.len() ==> is_blank(#[trigger] text[i]),
        to > 0 ==> !is_blank(text[to - 1]),
    decreases text.len(),
{
    if text.len() > 0 && is_space(text.last()) {
        let rest = text.drop_last();
        let n = lemma_end(rest);
        assert(rest.subrange(0, n) =~= text.subrange(0, n));
        assert forall|i: int| n <= i < text.len() implies is_blank(#[trigger] text[i]) by {
            if i < rest.len() {
                assert(rest[i] == text[i]);
            }
        }
        n
    } else {
        assert(text.subrange(0, text.len() as int) =~= text);
        text.len() as int
    }
}

/// Whether a part of a text is what precedes the run of a character at its end.
pub open spec fn precedes_run(text: Seq<char>, part: Seq<char>, c: char) -> bool {
    &&& part.len() <= text.len()
    &&& part == text.subrange(0, part.len() as int)
    &&& forall|i: int| part.len() <= i < text.len() ==> #[trigger] text[i] == c
    &&& part.len() > 0 ==> part.last() != c
}

/// A text loses the run of a character at its end, and nothing else.
pub proof fn runs_at_the_end_are_taken(text: &str, c: char, res: &str)
    requires
        call_ensures(trim_end_matches, (text, c), res),
    ensures
        precedes_run(text@, res@, c),
{
    lemma_precedes_run(text@, c);
}

/// What is left of a text without a run at its end precedes that run.
pub proof fn lemma_precedes_run(text: Seq<char>, c: char)
    ensures
        precedes_run(text, trim_end_char(text, c), c),
    decreases text.len(),
{
    let part = trim_end_char(text, c);
    if text.len() > 0 && text.last() == c {
        let rest = text.drop_last();
        lemma_precedes_run(rest, c);
        assert(rest.subrange(0, part.len() as int) =~= text.subrange(0, part.len() as int));
        assert forall|i: int| part.len() <= i < text.len() implies #[trigger] text[i] == c by {
            if i < rest.len() {
                assert(rest[i] == text[i]);
            }
        }
    } else {
        assert(text.subrange(0, text.len() as int) =~= text);
    }
}

/// Whether a character is the lower-case form of another: 32 further on for a
/// capital letter from A to Z, and the same for any other.
pub open spec fn is_lower_of(low: char, c: char) -> bool {
    if 65 <= c as u32 <= 90 {
        low as u32 == c as u32 + 32
    } else {
        low == c
    }
}

/// A text in lower case has the lower-case form of each of its characters.
pub proof fn letters_become_lower_case(text: &str, c: char, low: char, res: String)
    requires
        call_ensures(to_ascii_lowercase, (text,), res),
        call_ensures(to_lower_char, (c,), low),
    ensures
        is_lower_of(low, c),
        res@.len() == text@.len(),
        forall|i: int| 0 <= i < text@.len() ==> is_lower_of(#[trigger] res@[i], text@[i]),
{
}

/// Whether two characters are the same but for the case of a letter from A to Z.
pub open spec fn same_but_for_case(a: char, b: char) -> bool {
    ||| a == b
    ||| 65 <= a as u32 <= 90 && b as u32 == a as u32 + 32
    ||| 65 <= b as u32 <= 90 && a as u32 == b as u32 + 32
}

proof fn lemma_case(a: char, b: char)
    ensures
        lower_char(a) == lower_char(b) <==> same_but_for_case(a, b),
{
    let x = lower_char(a);
    let y = lower_char(b);
    assert(is_lower_of(x, a) && is_lower_of(y, b));
    if x as u32 == y as u32 {
        assert(x == y);
    }
}

/// Texts are compared character by character, with and without regard to case.
pub proof fn texts_are_compared_by_their_characters(
    a: &str,
    b: &str,
    exactly: bool,
    loosely: bool,
)
    requires
        call_ensures(same_text, (a, b), exactly),
        call_ensures(eq_ignore_ascii_case, (a, b), loosely),
    ensures
        exactly <==> a@ == b@,
        loosely <==> a@.len() == b@.len() && forall|i: int|
            0 <= i < a@.len() ==> same_but_for_case(#[trigger] a@[i], b@[i]),
{
    let s = lower(a@);
    let t = lower(b@);
    if s == t {
        assert(s.len() == a@.len() && t.len() == b@.len());
        assert forall|i: int| 0 <= i < a@.len() implies same_but_for_case(
            #[trigger] a@[i],
            b@[i],
        ) by {
            assert(s[i] == lower_char(a@[i]) && t[i] == lower_char(b@[i]));
            lemma_case(a@[i], b@[i]);
        }
    }
    if a@.len() == b@.len() && (forall|i: int|
        0 <= i < a@.len() ==> same_but_for_case(#[trigger] a@[i], b@[i])) {
        assert forall|i: int| 0 <= i < s.len() implies s[i] == t[i] by {
            assert(same_but_for_case(a@[i], b@[i]));
            lemma_case(a@[i], b@[i]);
        }
        assert(s =~= t);
    }
}

/// A prefix is followed by the rest of the text, and a suffix preceded by it.
pub proof fn affixes_leave_the_rest(
    text: &str,
    affix: &str,
    behind: Option<&str>,
    before: Option<&str>,
)
    requires
        call_ensures(strip_prefix, (text, affix), behind),
        call_ensures(strip_suffix, (text, affix), before),
    ensures
        match behind {
            Some(rest) => text@ == affix@ + rest@,
            None => forall|rest: Seq<char>| text@ != #[trigger] (affix@ + rest),
        },
        match before {
            Some(rest) => text@ == rest@ + affix@,
            None => forall|rest: Seq<char>| text@ != #[trigger] (rest + affix@),
        },
{
    match behind {
        Some(rest) => {
            assert(text@ =~= text@.subrange(0, affix@.len() as int) + rest@);
        },
        None => {
            assert forall|rest: Seq<char>| text@ != #[trigger] (affix@ + rest) by {
                assert((affix@ + rest).subrange(0, affix@.len() as int) =~= affix@);
            }
        },
    }
    match before {
        Some(rest) => {
            assert(text@ =~= rest@ + text@.subrange(
                text@.len() - affix@.len(),
                text@.len() as int,
            ));
        },
        None => {
            assert forall|rest: Seq<char>| text@ != #[trigger] (rest + affix@) by {
                let whole = rest + affix@;
                assert(whole.subrange(whole.len() - affix@.len(), whole.len() as int) =~= affix@);
            }
        },
    }
}

/// Joined texts stand one behind the other, and characters keep their order.
pub proof fn joined_texts_stand_in_order(
    a: &str,
    b: &str,
    c: &str,
    two: String,
    three: String,
    chars: Vec<char>,
    text: String,
)
    requires
        call_ensures(join2, (a, b), two),
        call_ensures(join3, (a, b, c), three),
        call_ensures(chars_of, (a,), chars),
        call_ensures(string_of, (&chars,), text),
    ensures
        two@ == a@ + b@,
        three@ == a@ + b@ + c@,
        chars@ == a@,
        text@ == a@,
{
}

/// Whether two texts first differ at a position, where the first one ends or has
/// the lesser character.
pub open spec fn is_less_at(a: Seq<char>, b: Seq<char>, n: int) -> bool {
    &&& 0 <= n <= a.len()
    &&& n < b.len()
    &&& forall|i: int| 0 <= i < n ==> a[i] == b[i]
    &&& n < a.len() ==> a[n] < b[n]
}

/// One text comes before another where they first differ.
pub proof fn texts_are_ordered_where_they_differ(a: &str, b: &str, res: bool)
    requires
        call_ensures(is_before, (a, b), res),
    ensures
        res <==> exists|n: int| #[trigger] is_less_at(a@, b@, n),
{
    lemma_less(a@, b@);
}

proof fn lemma_less(a: Seq<char>, b: Seq<char>)
    ensures
        text_less(a, b) <==> exists|n: int| #[trigger] is_less_at(a, b, n),
    decreases a.len(),
{
    if b.len() > 0 && a.len() > 0 && a[0] == b[0] {
        let ta = a.skip(1);
        let tb = b.skip(1);
        lemma_less(ta, tb);
        if text_less(a, b) {
            let n = choose|n: int| #[trigger] is_less_at(ta, tb, n);
            assert forall|i: int| 0 <= i < n + 1 implies a[i] == b[i] by {
                if i > 0 {
                    assert(ta[i - 1] == tb[i - 1]);
                }
            }
            assert(is_less_at(a, b, n + 1));
        }
        if exists|n: int| #[trigger] is_less_at(a, b, n) {
            let n = choose|n: int| #[trigger] is_less_at(a, b, n);
            assert forall|i: int| 0 <= i < n - 1 implies ta[i] == tb[i] by {
                assert(a[i + 1] == b[i + 1]);
            }
            assert(is_less_at(ta, tb, n - 1));
        }
    } else if b.len() > 0 {
        if text_less(a, b) {
            assert(is_less_at(a, b, 0));
        }
    }
}

/// The number that decimal digits stand for.
pub open spec fn value_of(digits: Seq<char>) -> int
    decreases digits.len(),
{
    if digits.len() == 0 {
        0
    } else {
        10 * value_of(digits.drop_last()) + (digits.last() as u32 - 48)
    }
}

/// Whether a text is made of decimal digits, without a zero in front of others.
pub open spec fn is_decimal(digits: Seq<char>) -> bool {
    &&& digits.len() > 0
    &&& forall|i: int| 0 <= i < digits.len() ==> 48 <= #[trigger] digits[i] as u32 <= 57
    &&& digits.len() > 1 ==> digits[0] as u32 != 48
}

/// A number in decimal digits has its own value.
pub proof fn decimal_digits_have_the_value(n: u64, res: String)
    requires
        call_ensures(decimal, (n,), res),
    ensures
        is_decimal(res@),
        value_of(res@) == n,
{
    lemma_decimal(n as nat);
}

/// The digits of a number are decimal and have its value.
pub proof fn lemma_decimal(n: nat)
    ensures
        is_decimal(decimal_digits(n)),
        value_of(decimal_digits(n)) == n,
        n > 0 ==> decimal_digits(n)[0] as u32 != 48,
    decreases n,
{
    let digits = decimal_digits(n);
    if n < 10 {
        assert(digits.drop_last() =~= Seq::empty());
        assert(value_of(digits.drop_last()) == 0);
    } else {
        lemma_decimal(n / 10);
        assert(digits.drop_last() =~= decimal_digits(n / 10));
        assert forall|i: int| 0 <= i < digits.len() implies 48 <= #[trigger] digits[i] as u32
            <= 57 by {
            if i < digits.len() - 1 {
                assert(digits[i] == decimal_digits(n / 10)[i]);
            }
        }
    }
}

} // verus!
