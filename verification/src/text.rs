//! Text: white space, decimal numbers and comparison.

use vstd::prelude::*;

verus! {

broadcast use vstd::string::group_string_axioms;

/// Whether `c` has Unicode's `White_Space` property.
pub open spec fn white_space(c: char) -> bool {
    ||| 0x09 <= c as u32 <= 0x0D
    ||| c as u32 == 0x20
    ||| c as u32 == 0x85
    ||| c as u32 == 0xA0
    ||| c as u32 == 0x1680
    ||| 0x2000 <= c as u32 <= 0x200A
    ||| c as u32 == 0x2028
    ||| c as u32 == 0x2029
    ||| c as u32 == 0x202F
    ||| c as u32 == 0x205F
    ||| c as u32 == 0x3000
}

/// Whether `c` has Unicode's `White_Space` property.
pub fn is_white_space(c: char) -> (yes: bool)
    ensures
        yes == white_space(c),
{
    let code: u32 = c as u32;
    (0x09 <= code && code <= 0x0D) || code == 0x20 || code == 0x85 || code == 0xA0 || code == 0x1680
        || (0x2000 <= code && code <= 0x200A) || code == 0x2028 || code == 0x2029 || code == 0x202F
        || code == 0x205F || code == 0x3000
}

/// `text` without the white space that it begins with.
pub open spec fn trimmed_start(text: Seq<char>) -> Seq<char>
    decreases text.len(),
{
    if text.len() > 0 && white_space(text.first()) {
        trimmed_start(text.drop_first())
    } else {
        text
    }
}

/// `text` without the white space that it ends with.
pub open spec fn trimmed_end(text: Seq<char>) -> Seq<char>
    decreases text.len(),
{
    if text.len() > 0 && white_space(text.last()) {
        trimmed_end(text.drop_last())
    } else {
        text
    }
}

/// `text` without the white space at its two ends.
pub open spec fn trimmed(text: Seq<char>) -> Seq<char> {
    trimmed_end(trimmed_start(text))
}

/// Takes the white space off both ends of `text`.
pub fn trim(text: &str) -> (rest: &str)
    ensures
        rest@ == trimmed(text@),
{
    let len = text.unicode_len();
    let mut start: usize = 0;
    assert(text@.subrange(0, len as int) =~= text@);
    while start < len && is_white_space(text.get_char(start))
        invariant
            len == text@.len(),
            start <= len,
            trimmed_start(text@) == trimmed_start(text@.subrange(start as int, len as int)),
        decreases len - start,
    {
        assert(text@.subrange(start as int, len as int).drop_first() =~= text@.subrange(
            start + 1,
            len as int,
        ));
        start = start + 1;
    }
    let mut end: usize = len;
    while start < end && is_white_space(text.get_char(end - 1))
        invariant
            len == text@.len(),
            start <= end <= len,
            trimmed(text@) == trimmed_end(text@.subrange(start as int, end as int)),
        decreases end,
    {
        assert(text@.subrange(start as int, end as int).drop_last() =~= text@.subrange(
            start as int,
            end - 1,
        ));
        end = end - 1;
    }
    text.substring_char(start, end)
}

/// Trimmed text neither begins nor ends with white space.
pub proof fn law_trimmed_has_no_outer_white_space(text: Seq<char>)
    ensures
        trimmed(text).len() > 0 ==> !white_space(trimmed(text).first()) && !white_space(
            trimmed(text).last(),
        ),
{
    lemma_trimmed_start(text);
    lemma_trimmed_end(trimmed_start(text));
}

/// To trim twice is to trim once.
pub proof fn law_trim_is_idempotent(text: Seq<char>)
    ensures
        trimmed(trimmed(text)) == trimmed(text),
{
    law_trimmed_has_no_outer_white_space(text);
}

/// Whether `text` is made of white space.
pub open spec fn blank(text: Seq<char>) -> bool {
    forall|i: int| 0 <= i < text.len() ==> white_space(#[trigger] text[i])
}

/// Trimming takes white space away and nothing else: the text is its trimmed part
/// with white space around it, and what is left has none at its ends.
pub proof fn law_trim_takes_white_space_only(text: Seq<char>)
    ensures
        exists|before: Seq<char>, after: Seq<char>|
            {
                &&& forall|i: int| 0 <= i < before.len() ==> white_space(#[trigger] before[i])
                &&& forall|i: int| 0 <= i < after.len() ==> white_space(#[trigger] after[i])
                &&& text == #[trigger] (before + trimmed(text) + after)
            },
        trimmed(text).len() > 0 ==> !white_space(trimmed(text)[0]) && !white_space(
            trimmed(text)[trimmed(text).len() - 1],
        ),
{
    let before = lemma_before_trimmed(text);
    let after = lemma_after_trimmed(trimmed_start(text));
    assert(text =~= before + trimmed(text) + after);
    law_trimmed_has_no_outer_white_space(text);
}

proof fn lemma_before_trimmed(text: Seq<char>) -> (before: Seq<char>)
    ensures
        blank(before),
        text == before + trimmed_start(text),
    decreases text.len(),
{
    if text.len() > 0 && white_space(text.first()) {
        let rest = lemma_before_trimmed(text.drop_first());
        let before = seq![text.first()] + rest;
        assert(text =~= seq![text.first()] + text.drop_first());
        assert(before + trimmed_start(text) =~= seq![text.first()] + (rest + trimmed_start(
            text.drop_first(),
        )));
        before
    } else {
        assert(text =~= Seq::empty() + text);
        Seq::empty()
    }
}

proof fn lemma_after_trimmed(text: Seq<char>) -> (after: Seq<char>)
    ensures
        blank(after),
        text == trimmed_end(text) + after,
    decreases text.len(),
{
    if text.len() > 0 && white_space(text.last()) {
        let rest = lemma_after_trimmed(text.drop_last());
        let after = rest.push(text.last());
        assert(text =~= text.drop_last().push(text.last()));
        assert(trimmed_end(text) + after =~= (trimmed_end(text.drop_last()) + rest).push(
            text.last(),
        ));
        after
    } else {
        assert(text =~= text + Seq::empty());
        Seq::empty()
    }
}

/// White space around a text is trimmed away.
pub proof fn law_trim_drops_outer_white_space(
    before: Seq<char>,
    text: Seq<char>,
    after: Seq<char>,
)
    requires
        blank(before),
        blank(after),
    ensures
        trimmed(before + text + after) == trimmed(text),
{
    assert(before + text + after =~= before + (text + after));
    lemma_trimmed_start_drops(before, text + after);
    lemma_trimmed_start_keeps(text, after);
    lemma_trimmed_end_drops(trimmed_start(text), after);
}

proof fn lemma_trimmed_start_drops(before: Seq<char>, text: Seq<char>)
    requires
        blank(before),
    ensures
        trimmed_start(before + text) == trimmed_start(text),
    decreases before.len(),
{
    if before.len() == 0 {
        assert(before + text =~= text);
    } else {
        assert(white_space(before[0]));
        assert((before + text).drop_first() =~= before.drop_first() + text);
        lemma_trimmed_start_drops(before.drop_first(), text);
    }
}

proof fn lemma_trimmed_start_keeps(text: Seq<char>, after: Seq<char>)
    requires
        blank(after),
    ensures
        trimmed_start(text).len() > 0 ==> trimmed_start(text + after) == trimmed_start(text) + after,
        trimmed_start(text).len() == 0 ==> trimmed_start(text + after).len() == 0,
    decreases text.len(),
{
    if text.len() == 0 {
        assert(text + after =~= after + text);
        lemma_trimmed_start_drops(after, text);
    } else {
        assert((text + after).drop_first() =~= text.drop_first() + after);
        if white_space(text.first()) {
            lemma_trimmed_start_keeps(text.drop_first(), after);
        }
    }
}

proof fn lemma_trimmed_end_drops(text: Seq<char>, after: Seq<char>)
    requires
        blank(after),
    ensures
        trimmed_end(text + after) == trimmed_end(text),
    decreases after.len(),
{
    if after.len() == 0 {
        assert(text + after =~= text);
    } else {
        assert(white_space(after[after.len() - 1]));
        assert((text + after).drop_last() =~= text + after.drop_last());
        lemma_trimmed_end_drops(text, after.drop_last());
    }
}

proof fn lemma_trimmed_start(text: Seq<char>)
    ensures
        trimmed_start(text).len() > 0 ==> !white_space(trimmed_start(text).first()),
    decreases text.len(),
{
    if text.len() > 0 && white_space(text.first()) {
        lemma_trimmed_start(text.drop_first());
    }
}

proof fn lemma_trimmed_end(text: Seq<char>)
    ensures
        trimmed_end(text).len() > 0 ==> {
            &&& !white_space(trimmed_end(text).last())
            &&& trimmed_end(text).first() == text.first()
        },
    decreases text.len(),
{
    if text.len() > 0 && white_space(text.last()) {
        lemma_trimmed_end(text.drop_last());
    }
}

/// The decimal digit of a number below ten.
pub open spec fn digit(d: nat) -> char {
    ('0' as u32 + d) as char
}

/// The decimal numeral of `n`, without leading zeros.
pub open spec fn numeral(n: nat) -> Seq<char>
    decreases n,
{
    if n < 10 {
        seq![digit(n)]
    } else {
        numeral(n / 10).push(digit(n % 10))
    }
}

/// A numeral is made of digits.
pub proof fn law_numerals_are_digits(n: nat)
    ensures
        numeral(n).len() > 0,
        forall|i: int| 0 <= i < numeral(n).len() ==> '0' <= #[trigger] numeral(n)[i] <= '9',
    decreases n,
{
    if n >= 10 {
        law_numerals_are_digits(n / 10);
    }
}

/// The number that a row of decimal digits stands for.
pub open spec fn number_read(digits: Seq<char>) -> int
    decreases digits.len(),
{
    if digits.len() == 0 {
        0
    } else {
        10 * number_read(digits.drop_last()) + (digits.last() as int - '0' as int)
    }
}

/// A numeral reads back as its number, and has no leading zero unless it is the
/// numeral of zero.
pub proof fn law_numerals_read_back(n: nat)
    ensures
        number_read(numeral(n)) == n,
        n > 0 ==> numeral(n)[0] != '0',
        n == 0 ==> numeral(n) == seq!['0'],
    decreases n,
{
    law_numerals_are_digits(n);
    if n < 10 {
        assert(numeral(n).drop_last() =~= Seq::empty());
        assert(number_read(Seq::empty()) == 0);
        assert(numeral(n).last() == digit(n));
    } else {
        law_numerals_read_back(n / 10);
        law_numerals_are_digits(n / 10);
        assert(numeral(n).drop_last() =~= numeral(n / 10));
        assert(numeral(n).last() == digit(n % 10));
    }
}

/// Whether `text` is one line: it holds neither a line feed nor a carriage return.
pub open spec fn one_line(text: Seq<char>) -> bool {
    forall|i: int| 0 <= i < text.len() ==> #[trigger] text[i] != '\n' && text[i] != '\r'
}

fn digit_text(d: u64) -> (text: &'static str)
    requires
        d < 10,
    ensures
        text@ == seq![digit(d as nat)],
{
    proof {
        reveal_strlit("0");
        reveal_strlit("1");
        reveal_strlit("2");
        reveal_strlit("3");
        reveal_strlit("4");
        reveal_strlit("5");
        reveal_strlit("6");
        reveal_strlit("7");
        reveal_strlit("8");
        reveal_strlit("9");
    }
    if d == 0 {
        "0"
    } else if d == 1 {
        "1"
    } else if d == 2 {
        "2"
    } else if d == 3 {
        "3"
    } else if d == 4 {
        "4"
    } else if d == 5 {
        "5"
    } else if d == 6 {
        "6"
    } else if d == 7 {
        "7"
    } else if d == 8 {
        "8"
    } else {
        "9"
    }
}

/// Writes `n` in decimal.
pub fn decimal(n: u64) -> (text: String)
    ensures
        text@ == numeral(n as nat),
    decreases n,
{
    if n < 10 {
        digit_text(n).to_owned()
    } else {
        let mut text = decimal(n / 10);
        text.append(digit_text(n % 10));
        text
    }
}

/// Whether two texts are the same.
pub fn same(a: &str, b: &str) -> (yes: bool)
    ensures
        yes == (a@ == b@),
{
    a.to_owned() == b.to_owned()
}

/// The content of a text that may be absent.
pub open spec fn text_seen(text: Option<String>) -> Option<Seq<char>> {
    match text {
        Some(text) => Some(text@),
        None => None,
    }
}

/// What is seen of a text is the whole text, and an absent text is seen as absent.
pub proof fn law_texts_are_seen_whole(text: Option<String>, texts: Seq<String>)
    ensures
        text matches Some(inner) ==> text_seen(text) == Some(inner@),
        text is None ==> text_seen(text) is None,
        texts_seen(texts).len() == texts.len(),
        forall|i: int| 0 <= i < texts.len() ==> #[trigger] texts_seen(texts)[i] == texts[i]@,
{
}

/// The contents of several texts.
pub open spec fn texts_seen(texts: Seq<String>) -> Seq<Seq<char>> {
    texts.map_values(|text: String| text@)
}

} // verus!
