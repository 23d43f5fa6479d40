//! Characters and strings as sequences: character classes, conversion
//! between strings and character vectors, lines and words, and decimal
//! numbers.
use vstd::prelude::*;
use vstd::std_specs::iter::IteratorSpec;

verus! {

/// `String::push` appends one character to the string.
pub assume_specification[ String::push ](s: &mut String, ch: char)
    ensures
        final(s)@ == old(s)@.push(ch),
;

/// One of the ten decimal digits.
pub open spec fn spec_is_ascii_digit(c: char) -> bool {
    '0' <= c <= '9'
}

/// A decimal digit or an ASCII letter.
pub open spec fn spec_is_ascii_alphanumeric(c: char) -> bool {
    ||| '0' <= c <= '9'
    ||| 'a' <= c <= 'z'
    ||| 'A' <= c <= 'Z'
}

/// A character with the Unicode property `White_Space`.
pub open spec fn spec_is_whitespace(c: char) -> bool {
    ||| '\u{9}' <= c <= '\u{d}'
    ||| c == ' '
    ||| c == '\u{85}'
    ||| c == '\u{a0}'
    ||| c == '\u{1680}'
    ||| '\u{2000}' <= c <= '\u{200a}'
    ||| c == '\u{2028}'
    ||| c == '\u{2029}'
    ||| c == '\u{202f}'
    ||| c == '\u{205f}'
    ||| c == '\u{3000}'
}

/// The value of a decimal digit.
pub open spec fn spec_digit_value(c: char) -> nat
    recommends
        spec_is_ascii_digit(c),
{
    (c as u32 - '0' as u32) as nat
}

/// Whether a character is one of the ten decimal digits.
pub fn is_ascii_digit(c: char) -> (b: bool)
    ensures
        b == spec_is_ascii_digit(c),
{
    '0' <= c && c <= '9'
}

/// Whether a character is a decimal digit or an ASCII letter.
pub fn is_ascii_alphanumeric(c: char) -> (b: bool)
    ensures
        b == spec_is_ascii_alphanumeric(c),
{
    ('0' <= c && c <= '9') || ('a' <= c && c <= 'z') || ('A' <= c && c <= 'Z')
}

/// Whether a character has the Unicode property `White_Space`.
pub fn is_whitespace(c: char) -> (b: bool)
    ensures
        b == spec_is_whitespace(c),
{
    ('\u{9}' <= c && c <= '\u{d}') || c == ' ' || c == '\u{85}' || c == '\u{a0}' || c
        == '\u{1680}' || ('\u{2000}' <= c && c <= '\u{200a}') || c == '\u{2028}' || c
        == '\u{2029}' || c == '\u{202f}' || c == '\u{205f}' || c == '\u{3000}'
}

/// The value of a decimal digit.
pub fn digit_value(c: char) -> (v: u8)
    requires
        spec_is_ascii_digit(c),
    ensures
        v == spec_digit_value(c),
        v <= 9,
{
    (c as u32 - '0' as u32) as u8
}

/// The characters of a string, in order.
pub fn chars_of(s: &str) -> (chars: Vec<char>)
    ensures
        chars@ == s@,
{
    let mut chars: Vec<char> = Vec::new();
    for c in it: s.chars()
        invariant
            it.seq() == s@,
            chars@ == it.seq().take(it.index() as int),
    {
        chars.push(c);
    }
    chars
}

/// The string made of the given characters, in order.
pub fn string_of(chars: &[char]) -> (s: String)
    ensures
        s@ == chars@,
{
    let mut s = String::new();
    let mut i: usize = 0;
    while i < chars.len()
        invariant
            0 <= i <= chars@.len(),
            s@ == chars@.take(i as int),
        decreases chars@.len() - i,
    {
        s.push(chars[i]);
        i = i + 1;
        assert(chars@.take(i as int) =~= chars@.take(i - 1).push(chars@[i - 1]));
    }
    assert(chars@.take(chars@.len() as int) =~= chars@);
    s
}

/// Whether two character slices hold the same characters.
pub fn same_chars(a: &[char], b: &[char]) -> (same: bool)
    ensures
        same == (a@ == b@),
{
    if a.len() != b.len() {
        return false;
    }
    let mut i: usize = 0;
    while i < a.len()
        invariant
            0 <= i <= a@.len(),
            a@.len() == b@.len(),
            forall|k: int| 0 <= k < i ==> a@[k] == b@[k],
        decreases a@.len() - i,
    {
        if a[i] != b[i] {
            return false;
        }
        i = i + 1;
    }
    assert(a@ =~= b@);
    true
}

/// Whether two strings hold the same characters.
pub fn same_text(a: &str, b: &str) -> (same: bool)
    ensures
        same == (a@ == b@),
{
    let x = chars_of(a);
    let y = chars_of(b);
    same_chars(x.as_slice(), y.as_slice())
}

/// The character sequences that a vector of character vectors holds.
pub open spec fn spec_views(words: Seq<Vec<char>>) -> Seq<Seq<char>> {
    Seq::new(words.len(), |i: int| words[i]@)
}

/// The character sequences that a vector of strings holds.
pub open spec fn spec_texts(strings: Seq<String>) -> Seq<Seq<char>> {
    Seq::new(strings.len(), |i: int| strings[i]@)
}

/// The pieces of a text between its line feeds: one more than it has line
/// feeds, the last one empty where the text ends in a line feed.
pub open spec fn spec_lines(text: Seq<char>) -> Seq<Seq<char>>
    decreases text.len(),
{
    if text.len() == 0 {
        seq![Seq::<char>::empty()]
    } else {
        let front = spec_lines(text.drop_last());
        if text.last() == '\n' {
            front.push(Seq::<char>::empty())
        } else {
            front.drop_last().push(front.last().push(text.last()))
        }
    }
}

/// The words of a text: its longest runs of characters that are not white
/// space, in order.
pub open spec fn spec_words(text: Seq<char>) -> Seq<Seq<char>>
    decreases text.len(),
{
    if text.len() == 0 {
        Seq::<Seq<char>>::empty()
    } else {
        let front = spec_words(text.drop_last());
        if spec_is_whitespace(text.last()) {
            front
        } else if text.len() >= 2 && !spec_is_whitespace(text[text.len() - 2]) {
            front.drop_last().push(front.last().push(text.last()))
        } else {
            front.push(seq![text.last()])
        }
    }
}

/// The digit that writes a number below ten.
pub open spec fn spec_digit_char(d: nat) -> char
    recommends
        d < 10,
{
    ('0' as u32 + d as u32) as char
}

/// The decimal digits of a number, without leading zeros.
pub open spec fn spec_decimal(n: nat) -> Seq<char>
    decreases n,
{
    if n < 10 {
        seq![spec_digit_char(n)]
    } else {
        spec_decimal(n / 10).push(spec_digit_char(n % 10))
    }
}

/// The decimal digits of a number, with a leading zero where it is below ten.
pub open spec fn spec_two_digits(n: nat) -> Seq<char> {
    if n < 10 {
        seq!['0', spec_digit_char(n)]
    } else {
        spec_decimal(n)
    }
}

/// The digit that writes a number below ten.
pub fn digit_char(d: u8) -> (c: char)
    requires
        d < 10,
    ensures
        c == spec_digit_char(d as nat),
        spec_is_ascii_digit(c),
{
    (48u8 + d) as char
}

/// Appends the decimal digits of a number.
pub fn push_decimal(out: &mut Vec<char>, n: u16)
    ensures
        final(out)@ == old(out)@ + spec_decimal(n as nat),
    decreases n,
{
    if n >= 10 {
        push_decimal(out, n / 10);
    }
    out.push(digit_char((n % 10) as u8));
}

/// The decimal digits of a number, as a string.
pub fn decimal_text(n: u16) -> (text: String)
    ensures
        text@ == spec_decimal(n as nat),
{
    let mut digits: Vec<char> = Vec::new();
    push_decimal(&mut digits, n);
    string_of(digits.as_slice())
}

/// The decimal digits of a number, with a leading zero where it is below ten.
pub fn two_digits(n: u16) -> (digits: Vec<char>)
    ensures
        digits@ == spec_two_digits(n as nat),
{
    let mut digits: Vec<char> = Vec::new();
    if n < 10 {
        digits.push('0');
    }
    push_decimal(&mut digits, n);
    digits
}

/// The pieces of a text between its line feeds.
pub fn split_lines(text: &[char]) -> (lines: Vec<Vec<char>>)
    ensures
        spec_views(lines@) == spec_lines(text@),
        lines@.len() > 0,
        forall|i: int, j: int|
            0 <= i < lines@.len() && 0 <= j < lines@[i]@.len() ==> (#[trigger] lines@[i]@[j])
                != '\n',
{
    proof {
        lemma_lines_hold_no_line_feed(text@);
    }
    let mut lines: Vec<Vec<char>> = Vec::new();
    let mut current: Vec<char> = Vec::new();
    let mut i: usize = 0;
    assert(text@.take(0) =~= Seq::<char>::empty());
    assert(spec_views(lines@).push(current@) =~= seq![Seq::<char>::empty()]);
    while i < text.len()
        invariant
            0 <= i <= text@.len(),
            spec_lines(text@.take(i as int)) == spec_views(lines@).push(current@),
        decreases text@.len() - i,
    {
        let c = text[i];
        let ghost before = spec_views(lines@).push(current@);
        let ghost upto = text@.take(i + 1);
        assert(upto.drop_last() =~= text@.take(i as int));
        assert(upto.last() == c);
        if c == '\n' {
            lines.push(current);
            current = Vec::new();
            assert(spec_views(lines@).push(current@) =~= before.push(Seq::<char>::empty()));
        } else {
            current.push(c);
            assert(spec_views(lines@).push(current@) =~= before.drop_last().push(
                before.last().push(c),
            ));
        }
        i = i + 1;
    }
    assert(text@.take(text@.len() as int) =~= text@);
    let ghost before = spec_views(lines@).push(current@);
    lines.push(current);
    assert(spec_views(lines@) =~= before);
    assert forall|i: int, j: int|
        0 <= i < lines@.len() && 0 <= j < lines@[i]@.len() implies (#[trigger] lines@[i]@[j])
        != '\n' by {
        assert(lines@[i]@ == spec_lines(text@)[i]);
    }
    lines
}

/// The words of a text.
pub fn split_words(text: &[char]) -> (words: Vec<Vec<char>>)
    ensures
        spec_views(words@) == spec_words(text@),
        forall|i: int| 0 <= i < words@.len() ==> (#[trigger] words@[i])@.len() > 0,
        forall|i: int, j: int|
            0 <= i < words@.len() && 0 <= j < words@[i]@.len() ==> !spec_is_whitespace(
                #[trigger] words@[i]@[j],
            ),
{
    proof {
        lemma_words_hold_no_white_space(text@);
    }
    let mut words: Vec<Vec<char>> = Vec::new();
    let mut current: Vec<char> = Vec::new();
    let mut i: usize = 0;
    assert(text@.take(0) =~= Seq::<char>::empty());
    assert(spec_views(words@) =~= Seq::<Seq<char>>::empty());
    while i < text.len()
        invariant
            0 <= i <= text@.len(),
            current@.len() > 0 <==> i > 0 && !spec_is_whitespace(text@[i - 1]),
            spec_words(text@.take(i as int)) == if current@.len() > 0 {
                spec_views(words@).push(current@)
            } else {
                spec_views(words@)
            },
        decreases text@.len() - i,
    {
        let c = text[i];
        let ghost done = spec_views(words@);
        let ghost open = current@;
        let ghost upto = text@.take(i + 1);
        assert(upto.drop_last() =~= text@.take(i as int));
        assert(upto.last() == c);
        assert(i > 0 ==> upto[upto.len() - 2] == text@[i - 1]);
        if is_whitespace(c) {
            if current.len() > 0 {
                words.push(current);
                current = Vec::new();
                assert(spec_views(words@) =~= done.push(open));
            }
        } else {
            current.push(c);
            proof {
                if open.len() > 0 {
                    assert(spec_views(words@).push(current@) =~= done.push(open).drop_last().push(
                        done.push(open).last().push(c),
                    ));
                } else {
                    assert(current@ =~= seq![c]);
                    assert(spec_views(words@).push(current@) =~= done.push(seq![c]));
                }
            }
        }
        i = i + 1;
    }
    assert(text@.take(text@.len() as int) =~= text@);
    if current.len() > 0 {
        let ghost done = spec_views(words@);
        let ghost open = current@;
        words.push(current);
        assert(spec_views(words@) =~= done.push(open));
    }
    assert forall|i: int| 0 <= i < words@.len() implies (#[trigger] words@[i])@.len() > 0 by {
        assert(words@[i]@ == spec_words(text@)[i]);
    }
    assert forall|i: int, j: int|
        0 <= i < words@.len() && 0 <= j < words@[i]@.len() implies !spec_is_whitespace(
        #[trigger] words@[i]@[j],
    ) by {
        assert(words@[i]@ == spec_words(text@)[i]);
    }
    words
}

/// A plus or a minus sign.
pub open spec fn spec_is_sign(c: char) -> bool {
    c == '+' || c == '-'
}

/// The number of decimal digits that follow one another from the place
/// `from` on.
pub open spec fn spec_digit_run(text: Seq<char>, from: int) -> nat
    decreases text.len() - from,
{
    if 0 <= from < text.len() && spec_is_ascii_digit(text[from]) {
        1 + spec_digit_run(text, from + 1)
    } else {
        0
    }
}

/// From the place `from` to the end the text is an exponent: the letter `e`
/// in either case, a sign or none, and at least one digit.
pub open spec fn spec_is_exponent(text: Seq<char>, from: int) -> bool {
    let signed = from + 1 < text.len() && spec_is_sign(text[from + 1]);
    let digits = if signed {
        from + 2
    } else {
        from + 1
    };
    &&& 0 <= from < text.len()
    &&& text[from] == 'e' || text[from] == 'E'
    &&& spec_digit_run(text, digits) > 0
    &&& digits + spec_digit_run(text, digits) == text.len()
}

/// The text writes a decimal number: a sign or none; digits, a point and
/// digits, with at least one digit before or after the point, the point
/// itself being optional after digits; then an exponent or nothing.
pub open spec fn spec_is_decimal(text: Seq<char>) -> bool {
    let start = if text.len() > 0 && spec_is_sign(text[0]) {
        1int
    } else {
        0int
    };
    let whole = spec_digit_run(text, start);
    let point = start + whole;
    let dotted = point < text.len() && text[point] == '.';
    let fraction = if dotted {
        spec_digit_run(text, point + 1)
    } else {
        0
    };
    let end = if dotted {
        point + 1 + fraction
    } else {
        point
    };
    &&& whole + fraction > 0
    &&& end == text.len() || spec_is_exponent(text, end)
}

/// Whether a character is a plus or a minus sign.
pub fn is_sign(c: char) -> (b: bool)
    ensures
        b == spec_is_sign(c),
{
    c == '+' || c == '-'
}

/// The number of decimal digits that follow one another from `from` on.
pub fn digit_run(text: &[char], from: usize) -> (run: usize)
    requires
        from <= text@.len(),
    ensures
        run == spec_digit_run(text@, from as int),
        from + run <= text@.len(),
{
    let mut i: usize = from;
    while i < text.len() && is_ascii_digit(text[i])
        invariant
            from <= i <= text@.len(),
            spec_digit_run(text@, from as int) == (i - from) + spec_digit_run(text@, i as int),
        decreases text@.len() - i,
    {
        i = i + 1;
    }
    i - from
}

/// Whether the text from `from` to its end is an exponent.
fn is_exponent(text: &[char], from: usize) -> (b: bool)
    requires
        from < text@.len(),
    ensures
        b == spec_is_exponent(text@, from as int),
{
    if text[from] != 'e' && text[from] != 'E' {
        return false;
    }
    let signed = from + 1 < text.len() && is_sign(text[from + 1]);
    let digits: usize = if signed { from + 2 } else { from + 1 };
    let run = digit_run(text, digits);
    run > 0 && digits + run == text.len()
}

/// Whether the text writes a decimal number.
pub fn is_decimal(text: &[char]) -> (b: bool)
    ensures
        b == spec_is_decimal(text@),
{
    let start: usize = if text.len() > 0 && is_sign(text[0]) { 1 } else { 0 };
    let whole = digit_run(text, start);
    let point: usize = start + whole;
    let dotted = point < text.len() && text[point] == '.';
    let fraction: usize = if dotted { digit_run(text, point + 1) } else { 0 };
    let end: usize = if dotted { point + 1 + fraction } else { point };
    if whole + fraction == 0 {
        return false;
    }
    end == text.len() || is_exponent(text, end)
}

/// Every word has a character, and none of its characters is white space.
/// A text that ends in a character that is not white space has a word.
pub proof fn lemma_words_hold_no_white_space(text: Seq<char>)
    ensures
        forall|i: int|
            0 <= i < spec_words(text).len() ==> (#[trigger] spec_words(text)[i]).len() > 0,
        forall|i: int, j: int|
            0 <= i < spec_words(text).len() && 0 <= j < spec_words(text)[i].len()
                ==> !spec_is_whitespace(#[trigger] spec_words(text)[i][j]),
        text.len() > 0 && !spec_is_whitespace(text.last()) ==> spec_words(text).len() > 0,
    decreases text.len(),
{
    if text.len() > 0 {
        let front = spec_words(text.drop_last());
        lemma_words_hold_no_white_space(text.drop_last());
        if !spec_is_whitespace(text.last()) {
            if text.len() >= 2 && !spec_is_whitespace(text[text.len() - 2]) {
                assert(text.drop_last().last() == text[text.len() - 2]);
                assert(front.len() > 0);
            }
        }
    }
}

/// No line holds a line feed.
pub proof fn lemma_lines_hold_no_line_feed(text: Seq<char>)
    ensures
        spec_lines(text).len() > 0,
        forall|i: int, j: int|
            0 <= i < spec_lines(text).len() && 0 <= j < spec_lines(text)[i].len()
                ==> #[trigger] spec_lines(text)[i][j] != '\n',
    decreases text.len(),
{
    if text.len() > 0 {
        lemma_lines_hold_no_line_feed(text.drop_last());
    }
}

} // verus!
