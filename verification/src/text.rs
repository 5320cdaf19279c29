//! Characters and numbers in text: white space, letter case and the decimal
//! notation of integers.

pub mod lemmas;

use vstd::prelude::*;

verus! {

broadcast use vstd::string::group_string_axioms;

/// `String::push` appends the character to the end of the string: what the
/// string held stays in place, and the character follows it.
pub assume_specification[ String::push ](s: &mut String, c: char)
    ensures
        final(s)@ == old(s)@.push(c),
;

/// What `str::to_uppercase` makes of the text `s`.
pub uninterp spec fn unicode_upper(s: Seq<char>) -> Seq<char>;

/// `str::to_uppercase` gives the upper case form of a string as a new
/// string. The form depends on the characters of the string alone, and here
/// it has a name and nothing else is said of it.
#[verifier::external_body]
fn unicode_uppercase(s: &str) -> (r: String)
    ensures
        r@ == unicode_upper(s@),
{
    s.to_uppercase()
}

/// Whether `c` is white space: one of the characters to which Unicode gives
/// the property of that name.
pub open spec fn is_space(c: char) -> bool {
    let n = c as int;
    9 <= n <= 13 || n == 0x20 || n == 0x85 || n == 0xA0 || n == 0x1680 || 0x2000 <= n <= 0x200A
        || n == 0x2028 || n == 0x2029 || n == 0x202F || n == 0x205F || n == 0x3000
}

/// Whether `c` is white space.
pub fn space(c: char) -> (r: bool)
    ensures
        r == is_space(c),
{
    let n: u32 = c as u32;
    9 <= n && n <= 13 || n == 0x20 || n == 0x85 || n == 0xA0 || n == 0x1680 || 0x2000 <= n && n
        <= 0x200A || n == 0x2028 || n == 0x2029 || n == 0x202F || n == 0x205F || n == 0x3000
}

/// The capital of `c` where `c` is one of the letters `a` to `z`; any other
/// character as it is.
pub open spec fn upper(c: char) -> char {
    if 'a' <= c <= 'z' {
        (c as int - ('a' as int - 'A' as int)) as char
    } else {
        c
    }
}

/// The capital of `c` where `c` is one of the letters `a` to `z`; any other
/// character as it is.
pub fn to_upper(c: char) -> (r: char)
    ensures
        r == upper(c),
{
    if 'a' <= c && c <= 'z' {
        ((c as u8) - ('a' as u8 - 'A' as u8)) as char
    } else {
        c
    }
}

/// The text with each of the letters `a` to `z` replaced by its capital.
pub open spec fn upper_text(s: Seq<char>) -> Seq<char> {
    s.map_values(|c: char| upper(c))
}

/// Whether every character of `s` is an ASCII character.
pub open spec fn is_ascii_text(s: Seq<char>) -> bool {
    forall|i: int| 0 <= i < s.len() ==> (#[trigger] s[i]) as int <= 0x7F
}

/// The text in capitals. In a text of ASCII characters the letters `a` to
/// `z` are replaced by their capitals. A text with other characters is put
/// in upper case as a whole, as Unicode defines it.
pub open spec fn capitals(s: Seq<char>) -> Seq<char> {
    if is_ascii_text(s) {
        upper_text(s)
    } else {
        unicode_upper(s)
    }
}

/// Whether `c` is one of the digits `0` to `9`.
pub open spec fn is_digit(c: char) -> bool {
    '0' <= c <= '9'
}

/// The digit that `c` is: a number from 0 to 9, or none.
pub fn digit_value(c: char) -> (r: Option<u8>)
    ensures
        r is Some <==> is_digit(c),
        r matches Some(d) ==> d == c as int - '0' as int,
{
    if '0' <= c && c <= '9' {
        Some((c as u8) - '0' as u8)
    } else {
        None
    }
}

/// The character of the digit `d`.
pub open spec fn digit_char(d: int) -> char
    recommends
        0 <= d <= 9,
{
    (d + '0' as int) as char
}

/// The digits of `n` in decimal notation, without leading zeros.
pub open spec fn digits(n: nat) -> Seq<char>
    decreases n,
{
    if n < 10 {
        seq![digit_char(n as int)]
    } else {
        digits(n / 10).push(digit_char(n as int % 10))
    }
}

/// The decimal notation of `i`: its digits, after a minus sign where `i` is
/// negative.
pub open spec fn decimal(i: int) -> Seq<char> {
    if i < 0 {
        seq!['-'] + digits((-i) as nat)
    } else {
        digits(i as nat)
    }
}

/// The number that the digits of `s` write in decimal notation.
pub open spec fn number(s: Seq<char>) -> nat
    decreases s.len(),
{
    if s.len() == 0 {
        0
    } else {
        (number(s.drop_last()) * 10 + (s.last() as int - '0' as int)) as nat
    }
}

/// Whether `s` is made of digits only.
pub open spec fn all_digits(s: Seq<char>) -> bool {
    forall|i: int| 0 <= i < s.len() ==> is_digit(#[trigger] s[i])
}

/// The part of `s` after its sign, where `s` begins with `+` or `-`; else `s`.
pub open spec fn unsigned_part(s: Seq<char>) -> Seq<char> {
    if s.len() > 0 && (s[0] == '-' || s[0] == '+') {
        s.skip(1)
    } else {
        s
    }
}

/// The integer that `s` writes in decimal notation: an optional sign, `+` or
/// `-`, and then one digit or more, nothing before, between or after them.
/// There is none where `s` is not of that form or the integer does not fit
/// in 32 bits.
pub open spec fn parse_i32(s: Seq<char>) -> Option<i32> {
    let body = unsigned_part(s);
    let magnitude = number(body) as int;
    let v = if s.len() > 0 && s[0] == '-' {
        -magnitude
    } else {
        magnitude
    };
    if body.len() > 0 && all_digits(body) && i32::MIN <= v <= i32::MAX {
        Some(v as i32)
    } else {
        None
    }
}

/// The characters of `s`, in order.
pub fn chars_of(s: &str) -> (r: Vec<char>)
    ensures
        r@ == s@,
{
    let mut r: Vec<char> = Vec::new();
    for c in it: s.chars()
        invariant
            it.seq() == s@,
            r@ == s@.take(it.index() as int),
    {
        r.push(c);
        assert(r@ =~= s@.take(it.index() + 1));
    }
    assert(s@.take(s@.len() as int) =~= s@);
    r
}

/// Appends the characters of `chars` to `s`, in order.
pub fn push_chars(s: &mut String, chars: &[char])
    ensures
        final(s)@ == old(s)@ + chars@,
{
    let mut i: usize = 0;
    assert(s@ =~= old(s)@ + chars@.take(0));
    while i < chars.len()
        invariant
            i <= chars.len(),
            s@ == old(s)@ + chars@.take(i as int),
        decreases chars.len() - i,
    {
        s.push(chars[i]);
        assert(s@ =~= old(s)@ + chars@.take(i + 1));
        i += 1;
    }
    assert(chars@.take(i as int) =~= chars@);
}

/// The string made of the characters of `chars`, in order.
pub fn string_of(chars: &[char]) -> (r: String)
    ensures
        r@ == chars@,
{
    let mut r = String::new();
    push_chars(&mut r, chars);
    assert(r@ =~= chars@);
    r
}

/// Appends the digits of `n` to `out`.
pub fn push_digits(n: u128, out: &mut Vec<char>)
    ensures
        final(out)@ == old(out)@ + digits(n as nat),
    decreases n,
{
    if n >= 10 {
        push_digits(n / 10, out);
    }
    let d: u8 = (n % 10) as u8;
    out.push((d + '0' as u8) as char);
    assert(out@ =~= old(out)@ + digits(n as nat));
}

/// Appends the digits of `n` to `s`.
pub fn push_number(s: &mut String, n: u128)
    ensures
        final(s)@ == old(s)@ + digits(n as nat),
{
    let mut text: Vec<char> = Vec::new();
    push_digits(n, &mut text);
    assert(text@ =~= digits(n as nat));
    push_chars(s, text.as_slice());
}

/// The decimal notation of `v`.
pub fn decimal_of(v: i32) -> (r: Vec<char>)
    ensures
        r@ == decimal(v as int),
{
    let mut r: Vec<char> = Vec::new();
    if v < 0 {
        r.push('-');
        let magnitude: u128 = (-(v + 1)) as u128 + 1;
        push_digits(magnitude, &mut r);
    } else {
        push_digits(v as u128, &mut r);
    }
    assert(r@ =~= decimal(v as int));
    r
}

/// The integer that `s` writes in decimal notation, if it writes one that
/// fits in 32 bits.
pub fn parse_number(s: &[char]) -> (r: Option<i32>)
    ensures
        r == parse_i32(s@),
{
    let n = s.len();
    let negative = n > 0 && s[0] == '-';
    let start: usize = if n > 0 && (s[0] == '-' || s[0] == '+') {
        1
    } else {
        0
    };
    if start == n {
        return None;
    }
    let ghost body = unsigned_part(s@);
    assert(body =~= s@.skip(start as int));
    let mut acc: i64 = 0;
    let mut too_large = false;
    let mut i: usize = start;
    assert(body.take(0) =~= Seq::<char>::empty());
    while i < n
        invariant
            start <= i <= n,
            n == s@.len(),
            body == s@.skip(start as int),
            body == unsigned_part(s@),
            all_digits(body.take(i - start)),
            0 <= acc <= 0x8000_0000,
            !too_large ==> acc == number(body.take(i - start)),
            too_large ==> number(body.take(i - start)) > 0x8000_0000,
        decreases n - i,
    {
        let c = s[i];
        let d: u8 = match digit_value(c) {
            Some(d) => d,
            None => {
                assert(!is_digit(body[i - start]));
                return None;
            },
        };
        proof {
            let next = body.take(i - start + 1);
            assert(next.drop_last() =~= body.take(i - start));
            assert(next.last() == c);
            assert forall|j: int| 0 <= j < next.len() implies is_digit(#[trigger] next[j]) by {
                if j < i - start {
                    assert(body.take(i - start)[j] == next[j]);
                }
            }
        }
        if !too_large {
            acc = acc * 10 + d as i64;
            if acc > 0x8000_0000 {
                too_large = true;
                acc = 0;
            }
        }
        i += 1;
    }
    assert(body.take(n - start) =~= body);
    if too_large {
        None
    } else if negative {
        Some((-acc) as i32)
    } else if acc == 0x8000_0000 {
        None
    } else {
        Some(acc as i32)
    }
}

/// The text with each of the letters `a` to `z` replaced by its capital.
pub fn to_upper_text(s: &[char]) -> (r: Vec<char>)
    ensures
        r@ == upper_text(s@),
{
    let mut r: Vec<char> = Vec::new();
    let mut i: usize = 0;
    while i < s.len()
        invariant
            i <= s.len(),
            r@ == upper_text(s@.take(i as int)),
        decreases s.len() - i,
    {
        r.push(to_upper(s[i]));
        assert(r@ =~= upper_text(s@.take(i + 1)));
        i += 1;
    }
    assert(s@.take(i as int) =~= s@);
    r
}

/// Whether every character of `s` is an ASCII character.
pub fn ascii_text(s: &[char]) -> (r: bool)
    ensures
        r == is_ascii_text(s@),
{
    let mut i: usize = 0;
    while i < s.len()
        invariant
            i <= s.len(),
            forall|j: int| 0 <= j < i ==> (#[trigger] s@[j]) as int <= 0x7F,
        decreases s.len() - i,
    {
        if s[i] > '\x7F' {
            return false;
        }
        i += 1;
    }
    true
}

/// The text in capitals.
pub fn to_capitals(s: &[char]) -> (r: Vec<char>)
    ensures
        r@ == capitals(s@),
{
    if ascii_text(s) {
        to_upper_text(s)
    } else {
        chars_of(unicode_uppercase(string_of(s).as_str()).as_str())
    }
}

/// Whether `s` holds nothing but white space.
pub open spec fn is_blank(s: Seq<char>) -> bool {
    forall|i: int| 0 <= i < s.len() ==> is_space(#[trigger] s[i])
}

/// Whether `s` holds nothing but white space.
pub fn blank(s: &[char]) -> (r: bool)
    ensures
        r == is_blank(s@),
{
    let mut i: usize = 0;
    while i < s.len()
        invariant
            i <= s.len(),
            forall|j: int| 0 <= j < i ==> is_space(#[trigger] s@[j]),
        decreases s.len() - i,
    {
        if !space(s[i]) {
            return false;
        }
        i += 1;
    }
    true
}

/// The number of characters from position `i` of `s` up to the next white
/// space or the end.
pub open spec fn word_len(s: Seq<char>, i: int) -> nat
    decreases s.len() - i,
{
    if 0 <= i < s.len() && !is_space(s[i]) {
        1 + word_len(s, i + 1)
    } else {
        0
    }
}

/// A word ends inside the text.
pub proof fn lemma_word_len_bound(s: Seq<char>, i: int)
    requires
        0 <= i <= s.len(),
    ensures
        i + word_len(s, i) <= s.len(),
        i < s.len() && !is_space(s[i]) ==> word_len(s, i) >= 1,
    decreases s.len() - i,
{
    if i < s.len() && !is_space(s[i]) {
        lemma_word_len_bound(s, i + 1);
    }
}

/// The words of `s` from position `i` on: the longest runs of characters
/// that are no white space, in order.
pub open spec fn words_from(s: Seq<char>, i: int) -> Seq<Seq<char>>
    decreases s.len() - i,
{
    if i < 0 || i >= s.len() {
        Seq::empty()
    } else if is_space(s[i]) {
        words_from(s, i + 1)
    } else {
        proof {
            lemma_word_len_bound(s, i);
        }
        seq![s.subrange(i, i + word_len(s, i))] + words_from(s, i + word_len(s, i))
    }
}

/// The words of `s`: what white space of any length separates.
pub open spec fn words(s: Seq<char>) -> Seq<Seq<char>> {
    words_from(s, 0)
}

/// The texts that `v` holds, in order.
pub open spec fn texts(v: Seq<Vec<char>>) -> Seq<Seq<char>> {
    v.map_values(|w: Vec<char>| w@)
}

/// The words of `s`.
pub fn split_words(s: &[char]) -> (r: Vec<Vec<char>>)
    ensures
        texts(r@) == words(s@),
{
    let n = s.len();
    let mut out: Vec<Vec<char>> = Vec::new();
    let mut i: usize = 0;
    assert(texts(out@) + words_from(s@, 0) =~= words(s@));
    while i < n
        invariant
            i <= n,
            n == s@.len(),
            words(s@) == texts(out@) + words_from(s@, i as int),
        decreases n - i,
    {
        if space(s[i]) {
            i += 1;
        } else {
            let start: usize = i;
            let mut word: Vec<char> = Vec::new();
            assert(word@ =~= s@.subrange(start as int, i as int));
            while i < n && !space(s[i])
                invariant
                    start <= i <= n,
                    n == s@.len(),
                    word@ == s@.subrange(start as int, i as int),
                    word_len(s@, start as int) == (i - start) + word_len(s@, i as int),
                decreases n - i,
            {
                word.push(s[i]);
                assert(word@ =~= s@.subrange(start as int, i + 1));
                i += 1;
            }
            proof {
                assert(word_len(s@, i as int) == 0);
                assert(texts(out@.push(word)) =~= texts(out@).push(word@));
                assert(texts(out@) + (seq![word@] + words_from(s@, i as int)) =~= texts(out@).push(
                    word@,
                ) + words_from(s@, i as int));
            }
            out.push(word);
        }
    }
    assert(texts(out@) + Seq::<Seq<char>>::empty() =~= texts(out@));
    out
}

/// The number of characters from position `i` of `s` up to the next line
/// feed or the end.
pub open spec fn line_len(s: Seq<char>, i: int) -> nat
    decreases s.len() - i,
{
    if 0 <= i < s.len() && s[i] != '\n' {
        1 + line_len(s, i + 1)
    } else {
        0
    }
}

/// The lines of `s` from position `i` on. A line feed ends a line and does
/// not belong to it; what follows the last line feed is a line only where
/// it is not empty.
pub open spec fn lines_from(s: Seq<char>, i: int) -> Seq<Seq<char>>
    decreases s.len() - i,
{
    if i < 0 || i >= s.len() {
        Seq::empty()
    } else if i + line_len(s, i) >= s.len() {
        seq![s.subrange(i, s.len() as int)]
    } else {
        seq![s.subrange(i, i + line_len(s, i))] + lines_from(s, i + line_len(s, i) + 1)
    }
}

/// The lines of `s`.
pub open spec fn lines(s: Seq<char>) -> Seq<Seq<char>> {
    lines_from(s, 0)
}

/// The lines of `s`.
pub fn split_lines(s: &[char]) -> (r: Vec<Vec<char>>)
    ensures
        texts(r@) == lines(s@),
{
    let n = s.len();
    let mut out: Vec<Vec<char>> = Vec::new();
    let mut i: usize = 0;
    assert(texts(out@) + lines_from(s@, 0) =~= lines(s@));
    while i < n
        invariant
            i <= n,
            n == s@.len(),
            lines(s@) == texts(out@) + lines_from(s@, i as int),
        decreases n - i,
    {
        let start: usize = i;
        let mut line: Vec<char> = Vec::new();
        assert(line@ =~= s@.subrange(start as int, i as int));
        while i < n && s[i] != '\n'
            invariant
                start <= i <= n,
                n == s@.len(),
                line@ == s@.subrange(start as int, i as int),
                line_len(s@, start as int) == (i - start) + line_len(s@, i as int),
            decreases n - i,
        {
            line.push(s[i]);
            assert(line@ =~= s@.subrange(start as int, i + 1));
            i += 1;
        }
        proof {
            assert(line_len(s@, i as int) == 0);
            assert(texts(out@.push(line)) =~= texts(out@).push(line@));
            if i < n {
                assert(texts(out@) + (seq![line@] + lines_from(s@, i + 1)) =~= texts(out@).push(
                    line@,
                ) + lines_from(s@, i + 1));
            } else {
                assert(texts(out@) + seq![line@] =~= texts(out@).push(line@) + lines_from(
                    s@,
                    i as int,
                ));
            }
        }
        out.push(line);
        if i < n {
            i += 1;
        }
    }
    assert(texts(out@) + Seq::<Seq<char>>::empty() =~= texts(out@));
    out
}

/// The text without the white space at its start.
pub open spec fn trim_start(s: Seq<char>) -> Seq<char>
    decreases s.len(),
{
    if s.len() > 0 && is_space(s[0]) {
        trim_start(s.drop_first())
    } else {
        s
    }
}

/// The text without the white space at its end.
pub open spec fn trim_end(s: Seq<char>) -> Seq<char>
    decreases s.len(),
{
    if s.len() > 0 && is_space(s.last()) {
        trim_end(s.drop_last())
    } else {
        s
    }
}

/// The text without the white space at its start and at its end.
pub open spec fn trim(s: Seq<char>) -> Seq<char> {
    trim_end(trim_start(s))
}

/// The text without the white space at its start and at its end.
pub fn trimmed(s: &[char]) -> (r: Vec<char>)
    ensures
        r@ == trim(s@),
{
    let n = s.len();
    let mut lo: usize = 0;
    assert(s@.subrange(0, n as int) =~= s@);
    while lo < n && space(s[lo])
        invariant
            lo <= n,
            n == s@.len(),
            trim_start(s@) == trim_start(s@.subrange(lo as int, n as int)),
        decreases n - lo,
    {
        assert(s@.subrange(lo as int, n as int).drop_first() =~= s@.subrange(lo + 1, n as int));
        lo += 1;
    }
    let mut hi: usize = n;
    while hi > lo && space(s[hi - 1])
        invariant
            lo <= hi <= n,
            n == s@.len(),
            trim_start(s@) == s@.subrange(lo as int, n as int),
            trim(s@) == trim_end(s@.subrange(lo as int, hi as int)),
        decreases hi - lo,
    {
        assert(s@.subrange(lo as int, hi as int).drop_last() =~= s@.subrange(lo as int, hi - 1));
        hi -= 1;
    }
    let mut r: Vec<char> = Vec::new();
    let mut i: usize = lo;
    assert(r@ =~= s@.subrange(lo as int, i as int));
    while i < hi
        invariant
            lo <= i <= hi <= n,
            n == s@.len(),
            r@ == s@.subrange(lo as int, i as int),
        decreases hi - i,
    {
        r.push(s[i]);
        assert(r@ =~= s@.subrange(lo as int, i + 1));
        i += 1;
    }
    r
}

/// Whether `word` is the text `name`.
pub fn is_text(word: &[char], name: &str) -> (r: bool)
    ensures
        r == (word@ == name@),
{
    let n = name.unicode_len();
    if word.len() != n {
        return false;
    }
    let mut i: usize = 0;
    while i < n
        invariant
            i <= n,
            n == name@.len(),
            n == word@.len(),
            forall|j: int| 0 <= j < i ==> word@[j] == name@[j],
        decreases n - i,
    {
        if word[i] != name.get_char(i) {
            return false;
        }
        i += 1;
    }
    assert(word@ =~= name@);
    true
}

} // verus!
