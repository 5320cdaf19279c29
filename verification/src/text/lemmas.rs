use vstd::prelude::*;
use super::{
    all_digits, capitals, decimal, digit_char, digits, is_digit, is_space, line_len, lines, lines_from,
    number, parse_i32, trim, trim_end, trim_start, unsigned_part, upper, upper_text, word_len,
    words, words_from,
};

verus! {

/// Whether `s` is made of ASCII characters that are neither white space nor
/// small letters: text that reading takes as one word and leaves as it is.
pub open spec fn is_plain(s: Seq<char>) -> bool {
    forall|i: int|
        0 <= i < s.len() ==> !is_space(#[trigger] s[i]) && upper(s[i]) == s[i] && s[i] as int
            <= 0x7F
}

/// The digits of a number are digits, and they write that number.
pub proof fn lemma_digits(n: nat)
    ensures
        digits(n).len() >= 1,
        all_digits(digits(n)),
        number(digits(n)) == n,
    decreases n,
{
    let s = digits(n);
    if n < 10 {
        assert(s.len() == 1);
        assert(s[0] == digit_char(n as int));
        assert(s.drop_last() =~= Seq::<char>::empty());
        assert(number(s.drop_last()) == 0);
        assert(s.last() as int == n + '0' as int);
    } else {
        lemma_digits(n / 10);
        assert(s.drop_last() =~= digits(n / 10));
        assert(s.last() == digit_char(n as int % 10));
        assert(s.last() as int == n % 10 + '0' as int);
        assert forall|i: int| 0 <= i < s.len() implies is_digit(#[trigger] s[i]) by {
            if i < s.len() - 1 {
                assert(s[i] == digits(n / 10)[i]);
            }
        }
    }
}

/// Reading the decimal notation of a 32-bit integer gives the integer back.
/// The notation has at least one character and is plain.
pub proof fn lemma_decimal_round_trip(v: i32)
    ensures
        parse_i32(decimal(v as int)) == Some(v),
        decimal(v as int).len() >= 1,
        is_plain(decimal(v as int)),
{
    let s = decimal(v as int);
    if v < 0 {
        let magnitude = (-(v as int)) as nat;
        lemma_digits(magnitude);
        assert(s[0] == '-');
        assert(s.skip(1) =~= digits(magnitude));
        assert(unsigned_part(s) == digits(magnitude));
        assert forall|i: int| 0 <= i < s.len() implies !is_space(#[trigger] s[i]) && upper(s[i])
            == s[i] && s[i] as int <= 0x7F by {
            if i > 0 {
                assert(s[i] == digits(magnitude)[i - 1]);
                assert(is_digit(digits(magnitude)[i - 1]));
            }
        }
    } else {
        lemma_digits(v as nat);
        assert(is_digit(s[0]));
        assert(unsigned_part(s) == s);
        assert forall|i: int| 0 <= i < s.len() implies !is_space(#[trigger] s[i]) && upper(s[i])
            == s[i] && s[i] as int <= 0x7F by {
            assert(is_digit(s[i]));
        }
    }
}

/// Taking capitals leaves plain text as it is.
pub proof fn lemma_upper_plain(s: Seq<char>)
    requires
        is_plain(s),
    ensures
        upper_text(s) == s,
        capitals(s) == s,
{
    assert(upper_text(s) =~= s);
}

/// Trimming leaves text as it is that neither begins nor ends with white
/// space.
pub proof fn lemma_trim_plain(s: Seq<char>)
    requires
        is_plain(s),
    ensures
        trim(s) == s,
{
    if s.len() > 0 {
        assert(!is_space(s[0]));
        assert(!is_space(s.last()));
    }
    assert(trim_start(s) == s);
    assert(trim_end(s) == s);
}

/// A run of characters that are no white space, up to a white space or the
/// end of the text, is one word.
pub proof fn lemma_word_len_run(s: Seq<char>, i: int, j: int)
    requires
        0 <= i <= j <= s.len(),
        forall|k: int| i <= k < j ==> !is_space(#[trigger] s[k]),
        j == s.len() || is_space(s[j]),
    ensures
        word_len(s, i) == j - i,
    decreases j - i,
{
    if i < j {
        assert(!is_space(s[i]));
        lemma_word_len_run(s, i + 1, j);
    }
}

/// Plain text that is not empty is one word.
pub proof fn lemma_words_one(m: Seq<char>)
    requires
        m.len() > 0,
        is_plain(m),
    ensures
        words(m) == seq![m],
{
    lemma_word_len_run(m, 0, m.len() as int);
    assert(!is_space(m[0]));
    assert(m.subrange(0, m.len() as int) =~= m);
    assert(words_from(m, m.len() as int) =~= Seq::<Seq<char>>::empty());
    assert(words_from(m, 0) =~= seq![m]);
}

/// Two plain texts with one space between them are two words.
pub proof fn lemma_words_two(m: Seq<char>, a: Seq<char>)
    requires
        m.len() > 0,
        a.len() > 0,
        is_plain(m),
        is_plain(a),
    ensures
        words(m + seq![' '] + a) == seq![m, a],
{
    let s = m + seq![' '] + a;
    let p = m.len() as int;
    let n = s.len() as int;
    assert(n == p + 1 + a.len());
    assert(s[p] == ' ');
    assert(is_space(s[p]));
    assert forall|k: int| 0 <= k < p implies !is_space(#[trigger] s[k]) by {
        assert(s[k] == m[k]);
    }
    assert forall|k: int| p + 1 <= k < n implies !is_space(#[trigger] s[k]) by {
        assert(s[k] == a[k - p - 1]);
    }
    lemma_word_len_run(s, 0, p);
    lemma_word_len_run(s, p + 1, n);
    assert(s.subrange(0, p) =~= m);
    assert(s.subrange(p + 1, n) =~= a);
    assert(!is_space(s[0]));
    assert(!is_space(s[p + 1]));
    assert(words_from(s, n) =~= Seq::<Seq<char>>::empty());
    assert(words_from(s, p + 1) =~= seq![a]);
    assert(words_from(s, p) == words_from(s, p + 1));
    assert(words_from(s, 0) =~= seq![m] + words_from(s, p));
    assert(words_from(s, 0) =~= seq![m, a]);
}

/// In a text that ends with a line feed every line ends before the end, and
/// more text after the end does not change where.
pub proof fn lemma_line_len_inside(s: Seq<char>, rest: Seq<char>, i: int)
    requires
        0 <= i < s.len(),
        s.last() == '\n',
    ensures
        i + line_len(s, i) < s.len(),
        line_len(s + rest, i) == line_len(s, i),
    decreases s.len() - i,
{
    assert((s + rest)[i] == s[i]);
    if s[i] != '\n' {
        assert(i < s.len() - 1);
        lemma_line_len_inside(s, rest, i + 1);
    }
}

/// A line feed ends the line that a text without line feeds begins.
pub proof fn lemma_line_len_run(s: Seq<char>, i: int, j: int)
    requires
        0 <= i <= j < s.len(),
        forall|k: int| i <= k < j ==> #[trigger] s[k] != '\n',
        s[j] == '\n',
    ensures
        line_len(s, i) == j - i,
    decreases j - i,
{
    if i < j {
        assert(s[i] != '\n');
        lemma_line_len_run(s, i + 1, j);
    }
}

/// After a text that is empty or ends with a line feed, one more line and
/// its line feed add that line to the lines of the text, from any position.
pub proof fn lemma_lines_from_push(s: Seq<char>, t: Seq<char>, i: int)
    requires
        s.len() == 0 || s.last() == '\n',
        forall|k: int| 0 <= k < t.len() ==> #[trigger] t[k] != '\n',
        0 <= i <= s.len(),
    ensures
        lines_from(s + t + seq!['\n'], i) == lines_from(s, i).push(t),
    decreases s.len() - i,
{
    let rest = t + seq!['\n'];
    let whole = s + t + seq!['\n'];
    assert(whole =~= s + rest);
    let n = whole.len() as int;
    if i == s.len() {
        let j = i + t.len();
        assert(whole[j] == '\n');
        assert forall|k: int| i <= k < j implies #[trigger] whole[k] != '\n' by {
            assert(whole[k] == t[k - i]);
        }
        lemma_line_len_run(whole, i, j);
        assert(whole.subrange(i, j) =~= t);
        assert(j + 1 == n);
        assert(lines_from(whole, j + 1) =~= Seq::<Seq<char>>::empty());
        assert(lines_from(s, i) =~= Seq::<Seq<char>>::empty());
        assert(lines_from(whole, i) =~= seq![t]);
        assert(lines_from(s, i).push(t) =~= seq![t]);
    } else {
        lemma_line_len_inside(s, rest, i);
        let len = line_len(s, i) as int;
        assert(line_len(whole, i) == len);
        assert(whole.subrange(i, i + len) =~= s.subrange(i, i + len));
        lemma_lines_from_push(s, t, i + len + 1);
        if i + len + 1 == s.len() {
            assert(lines_from(s, i + len + 1) =~= Seq::<Seq<char>>::empty());
        }
        assert(lines_from(s, i) =~= seq![s.subrange(i, i + len)] + lines_from(s, i + len + 1));
        assert(lines_from(whole, i) =~= seq![s.subrange(i, i + len)] + lines_from(
            whole,
            i + len + 1,
        ));
        assert(lines_from(whole, i) =~= lines_from(s, i).push(t));
    }
}

/// After a text that is empty or ends with a line feed, one more line and
/// its line feed add that line to the lines of the text.
pub proof fn lemma_lines_push(s: Seq<char>, t: Seq<char>)
    requires
        s.len() == 0 || s.last() == '\n',
        forall|k: int| 0 <= k < t.len() ==> #[trigger] t[k] != '\n',
    ensures
        lines(s + t + seq!['\n']) == lines(s).push(t),
{
    lemma_lines_from_push(s, t, 0);
}

} // verus!
