//! Text at the level of characters: words, decimal numerals, and the std
//! strings that carry them.

use vstd::prelude::*;
use vstd::utf8::is_ascii_chars;

verus! {

/// The characters that separate words on a command line.
pub open spec fn is_space(c: char) -> bool {
    c == ' ' || c == '\t' || c == '\n' || c == '\x0C' || c == '\r'
}

/// Length of the run of non-separators at the front of `s`.
pub open spec fn word_len(s: Seq<char>) -> nat
    decreases s.len(),
{
    if s.len() == 0 || is_space(s[0]) {
        0
    } else {
        1 + word_len(s.skip(1))
    }
}

pub proof fn lemma_word_len(s: Seq<char>)
    ensures
        word_len(s) <= s.len(),
        s.len() > 0 && !is_space(s[0]) ==> word_len(s) > 0,
        forall|i: int| 0 <= i < word_len(s) ==> !is_space(#[trigger] s[i]),
        word_len(s) < s.len() ==> is_space(s[word_len(s) as int]),
    decreases s.len(),
{
    if s.len() > 0 && !is_space(s[0]) {
        lemma_word_len(s.skip(1));
        assert forall|i: int| 0 <= i < word_len(s) implies !is_space(#[trigger] s[i]) by {
            if i > 0 {
                assert(s[i] == s.skip(1)[i - 1]);
            }
        }
        if word_len(s) < s.len() {
            assert(s[word_len(s) as int] == s.skip(1)[word_len(s.skip(1)) as int]);
        }
    }
}

/// The words of `s`: its maximal runs of non-separators, in order.
pub open spec fn words(s: Seq<char>) -> Seq<Seq<char>>
    decreases s.len(),
    via words_decreases
{
    if s.len() == 0 {
        Seq::empty()
    } else if is_space(s[0]) {
        words(s.skip(1))
    } else {
        seq![s.take(word_len(s) as int)] + words(s.skip(word_len(s) as int))
    }
}

#[via_fn]
proof fn words_decreases(s: Seq<char>) {
    lemma_word_len(s);
}

/// Copies the characters of a string into a vector.
pub fn chars_of(s: &str) -> (r: Vec<char>)
    ensures
        r@ == s@,
{
    let mut v: Vec<char> = Vec::new();
    for c in it: s.chars()
        invariant
            it.seq() == s@,
            v@ == s@.take(it.index() as int),
    {
        v.push(c);
    }
    v
}

/// Whether a word reads exactly `lit`.
pub fn same(word: &Vec<char>, lit: &str) -> (r: bool)
    ensures
        r == (word@ == lit@),
{
    let other: Vec<char> = chars_of(lit);
    if word.len() != other.len() {
        return false;
    }
    let mut i: usize = 0;
    while i < word.len()
        invariant
            i <= word.len(),
            word.len() == other.len(),
            other@ == lit@,
            forall|j: int| 0 <= j < i ==> word@[j] == other@[j],
        decreases word.len() - i,
    {
        if word[i] != other[i] {
            return false;
        }
        i += 1;
    }
    assert(word@ =~= lit@);
    true
}

/// Splits a line into its words.
pub fn split_words(line: &str) -> (r: Vec<Vec<char>>)
    ensures
        word_views(r@) == words(line@),
{
    let s: Vec<char> = chars_of(line);
    let mut out: Vec<Vec<char>> = Vec::new();
    let mut i: usize = 0;
    assert(s@.skip(0) =~= s@);
    assert(word_views(out@) + words(s@) =~= words(s@));
    while i < s.len()
        invariant
            i <= s.len(),
            s@ == line@,
            word_views(out@) + words(s@.skip(i as int)) == words(s@),
        decreases s.len() - i,
    {
        let ghost rest = s@.skip(i as int);
        if is_separator(s[i]) {
            assert(rest.skip(1) =~= s@.skip(i + 1));
            i += 1;
        } else {
            let start: usize = i;
            let mut word: Vec<char> = Vec::new();
            assert(s@.skip(start as int) =~= s@.skip(i as int));
            while i < s.len() && !is_separator(s[i])
                invariant
                    start <= i <= s.len(),
                    s@ == line@,
                    rest == s@.skip(start as int),
                    word@ == rest.take(i - start),
                    word_len(rest) == (i - start) + word_len(s@.skip(i as int)),
                decreases s.len() - i,
            {
                word.push(s[i]);
                assert(s@.skip(i as int).skip(1) =~= s@.skip(i + 1));
                assert(rest.take(i - start).push(s@[i as int]) =~= rest.take(i + 1 - start));
                i += 1;
            }
            proof {
                assert(word_len(s@.skip(i as int)) == 0) by {
                    if i < s.len() {
                        assert(s@.skip(i as int)[0] == s@[i as int]);
                    }
                }
                lemma_word_len(rest);
                assert(rest.skip(i - start) =~= s@.skip(i as int));
                assert(words(rest) == seq![word@] + words(s@.skip(i as int)));
            }
            let ghost before = out@;
            out.push(word);
            assert(word_views(out@) =~= word_views(before) + seq![word@]);
            assert(word_views(out@) + words(s@.skip(i as int)) =~= word_views(before) + (seq![
                word@,
            ] + words(s@.skip(i as int))));
        }
    }
    assert(words(s@.skip(i as int)) =~= Seq::<Seq<char>>::empty());
    assert(word_views(out@) =~= words(s@));
    out
}

/// The views of a sequence of words.
pub open spec fn word_views(v: Seq<Vec<char>>) -> Seq<Seq<char>> {
    v.map_values(|w: Vec<char>| w@)
}

/// Whether `c` separates words.
pub fn is_separator(c: char) -> (r: bool)
    ensures
        r == is_space(c),
{
    c == ' ' || c == '\t' || c == '\n' || c == '\x0C' || c == '\r'
}

// --------------------------------------------------------------------------
// Decimal numerals
// --------------------------------------------------------------------------

/// The decimal digit `d`, for `d < 10`.
pub open spec fn digit_char(d: nat) -> char {
    (48 + d) as char
}

pub open spec fn is_digit(c: char) -> bool {
    '0' <= c <= '9'
}

pub open spec fn all_digits(s: Seq<char>) -> bool {
    forall|i: int| 0 <= i < s.len() ==> is_digit(#[trigger] s[i])
}

/// The number that a sequence of digits denotes.
pub open spec fn digits_value(s: Seq<char>) -> nat
    decreases s.len(),
{
    if s.len() == 0 {
        0
    } else {
        10 * digits_value(s.drop_last()) + (s.last() as nat - 48) as nat
    }
}

/// `n` in decimal, without leading zeros.
pub open spec fn decimal(n: nat) -> Seq<char>
    decreases n,
{
    if n < 10 {
        seq![digit_char(n)]
    } else {
        decimal(n / 10).push(digit_char(n % 10))
    }
}

/// `n` in decimal, with a minus sign where it is negative.
pub open spec fn signed_decimal(n: int) -> Seq<char> {
    if n < 0 {
        seq!['-'] + decimal((-n) as nat)
    } else {
        decimal(n as nat)
    }
}

/// The integer that `s` denotes, if it is a numeral within `lo..=hi`: digits
/// behind an optional plus sign, or behind a minus sign where `lo` is negative.
pub open spec fn parse_int(s: Seq<char>, lo: int, hi: int) -> Option<int> {
    let signed = s.len() > 0 && (s[0] == '+' || (s[0] == '-' && lo < 0));
    let body = if signed {
        s.skip(1)
    } else {
        s
    };
    let value = if signed && s[0] == '-' {
        -(digits_value(body) as int)
    } else {
        digits_value(body) as int
    };
    if body.len() > 0 && all_digits(body) && lo <= value <= hi {
        Some(value)
    } else {
        None
    }
}

proof fn lemma_digits_value_grows(s: Seq<char>, n: int)
    requires
        0 <= n <= s.len(),
    ensures
        digits_value(s.take(n)) <= digits_value(s),
    decreases s.len() - n,
{
    if n < s.len() {
        lemma_digits_value_grows(s, n + 1);
        assert(s.take(n + 1).drop_last() =~= s.take(n));
    } else {
        assert(s.take(n) =~= s);
    }
}

/// Reads an integer between `lo` and `hi`.
pub fn read_int(s: &Vec<char>, lo: i64, hi: u64) -> (r: Option<i128>)
    requires
        lo <= 0,
    ensures
        match r {
            Some(v) => parse_int(s@, lo as int, hi as int) == Some(v as int),
            None => parse_int(s@, lo as int, hi as int) is None,
        },
{
    let signed: bool = s.len() > 0 && (s[0] == '+' || (s[0] == '-' && lo < 0));
    let negative: bool = signed && s[0] == '-';
    let start: usize = if signed {
        1
    } else {
        0
    };
    let ghost body = s@.skip(start as int);
    assert(!signed ==> body =~= s@);
    if s.len() == start {
        return None;
    }
    let mut acc: i128 = 0;
    let mut i: usize = start;
    assert(body.take(0) =~= Seq::<char>::empty());
    while i < s.len()
        invariant
            start <= i <= s.len(),
            start < s.len(),
            start == if signed { 1int } else { 0int },
            signed == (s.len() > 0 && (s@[0] == '+' || (s@[0] == '-' && lo < 0))),
            body == if signed { s@.skip(1) } else { s@ },
            lo <= 0,
            acc == digits_value(body.take(i - start)),
            0 <= acc <= 0x1_0000_0000_0000_0000i128,
            forall|j: int| 0 <= j < i - start ==> is_digit(#[trigger] body[j]),
        decreases s.len() - i,
    {
        let c: char = s[i];
        assert(c == body[i - start]);
        if c < '0' || c > '9' {
            assert(!all_digits(body));
            return None;
        }
        let next: i128 = acc * 10 + (c as u32 as i128 - 48);
        assert(body.take(i + 1 - start).drop_last() =~= body.take(i - start));
        assert(next == digits_value(body.take(i + 1 - start)));
        if next > 0x1_0000_0000_0000_0000i128 {
            proof {
                lemma_digits_value_grows(body, i + 1 - start);
            }
            return None;
        }
        acc = next;
        i += 1;
    }
    assert(body.take(i - start) =~= body);
    let value: i128 = if negative {
        -acc
    } else {
        acc
    };
    if value < lo as i128 || value > hi as i128 {
        None
    } else {
        Some(value)
    }
}

/// Parses a signed 32-bit number.
pub fn read_i32(s: &Vec<char>) -> (r: Option<i32>)
    ensures
        match r {
            Some(v) => parse_int(s@, i32::MIN as int, i32::MAX as int) == Some(v as int),
            None => parse_int(s@, i32::MIN as int, i32::MAX as int) is None,
        },
{
    match read_int(s, -0x8000_0000i64, 0x7fff_ffffu64) {
        Some(v) => Some(v as i32),
        None => None,
    }
}

/// Parses an unsigned 32-bit number.
pub fn read_u32(s: &Vec<char>) -> (r: Option<u32>)
    ensures
        match r {
            Some(v) => parse_int(s@, 0, u32::MAX as int) == Some(v as int),
            None => parse_int(s@, 0, u32::MAX as int) is None,
        },
{
    match read_int(s, 0, 0xffff_ffffu64) {
        Some(v) => Some(v as u32),
        None => None,
    }
}

/// Parses an unsigned 16-bit number.
pub fn read_u16(s: &Vec<char>) -> (r: Option<u16>)
    ensures
        match r {
            Some(v) => parse_int(s@, 0, u16::MAX as int) == Some(v as int),
            None => parse_int(s@, 0, u16::MAX as int) is None,
        },
{
    match read_int(s, 0, 0xffffu64) {
        Some(v) => Some(v as u16),
        None => None,
    }
}

/// Parses an unsigned 8-bit number.
pub fn read_u8(s: &Vec<char>) -> (r: Option<u8>)
    ensures
        match r {
            Some(v) => parse_int(s@, 0, u8::MAX as int) == Some(v as int),
            None => parse_int(s@, 0, u8::MAX as int) is None,
        },
{
    match read_int(s, 0, 0xffu64) {
        Some(v) => Some(v as u8),
        None => None,
    }
}

/// Parses a number of the machine's word size.
pub fn read_usize(s: &Vec<char>) -> (r: Option<usize>)
    ensures
        match r {
            Some(v) => parse_int(s@, 0, usize::MAX as int) == Some(v as int),
            None => parse_int(s@, 0, usize::MAX as int) is None,
        },
{
    match read_int(s, 0, usize::MAX as u64) {
        Some(v) => Some(v as usize),
        None => None,
    }
}

/// The digit `d` as a string.
fn digit_text(d: u64) -> (r: &'static str)
    requires
        d < 10,
    ensures
        r@ == seq![digit_char(d as nat)],
{
    proof {
        reveal_strlit("0");
        reveal_strlit("1");
        reveal_strlit("2");
        reveal_strlit("3");
        reveal_strlit("4");
        reveal_strlit("5");
        reveal_strlit("6");
        reveal_strlit("7");
        reveal_strlit("8");
        reveal_strlit("9");
    }
    match d {
        0 => "0",
        1 => "1",
        2 => "2",
        3 => "3",
        4 => "4",
        5 => "5",
        6 => "6",
        7 => "7",
        8 => "8",
        _ => "9",
    }
}

/// `n` in decimal.
pub fn unsigned_text(n: u64) -> (r: String)
    ensures
        r@ == decimal(n as nat),
    decreases n,
{
    if n < 10 {
        let mut s: String = String::new();
        s.append(digit_text(n));
        assert(s@ =~= seq![digit_char(n as nat)]);
        s
    } else {
        let mut s: String = unsigned_text(n / 10);
        s.append(digit_text(n % 10));
        assert(s@ =~= decimal((n / 10) as nat).push(digit_char((n % 10) as nat)));
        s
    }
}

/// `n` in decimal, with its sign where it is negative.
pub fn signed_text(n: i64) -> (r: String)
    requires
        n > i64::MIN,
    ensures
        r@ == signed_decimal(n as int),
{
    if n < 0 {
        let digits: String = unsigned_text((-n) as u64);
        let mut s: String = String::new();
        s.append("-");
        s.append(digits.as_str());
        proof {
            reveal_strlit("-");
        }
        assert(s@ =~= seq!['-'] + decimal((-n) as nat));
        s
    } else {
        unsigned_text(n as u64)
    }
}

/// A numeral holds digits only, denotes the number it was made from, and is
/// never empty.
pub proof fn decimal_denotes(n: nat)
    ensures
        decimal(n).len() > 0,
        all_digits(decimal(n)),
        digits_value(decimal(n)) == n,
    decreases n,
{
    if n < 10 {
        assert(decimal(n).drop_last() =~= Seq::<char>::empty());
        assert(digits_value(decimal(n).drop_last()) == 0);
    } else {
        decimal_denotes(n / 10);
        assert(decimal(n).drop_last() =~= decimal(n / 10));
        assert forall|i: int| 0 <= i < decimal(n).len() implies is_digit(
            #[trigger] decimal(n)[i],
        ) by {
            if i < decimal(n).len() - 1 {
                assert(decimal(n)[i] == decimal(n / 10)[i]);
            }
        }
    }
}

/// Reading back a written number yields that number, for every number within
/// the bounds of the reader.
pub proof fn numerals_round_trip(n: int, lo: int, hi: int)
    requires
        lo <= n <= hi,
        lo <= 0,
    ensures
        parse_int(signed_decimal(n), lo, hi) == Some(n),
{
    if n < 0 {
        decimal_denotes((-n) as nat);
        assert(signed_decimal(n).skip(1) =~= decimal((-n) as nat));
    } else {
        decimal_denotes(n as nat);
        assert(is_digit(signed_decimal(n)[0]));
    }
}

/// A number below a power of ten has no more digits than the power has zeros.
pub proof fn decimal_is_short(n: nat, digits: nat)
    requires
        digits > 0,
        n < vstd::arithmetic::power::pow(10, digits),
    ensures
        decimal(n).len() <= digits,
    decreases digits,
{
    reveal(vstd::arithmetic::power::pow);
    if n >= 10 {
        assert(digits > 1) by {
            if digits == 1 {
                assert(vstd::arithmetic::power::pow(10, 0) == 1);
            }
        }
        decimal_is_short(n / 10, (digits - 1) as nat);
    }
}

/// A numeral takes one byte for each of its characters.
pub proof fn lemma_decimal_ascii(n: nat)
    ensures
        is_ascii_chars(decimal(n)),
{
    decimal_denotes(n);
    assert forall|i: int| 0 <= i < decimal(n).len() implies (decimal(n)[i] as nat) < 128 by {
        assert(is_digit(decimal(n)[i]));
    }
}

/// Words are what stands between blanks, tabs, line feeds, carriage returns and
/// form feeds, each whole and in order. Such characters in front count for
/// nothing, and neither do several in a row.
pub proof fn words_stand_between_blanks(word: Seq<char>, sep: char, rest: Seq<char>)
    requires
        word.len() > 0,
        forall|i: int|
            0 <= i < word.len() ==> {
                let c = #[trigger] word[i];
                c != ' ' && c != '\t' && c != '\n' && c != '\r' && c != '\u{c}'
            },
        sep == ' ' || sep == '\t' || sep == '\n' || sep == '\r' || sep == '\u{c}',
    ensures
        words(Seq::empty()) == Seq::<Seq<char>>::empty(),
        words(seq![sep] + rest) == words(rest),
        words(word) == seq![word],
        words(word + seq![sep] + rest) == seq![word] + words(rest),
{
    let n = word.len() as int;
    let line = word + seq![sep] + rest;
    assert((seq![sep] + rest).skip(1) =~= rest);
    lemma_word_len_is(word, n);
    assert(word.take(n) =~= word);
    assert(word.skip(n) =~= Seq::<char>::empty());
    assert(words(word.skip(n)) =~= Seq::<Seq<char>>::empty());
    assert(words(word) =~= seq![word]);
    assert forall|i: int| 0 <= i < n implies !is_space(#[trigger] line[i]) by {
        assert(line[i] == word[i]);
    }
    lemma_word_len_is(line, n);
    assert(line.take(n) =~= word);
    assert(line.skip(n) =~= seq![sep] + rest);
    assert(words(line.skip(n)) == words(rest));
    assert(line[0] == word[0]);
    assert(words(line) =~= seq![word] + words(rest));
}

/// The first word ends at the first character that separates words.
pub proof fn lemma_word_len_is(s: Seq<char>, n: int)
    requires
        0 <= n <= s.len(),
        forall|i: int| 0 <= i < n ==> !is_space(#[trigger] s[i]),
        n < s.len() ==> is_space(s[n]),
    ensures
        word_len(s) == n,
    decreases n,
{
    if n > 0 {
        lemma_word_len_is(s.skip(1), n - 1);
    }
}

/// Digits count by their place: one more behind a number makes ten times the
/// number and the digit.
pub proof fn digits_count_by_place(s: Seq<char>, d: char)
    requires
        '0' <= d <= '9',
    ensures
        digits_value(Seq::empty()) == 0,
        digits_value(s.push(d)) == 10 * digits_value(s) + (d as int - '0' as int),
{
    assert(s.push(d).drop_last() =~= s);
}

/// Numbers are written without zeros in front, and negative ones with a minus
/// sign in front of their magnitude.
pub proof fn numbers_are_written_plainly(n: nat)
    ensures
        decimal(n)[0] == '0' <==> n == 0,
        n == 0 ==> decimal(n).len() == 1,
        n > 0 ==> signed_decimal(-(n as int)) == seq!['-'] + decimal(n),
        signed_decimal(n as int) == decimal(n),
    decreases n,
{
    if n >= 10 {
        numbers_are_written_plainly(n / 10);
        decimal_denotes(n / 10);
        assert(decimal(n)[0] == decimal(n / 10)[0]);
    }
}

/// Digits are read as the number that they denote, with or without a plus sign
/// in front, and behind a minus sign as its negative where there are negative
/// numbers at all; a number out of bounds is not read.
pub proof fn numerals_are_read(digits: Seq<char>, lo: int, hi: int)
    requires
        digits.len() > 0,
        forall|i: int| 0 <= i < digits.len() ==> '0' <= #[trigger] digits[i] <= '9',
        lo <= 0 <= hi,
    ensures
        ({
            let n = digits_value(digits) as int;
            let plain = parse_int(digits, lo, hi);
            let negative = parse_int(seq!['-'] + digits, lo, hi);
            &&& n <= hi ==> plain == Some(n)
            &&& n > hi ==> plain is None
            &&& parse_int(seq!['+'] + digits, lo, hi) == plain
            &&& lo < 0 && -n >= lo ==> negative == Some(-n)
            &&& lo == 0 || -n < lo ==> negative is None
        }),
{
    assert((seq!['+'] + digits).skip(1) =~= digits);
    assert((seq!['-'] + digits).skip(1) =~= digits);
    assert('0' <= digits[0] <= '9');
    assert((seq!['-'] + digits)[0] == '-');
    assert(!is_digit('-'));
}

/// Nothing else is read as a number: not an empty word, not a sign alone, and
/// no word with anything but digits behind its first character, or with
/// anything but a digit or a sign in front.
pub proof fn only_numerals_are_read(s: Seq<char>, i: int, lo: int, hi: int)
    requires
        ({
            ||| s.len() == 0
            ||| s.len() == 1 && !('0' <= s[0] <= '9')
            ||| 0 < i < s.len() && !('0' <= s[i] <= '9')
            ||| s.len() > 0 && !('0' <= s[0] <= '9') && s[0] != '+' && s[0] != '-'
        }),
    ensures
        parse_int(s, lo, hi) is None,
{
    if 0 < i < s.len() && !('0' <= s[i] <= '9') {
        assert(s.skip(1)[i - 1] == s[i]);
        assert(!is_digit(s[i]));
    } else if s.len() > 0 {
        assert(!is_digit(s[0]));
    }
}

} // verus!
