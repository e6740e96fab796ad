//! Character-level text helpers shared by the play log.

use crate::local_time::{digits_value, is_digit};
use vstd::prelude::*;

verus! {

/// ASCII lowercasing of one character; every other character is kept.
pub open spec fn lower_char(c: char) -> char {
    if 'A' <= c && c <= 'Z' {
        ((c as u32) + 32) as char
    } else {
        c
    }
}

/// ASCII lowercasing of a whole text.
pub open spec fn ascii_lower(s: Seq<char>) -> Seq<char> {
    s.map_values(|c: char| lower_char(c))
}

/// Lowercasing an already lowercased text changes nothing.
pub proof fn ascii_lower_idempotent(s: Seq<char>)
    ensures
        ascii_lower(ascii_lower(s)) == ascii_lower(s),
{
    assert forall|i: int| 0 <= i < s.len() implies #[trigger] lower_char(lower_char(s[i])) == lower_char(s[i]) by {
        let c = s[i];
        if 'A' <= c && c <= 'Z' {
            assert('a' <= lower_char(c) && lower_char(c) <= 'z');
        }
    }
    assert(ascii_lower(ascii_lower(s)) =~= ascii_lower(s));
}

/// Lowercases one character the way `char::to_ascii_lowercase` does.
pub fn to_ascii_lower(c: char) -> (r: char)
    ensures
        r == lower_char(c),
{
    if 'A' <= c && c <= 'Z' {
        let code: u32 = c as u32 + 32;
        let b: u8 = code as u8;
        b as char
    } else {
        c
    }
}

/// The characters of a string slice, in order.
pub fn chars_of(s: &str) -> (v: Vec<char>)
    ensures
        v@ == s@,
{
    let mut v: Vec<char> = Vec::new();
    for c in it: s.chars()
        invariant
            v@ == it.seq().take(it.index() as int),
    {
        v.push(c);
    }
    v
}


/// Lowercases every ASCII letter of a character sequence.
pub fn lower_chars(s: &Vec<char>) -> (r: Vec<char>)
    ensures
        r@ == ascii_lower(s@),
{
    let mut r: Vec<char> = Vec::new();
    let n = s.len();
    for i in 0..n
        invariant
            n == s.len(),
            r@ == ascii_lower(s@.take(i as int)),
    {
        r.push(to_ascii_lower(s[i]));
        assert(ascii_lower(s@.take(i + 1)) =~= ascii_lower(s@.take(i as int)).push(lower_char(s@[i as int])));
    }
    assert(s@.take(n as int) =~= s@);
    r
}

/// `char::is_ascii_alphanumeric`.
pub open spec fn is_alnum(c: char) -> bool {
    ('0' <= c && c <= '9') || ('a' <= c && c <= 'z') || ('A' <= c && c <= 'Z')
}

/// Tests whether a character is an ASCII digit or letter.
pub fn is_ascii_alnum(c: char) -> (r: bool)
    ensures
        r == is_alnum(c),
{
    ('0' <= c && c <= '9') || ('a' <= c && c <= 'z') || ('A' <= c && c <= 'Z')
}

/// The Unicode `White_Space` property, which `char::is_whitespace` tests.
pub open spec fn is_white_space(c: char) -> bool {
    ||| '\u{9}' <= c && c <= '\u{d}'
    ||| c == ' '
    ||| c == '\u{85}'
    ||| c == '\u{a0}'
    ||| c == '\u{1680}'
    ||| '\u{2000}' <= c && c <= '\u{200a}'
    ||| c == '\u{2028}'
    ||| c == '\u{2029}'
    ||| c == '\u{202f}'
    ||| c == '\u{205f}'
    ||| c == '\u{3000}'
}

/// Tests the Unicode `White_Space` property of a character.
pub fn is_space(c: char) -> (r: bool)
    ensures
        r == is_white_space(c),
{
    ('\u{9}' <= c && c <= '\u{d}') || c == ' ' || c == '\u{85}' || c == '\u{a0}' || c == '\u{1680}'
        || ('\u{2000}' <= c && c <= '\u{200a}') || c == '\u{2028}' || c == '\u{2029}'
        || c == '\u{202f}' || c == '\u{205f}' || c == '\u{3000}'
}

/// A text with its leading white space removed.
pub open spec fn trim_start(s: Seq<char>) -> Seq<char>
    decreases s.len(),
{
    if s.len() > 0 && is_white_space(s[0]) {
        trim_start(s.drop_first())
    } else {
        s
    }
}

/// A text with its trailing white space removed.
pub open spec fn trim_end(s: Seq<char>) -> Seq<char>
    decreases s.len(),
{
    if s.len() > 0 && is_white_space(s.last()) {
        trim_end(s.drop_last())
    } else {
        s
    }
}

/// A text with leading and trailing white space removed, as `str::trim` gives it.
pub open spec fn trim(s: Seq<char>) -> Seq<char> {
    trim_end(trim_start(s))
}

/// Removes leading and trailing white space.
pub fn trim_chars(s: &Vec<char>) -> (r: Vec<char>)
    ensures
        r@ == trim(s@),
{
    let n = s.len();
    let mut i: usize = 0;
    assert(s@.subrange(0, n as int) =~= s@);
    while i < n && is_space(s[i])
        invariant
            n == s.len(),
            i <= n,
            trim_start(s@) == trim_start(s@.subrange(i as int, n as int)),
        decreases n - i,
    {
        assert(s@.subrange(i as int, n as int).drop_first() =~= s@.subrange(i + 1, n as int));
        i = i + 1;
    }
    let mut j: usize = n;
    while j > i && is_space(s[j - 1])
        invariant
            n == s.len(),
            i <= j <= n,
            trim_start(s@) == s@.subrange(i as int, n as int),
            trim(s@) == trim_end(s@.subrange(i as int, j as int)),
        decreases j - i,
    {
        assert(s@.subrange(i as int, j as int).drop_last() =~= s@.subrange(i as int, j - 1));
        j = j - 1;
    }
    let mut r: Vec<char> = Vec::new();
    let mut k: usize = i;
    while k < j
        invariant
            i <= k <= j <= n,
            n == s.len(),
            r@ == s@.subrange(i as int, k as int),
        decreases j - k,
    {
        r.push(s[k]);
        assert(s@.subrange(i as int, k + 1) =~= s@.subrange(i as int, k as int).push(s@[k as int]));
        k = k + 1;
    }
    r
}

/// Appends one character to a `String` (`String::push`).
#[verifier::external_body]
pub fn push_char(s: &mut String, c: char)
    ensures
        final(s)@ == old(s)@.push(c),
{
    s.push(c);
}

/// Builds a `String` that holds the given characters.
pub fn string_of(chars: &Vec<char>) -> (s: String)
    ensures
        s@ == chars@,
{
    let mut s = String::new();
    let n = chars.len();
    for i in 0..n
        invariant
            n == chars.len(),
            s@ == chars@.take(i as int),
    {
        push_char(&mut s, chars[i]);
        assert(chars@.take(i + 1) =~= chars@.take(i as int).push(chars@[i as int]));
    }
    assert(chars@.take(n as int) =~= chars@);
    s
}


/// `needle` occurs in `hay` starting at index `i`.
pub open spec fn occurs_at(hay: Seq<char>, needle: Seq<char>, i: int) -> bool {
    &&& 0 <= i
    &&& i + needle.len() <= hay.len()
    &&& hay.subrange(i, i + needle.len()) == needle
}

/// `needle` occurs somewhere in `hay` (`str::contains`; the empty text occurs everywhere).
pub open spec fn contains_text(hay: Seq<char>, needle: Seq<char>) -> bool {
    exists|i: int| #[trigger] occurs_at(hay, needle, i)
}

/// Tests whether `needle` occurs in `hay` at index `i`.
pub fn matches_at(hay: &Vec<char>, needle: &Vec<char>, i: usize) -> (r: bool)
    ensures
        r == occurs_at(hay@, needle@, i as int),
{
    if i > hay.len() || needle.len() > hay.len() - i {
        return false;
    }
    let m = needle.len();
    for k in 0..m
        invariant
            m == needle.len(),
            i + m <= hay.len(),
            forall|j: int| 0 <= j < k ==> hay@[i + j] == needle@[j],
    {
        if hay[i + k] != needle[k] {
            assert(hay@.subrange(i as int, i + m)[k as int] != needle@[k as int]);
            return false;
        }
    }
    assert(hay@.subrange(i as int, i + m) =~= needle@);
    true
}

/// Tests whether `needle` occurs anywhere in `hay`.
pub fn contains_chars(hay: &Vec<char>, needle: &Vec<char>) -> (r: bool)
    ensures
        r == contains_text(hay@, needle@),
{
    if needle.len() == 0 {
        assert(hay@.subrange(0, 0) =~= needle@);
        assert(occurs_at(hay@, needle@, 0));
        return true;
    }
    if needle.len() > hay.len() {
        assert(forall|i: int| !#[trigger] occurs_at(hay@, needle@, i));
        return false;
    }
    let last = hay.len() - needle.len();
    for i in 0..last + 1
        invariant
            last == hay.len() - needle.len(),
            forall|j: int| 0 <= j < i ==> !#[trigger] occurs_at(hay@, needle@, j),
    {
        if matches_at(hay, needle, i) {
            return true;
        }
    }
    assert(forall|i: int| !#[trigger] occurs_at(hay@, needle@, i));
    false
}

/// `w` stands in `hay` at index `i` as a whole word: neither neighbour is an ASCII letter or
/// digit. For a word made of letters and digits this is exactly a piece of `hay` split at
/// every other character.
pub open spec fn word_at(hay: Seq<char>, w: Seq<char>, i: int) -> bool {
    &&& occurs_at(hay, w, i)
    &&& (i == 0 || !is_alnum(hay[i - 1]))
    &&& (i + w.len() == hay.len() || !is_alnum(hay[i + w.len()]))
}

/// `w` stands somewhere in `hay` as a whole word.
pub open spec fn has_word(hay: Seq<char>, w: Seq<char>) -> bool {
    exists|i: int| #[trigger] word_at(hay, w, i)
}

/// Tests whether `w` stands somewhere in `hay` as a whole word.
pub fn contains_word(hay: &Vec<char>, w: &Vec<char>) -> (r: bool)
    requires
        w@.len() > 0,
    ensures
        r == has_word(hay@, w@),
{
    if w.len() > hay.len() {
        assert(forall|i: int| !#[trigger] word_at(hay@, w@, i));
        return false;
    }
    let last = hay.len() - w.len();
    for i in 0..last + 1
        invariant
            last == hay.len() - w.len(),
            forall|j: int| 0 <= j < i ==> !#[trigger] word_at(hay@, w@, j),
    {
        if matches_at(hay, w, i) {
            let left_ok = i == 0 || !is_ascii_alnum(hay[i - 1]);
            let right_ok = i + w.len() == hay.len() || !is_ascii_alnum(hay[i + w.len()]);
            if left_ok && right_ok {
                assert(word_at(hay@, w@, i as int));
                return true;
            }
        }
    }
    assert(forall|i: int| !#[trigger] word_at(hay@, w@, i));
    false
}

/// The character of a decimal digit.
pub open spec fn digit_char(d: int) -> char {
    if d == 0 {
        '0'
    } else if d == 1 {
        '1'
    } else if d == 2 {
        '2'
    } else if d == 3 {
        '3'
    } else if d == 4 {
        '4'
    } else if d == 5 {
        '5'
    } else if d == 6 {
        '6'
    } else if d == 7 {
        '7'
    } else if d == 8 {
        '8'
    } else {
        '9'
    }
}

/// The decimal rendering of a natural number, without leading zeros.
pub open spec fn decimal(n: nat) -> Seq<char>
    decreases n,
{
    if n < 10 {
        seq![digit_char(n as int)]
    } else {
        decimal(n / 10).push(digit_char((n % 10) as int))
    }
}

/// `digit_char` gives the ASCII character of each decimal digit: code point 48 + d.
pub proof fn digit_char_is_ascii_digit(d: int)
    requires
        0 <= d < 10,
    ensures
        digit_char(d) as u32 == 48 + d,
        is_digit(digit_char(d)),
{
}

/// The decimal rendering of `n` is a non-empty run of digits that reads back as `n`.
pub proof fn decimal_reads_back(n: nat)
    ensures
        decimal(n).len() >= 1,
        forall|k: int| 0 <= k < decimal(n).len() ==> is_digit(#[trigger] decimal(n)[k]),
        digits_value(decimal(n)) == n,
    decreases n,
{
    if n < 10 {
        digit_char_is_ascii_digit(n as int);
        let single = seq![digit_char(n as int)];
        assert(single.drop_last() =~= Seq::<char>::empty());
        assert(digits_value(Seq::<char>::empty()) == 0);
        assert(digits_value(single) == digits_value(single.drop_last()) * 10 + (single.last() as u32 - 48));
        assert(single.last() as u32 - 48 == n);
    } else {
        decimal_reads_back(n / 10);
        digit_char_is_ascii_digit((n % 10) as int);
        let prefix = decimal(n / 10);
        assert(prefix.push(digit_char((n % 10) as int)).drop_last() =~= prefix);
        assert(digits_value(decimal(n)) == digits_value(prefix) * 10 + (n % 10));
    }
}

/// The character of a decimal digit.
pub fn digit_to_char(d: u64) -> (c: char)
    requires
        d < 10,
    ensures
        c == digit_char(d as int),
{
    if d == 0 {
        '0'
    } else if d == 1 {
        '1'
    } else if d == 2 {
        '2'
    } else if d == 3 {
        '3'
    } else if d == 4 {
        '4'
    } else if d == 5 {
        '5'
    } else if d == 6 {
        '6'
    } else if d == 7 {
        '7'
    } else if d == 8 {
        '8'
    } else {
        '9'
    }
}

/// Appends the decimal rendering of `n` to `s`.
pub fn push_decimal(s: &mut String, n: u64)
    ensures
        final(s)@ == old(s)@ + decimal(n as nat),
    decreases n,
{
    if n < 10 {
        push_char(s, digit_to_char(n));
    } else {
        push_decimal(s, n / 10);
        push_char(s, digit_to_char(n % 10));
    }
}

/// The decimal rendering of `n`, as `format!("{}", n)` writes it.
pub fn decimal_string(n: u64) -> (s: String)
    ensures
        s@ == decimal(n as nat),
{
    let mut s = String::new();
    push_decimal(&mut s, n);
    assert(s@ =~= decimal(n as nat));
    s
}

/// A field needs quoting in CSV when it holds a comma, a double quote or a line break.
pub open spec fn needs_quotes(s: Seq<char>) -> bool {
    s.contains(',') || s.contains('"') || s.contains('\n') || s.contains('\r')
}

/// One character of a quoted CSV field: a double quote is written twice.
pub open spec fn quote_piece(c: char) -> Seq<char> {
    if c == '"' {
        seq!['"', '"']
    } else {
        seq![c]
    }
}

/// A text with every double quote doubled.
pub open spec fn double_quotes(s: Seq<char>) -> Seq<char>
    decreases s.len(),
{
    if s.len() == 0 {
        Seq::empty()
    } else {
        double_quotes(s.drop_last()) + quote_piece(s.last())
    }
}

/// A text written as one RFC 4180 CSV field.
pub open spec fn csv_field_text(s: Seq<char>) -> Seq<char> {
    if needs_quotes(s) {
        seq!['"'] + double_quotes(s) + seq!['"']
    } else {
        s
    }
}

/// The inside of a quoted CSV field read back: each doubled quote stands for one.
pub open spec fn undouble_quotes(s: Seq<char>) -> Seq<char>
    decreases s.len(),
{
    if s.len() == 0 {
        Seq::empty()
    } else if s.len() >= 2 && s.last() == '"' && s[s.len() - 2] == '"' {
        undouble_quotes(s.subrange(0, s.len() - 2)).push('"')
    } else {
        undouble_quotes(s.drop_last()).push(s.last())
    }
}

/// A CSV field read back as an RFC 4180 reader reads it.
pub open spec fn csv_field_value(f: Seq<char>) -> Seq<char> {
    if f.len() >= 2 && f[0] == '"' && f.last() == '"' {
        undouble_quotes(f.subrange(1, f.len() - 1))
    } else {
        f
    }
}

/// Writes `s` as one CSV field: quoted, with inner quotes doubled, when it holds a comma,
/// a double quote, a carriage return or a line feed; unchanged otherwise.
pub fn csv_field(s: &str) -> (r: String)
    ensures
        r@ == csv_field_text(s@),
{
    let v = chars_of(s);
    let n = v.len();
    let mut special = false;
    for i in 0..n
        invariant
            n == v.len(),
            special == needs_quotes(v@.take(i as int)),
    {
        let c = v[i];
        assert(v@.take(i + 1) =~= v@.take(i as int).push(c));
        assert forall|x: char| v@.take(i + 1).contains(x) <==> (v@.take(i as int).contains(x) || x == c) by {
            if v@.take(i + 1).contains(x) {
                let k = choose|k: int| 0 <= k < i + 1 && #[trigger] v@.take(i + 1)[k] == x;
                if k < i {
                    assert(v@.take(i as int)[k] == x);
                }
            }
            if v@.take(i as int).contains(x) {
                let k = choose|k: int| 0 <= k < i && #[trigger] v@.take(i as int)[k] == x;
                assert(v@.take(i + 1)[k] == x);
            }
            if x == c {
                assert(v@.take(i + 1)[i as int] == x);
            }
        }
        if c == ',' || c == '"' || c == '\n' || c == '\r' {
            special = true;
        }
    }
    assert(v@.take(n as int) =~= v@);
    if !special {
        return string_of(&v);
    }
    let mut r = String::new();
    push_char(&mut r, '"');
    for i in 0..n
        invariant
            n == v.len(),
            r@ == seq!['"'] + double_quotes(v@.take(i as int)),
    {
        let c = v[i];
        assert(v@.take(i + 1).drop_last() =~= v@.take(i as int));
        if c == '"' {
            push_char(&mut r, '"');
            push_char(&mut r, '"');
        } else {
            push_char(&mut r, c);
        }
        assert(r@ =~= seq!['"'] + double_quotes(v@.take(i + 1)));
    }
    push_char(&mut r, '"');
    r
}

/// Reading back a field written by `csv_field` gives back the text it was given.
pub proof fn csv_field_round_trip(s: Seq<char>)
    ensures
        csv_field_value(csv_field_text(s)) == s,
{
    if needs_quotes(s) {
        let f = seq!['"'] + double_quotes(s) + seq!['"'];
        assert(f.subrange(1, f.len() - 1) =~= double_quotes(s));
        undouble_after_double(s);
    } else {
        if s.len() >= 2 && s[0] == '"' {
            assert(s.contains('"'));
        }
    }
}

/// Undoubling the quotes of a text whose quotes were doubled gives the text back.
pub proof fn undouble_after_double(s: Seq<char>)
    ensures
        undouble_quotes(double_quotes(s)) == s,
    decreases s.len(),
{
    if s.len() > 0 {
        let d = double_quotes(s);
        let prev = double_quotes(s.drop_last());
        undouble_after_double(s.drop_last());
        if s.last() == '"' {
            assert(d =~= prev + seq!['"', '"']);
            assert(d.subrange(0, d.len() - 2) =~= prev);
        } else {
            assert(d =~= prev.push(s.last()));
            assert(d.drop_last() =~= prev);
        }
        assert(s.drop_last().push(s.last()) =~= s);
    }
}


/// Number of bytes of a character in UTF-8.
pub open spec fn utf8_width(c: char) -> nat {
    if (c as u32) < 0x80 {
        1
    } else if (c as u32) < 0x800 {
        2
    } else if (c as u32) < 0x10000 {
        3
    } else {
        4
    }
}

/// Number of bytes of a text in UTF-8 (what `str::len` gives).
pub open spec fn utf8_len(s: Seq<char>) -> nat
    decreases s.len(),
{
    if s.len() == 0 {
        0
    } else {
        utf8_len(s.drop_last()) + utf8_width(s.last())
    }
}

proof fn utf8_len_prefix(s: Seq<char>, i: int)
    requires
        0 <= i <= s.len(),
    ensures
        utf8_len(s.take(i)) <= utf8_len(s),
    decreases s.len(),
{
    if i < s.len() {
        assert(s.drop_last().take(i) =~= s.take(i));
        utf8_len_prefix(s.drop_last(), i);
    } else {
        assert(s.take(i) =~= s);
    }
}

/// Tests whether a text takes at least `min` bytes in UTF-8.
pub fn utf8_len_at_least(s: &Vec<char>, min: u64) -> (r: bool)
    ensures
        r == (utf8_len(s@) >= min),
{
    if min == 0 {
        return true;
    }
    let n = s.len();
    let mut acc: u64 = 0;
    for i in 0..n
        invariant
            n == s.len(),
            acc == utf8_len(s@.take(i as int)),
            acc < min,
    {
        let code = s[i] as u32;
        let w: u64 = if code < 0x80 {
            1
        } else if code < 0x800 {
            2
        } else if code < 0x10000 {
            3
        } else {
            4
        };
        assert(s@.take(i + 1).drop_last() =~= s@.take(i as int));
        if w >= min - acc {
            proof {
                utf8_len_prefix(s@, i + 1);
            }
            return true;
        }
        acc = acc + w;
    }
    assert(s@.take(n as int) =~= s@);
    false
}

} // verus!
