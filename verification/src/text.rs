//! Character-level string helpers: trimming, shortening, decimal and
//! hexadecimal formatting, padding.
use vstd::prelude::*;
use vstd::string::*;

verus! {

/// Appends one character to a string (`String::push`).
#[verifier::external_body]
pub(crate) fn push_char(s: &mut String, c: char)
    ensures
        final(s)@ == old(s)@.push(c),
{
    s.push(c);
}

/// A string holding the characters of a literal or a slice.
pub fn owned(s: &str) -> (r: String)
    ensures
        r@ == s@,
{
    String::from_str(s)
}

/// Appends `t` to `s`.
pub fn push_str(s: &mut String, t: &str)
    ensures
        final(s)@ == old(s)@ + t@,
{
    s.append(t);
}

/// Whitespace in the sense of Unicode's `White_Space` property, which is what
/// `char::is_whitespace` and `str::trim` go by.
pub open spec fn is_ws(c: char) -> bool {
    ||| ('\t' <= c && c <= '\r')
    ||| c == ' '
    ||| c == '\u{85}'
    ||| c == '\u{a0}'
    ||| c == '\u{1680}'
    ||| ('\u{2000}' <= c && c <= '\u{200a}')
    ||| c == '\u{2028}'
    ||| c == '\u{2029}'
    ||| c == '\u{202f}'
    ||| c == '\u{205f}'
    ||| c == '\u{3000}'
}

/// Whether `c` is whitespace.
pub fn is_whitespace(c: char) -> (b: bool)
    ensures
        b == is_ws(c),
{
    ('\t' <= c && c <= '\r') || c == ' ' || c == '\u{85}' || c == '\u{a0}' || c == '\u{1680}'
        || ('\u{2000}' <= c && c <= '\u{200a}') || c == '\u{2028}' || c == '\u{2029}' || c
        == '\u{202f}' || c == '\u{205f}' || c == '\u{3000}'
}

/// `s` without its leading and trailing whitespace.
pub open spec fn trimmed(s: Seq<char>) -> Seq<char>
    decreases s.len(),
{
    if s.len() == 0 {
        s
    } else if is_ws(s[0]) {
        trimmed(s.drop_first())
    } else if is_ws(s.last()) {
        trimmed(s.drop_last())
    } else {
        s
    }
}

/// The characters of `s`, one by one.
pub fn chars_of(s: &str) -> (v: Vec<char>)
    ensures
        v@ == s@,
{
    let mut v: Vec<char> = Vec::new();
    for c in it: s.chars()
        invariant
            it.seq() == s@,
            v.len() == it.index(),
            v@ == s@.take(it.index() as int),
    {
        v.push(c);
    }
    v
}

/// The string made of `v[from..to]`.
pub fn string_of_range(v: &Vec<char>, from: usize, to: usize) -> (r: String)
    requires
        from <= to <= v.len(),
    ensures
        r@ == v@.subrange(from as int, to as int),
{
    let mut r = String::new();
    let mut i = from;
    while i < to
        invariant
            from <= i <= to <= v.len(),
            r@ == v@.subrange(from as int, i as int),
        decreases to - i,
    {
        push_char(&mut r, v[i]);
        assert(v@.subrange(from as int, i + 1) == v@.subrange(from as int, i as int).push(v@[i as int]));
        i = i + 1;
    }
    r
}

/// `s` with leading and trailing whitespace removed (`str::trim`).
pub fn trim(s: &str) -> (r: String)
    ensures
        r@ == trimmed(s@),
{
    let v = chars_of(s);
    let mut a: usize = 0;
    let mut b: usize = v.len();
    assert(v@.subrange(0, v@.len() as int) == v@);
    while a < b && is_whitespace(v[a])
        invariant
            a <= b <= v.len(),
            trimmed(s@) == trimmed(v@.subrange(a as int, b as int)),
            v@ == s@,
        decreases b - a,
    {
        assert(v@.subrange(a as int, b as int).drop_first() == v@.subrange(a + 1, b as int));
        a = a + 1;
    }
    while a < b && is_whitespace(v[b - 1])
        invariant
            a <= b <= v.len(),
            trimmed(s@) == trimmed(v@.subrange(a as int, b as int)),
            a < b ==> !is_ws(v@[a as int]),
            v@ == s@,
        decreases b - a,
    {
        assert(v@.subrange(a as int, b as int).drop_last() == v@.subrange(a as int, b - 1));
        b = b - 1;
    }
    string_of_range(&v, a, b)
}

/// `s` with every trailing `c` removed (`str::trim_end_matches` with a char).
pub open spec fn strip_trailing(s: Seq<char>, c: char) -> Seq<char>
    decreases s.len(),
{
    if s.len() > 0 && s.last() == c {
        strip_trailing(s.drop_last(), c)
    } else {
        s
    }
}

/// `s` without the trailing copies of `c`.
pub fn trim_end_char(s: &str, c: char) -> (r: String)
    ensures
        r@ == strip_trailing(s@, c),
{
    let v = chars_of(s);
    let mut b: usize = v.len();
    assert(v@.subrange(0, v@.len() as int) == v@);
    while b > 0 && v[b - 1] == c
        invariant
            b <= v.len(),
            v@ == s@,
            strip_trailing(s@, c) == strip_trailing(v@.subrange(0, b as int), c),
        decreases b,
    {
        assert(v@.subrange(0, b as int).drop_last() == v@.subrange(0, b - 1));
        b = b - 1;
    }
    string_of_range(&v, 0, b)
}

/// The first `n` characters of `s` (all of them when it has fewer).
pub open spec fn prefix(s: Seq<char>, n: int) -> Seq<char> {
    if n <= s.len() {
        s.take(n)
    } else {
        s
    }
}

/// The first `n` characters of `s` (`s.chars().take(n).collect()`).
pub fn take_chars(s: &str, n: usize) -> (r: String)
    ensures
        r@ == prefix(s@, n as int),
{
    let mut r = String::new();
    let mut k: usize = 0;
    for c in it: s.chars()
        invariant
            it.seq() == s@,
            k <= n,
            k <= it.index(),
            k == n || k == it.index(),
            r@ == s@.take(k as int),
    {
        if k < n {
            push_char(&mut r, c);
            k = k + 1;
        }
    }
    r
}

/// The character that ends a shortened text.
pub const ELLIPSIS: char = '\u{2026}';

/// `s` shortened to at most `max` characters: unchanged when it fits, else its
/// first `max - 1` characters followed by an ellipsis.
pub open spec fn shortened(s: Seq<char>, max: nat) -> Seq<char> {
    if s.len() <= max {
        s
    } else {
        s.take(if max == 0 { 0 } else { max - 1 }).push(ELLIPSIS)
    }
}

/// Shortens `s` for display to at most `max` characters (for `max > 0`).
pub fn truncate(s: &str, max: usize) -> (r: String)
    ensures
        r@ == shortened(s@, max as nat),
{
    let v = chars_of(s);
    if v.len() <= max {
        owned(s)
    } else {
        let keep = if max == 0 { 0 } else { max - 1 };
        let mut r = string_of_range(&v, 0, keep);
        push_char(&mut r, ELLIPSIS);
        r
    }
}

/// The decimal digit for `d < 10`.
pub open spec fn digit(d: nat) -> char {
    (48 + d) as char
}

/// The decimal notation of `n`, without leading zeros.
pub open spec fn decimal(n: nat) -> Seq<char>
    decreases n,
{
    if n < 10 {
        seq![digit(n)]
    } else {
        decimal(n / 10).push(digit(n % 10))
    }
}

/// The decimal notation of an integer, with a minus sign when it is negative.
pub open spec fn signed_decimal(n: int) -> Seq<char> {
    if n < 0 {
        seq!['-'] + decimal((-n) as nat)
    } else {
        decimal(n as nat)
    }
}

fn digit_char(d: u64) -> (c: char)
    requires
        d < 10,
    ensures
        c == digit(d as nat),
{
    let b: u8 = 48 + (d as u8);
    b as char
}

/// Appends the decimal notation of `n` to `s`.
pub fn push_decimal(s: &mut String, n: u64)
    ensures
        final(s)@ == old(s)@ + decimal(n as nat),
    decreases n,
{
    if n >= 10 {
        push_decimal(s, n / 10);
    }
    push_char(s, digit_char(n % 10));
    proof {
        if n >= 10 {
            assert(decimal(n as nat) == decimal((n / 10) as nat).push(digit((n % 10) as nat)));
        }
        assert(old(s)@ + decimal(n as nat) == final(s)@) by {
            if n >= 10 {
                assert(final(s)@ == (old(s)@ + decimal((n / 10) as nat)).push(digit((n % 10) as nat)));
            }
        }
    }
}

/// Appends the decimal notation of a signed integer to `s`.
pub fn push_signed_decimal(s: &mut String, n: i64)
    ensures
        final(s)@ == old(s)@ + signed_decimal(n as int),
{
    if n < 0 {
        push_char(s, '-');
        let m: u64 = ((-(n + 1)) as u64) + 1;
        push_decimal(s, m);
        assert(old(s)@.push('-') + decimal(m as nat) == old(s)@ + (seq!['-'] + decimal(m as nat)));
    } else {
        push_decimal(s, n as u64);
    }
}

/// The decimal notation of `n` (`n.to_string()`).
pub fn fmt_u64(n: u64) -> (r: String)
    ensures
        r@ == decimal(n as nat),
{
    let mut r = String::new();
    push_decimal(&mut r, n);
    assert(Seq::<char>::empty() + decimal(n as nat) == decimal(n as nat));
    r
}

/// The decimal notation of a signed integer (`n.to_string()`).
pub fn fmt_i64(n: i64) -> (r: String)
    ensures
        r@ == signed_decimal(n as int),
{
    let mut r = String::new();
    push_signed_decimal(&mut r, n);
    assert(Seq::<char>::empty() + signed_decimal(n as int) == signed_decimal(n as int));
    r
}

/// `s` right-aligned in a field of `width` characters (`format!("{s:>width$}")`).
pub open spec fn pad_left(s: Seq<char>, width: nat) -> Seq<char> {
    if s.len() < width {
        Seq::new((width - s.len()) as nat, |_i: int| ' ') + s
    } else {
        s
    }
}

/// Right-aligns `s` in a field of `width` characters.
pub fn align_right(s: &str, width: usize) -> (r: String)
    ensures
        r@ == pad_left(s@, width as nat),
{
    let v = chars_of(s);
    let mut r = String::new();
    if v.len() < width {
        let fill = width - v.len();
        let mut i: usize = 0;
        while i < fill
            invariant
                i <= fill,
                r@ == Seq::new(i as nat, |_i: int| ' '),
            decreases fill - i,
        {
            push_char(&mut r, ' ');
            i = i + 1;
            assert(r@ == Seq::new(i as nat, |_i: int| ' '));
        }
    }
    push_str(&mut r, s);
    r
}

/// The lower-case hexadecimal digit for `d < 16`.
pub open spec fn hex_digit(d: nat) -> char {
    if d < 10 {
        (48 + d) as char
    } else {
        (87 + d) as char
    }
}

/// The four lower-case hexadecimal digits of `n`, zero-padded (`format!("{n:04x}")`).
pub open spec fn hex4(n: u16) -> Seq<char> {
    seq![
        hex_digit((n / 4096) as nat),
        hex_digit(((n / 256) % 16) as nat),
        hex_digit(((n / 16) % 16) as nat),
        hex_digit((n % 16) as nat),
    ]
}

fn hex_char(d: u16) -> (c: char)
    requires
        d < 16,
    ensures
        c == hex_digit(d as nat),
{
    let b: u8 = if d < 10 { 48 + (d as u8) } else { 87 + (d as u8) };
    b as char
}

/// Formats `n` as four lower-case hexadecimal digits.
pub fn fmt_hex4(n: u16) -> (r: String)
    ensures
        r@ == hex4(n),
{
    let mut r = String::new();
    push_char(&mut r, hex_char(n / 4096));
    push_char(&mut r, hex_char((n / 256) % 16));
    push_char(&mut r, hex_char((n / 16) % 16));
    push_char(&mut r, hex_char(n % 16));
    r
}

/// `a` comes no later than `b` in the order of their characters' code
/// points, which is the byte order of their UTF-8 encodings (`String`'s `Ord`).
pub open spec fn lex_le(a: Seq<char>, b: Seq<char>) -> bool
    decreases a.len(),
{
    if a.len() == 0 {
        true
    } else if b.len() == 0 {
        false
    } else if a[0] != b[0] {
        (a[0] as int) < (b[0] as int)
    } else {
        lex_le(a.drop_first(), b.drop_first())
    }
}

/// Any two texts are ordered one way or the other.
pub proof fn lemma_lex_total(a: Seq<char>, b: Seq<char>)
    ensures
        lex_le(a, b) || lex_le(b, a),
    decreases a.len(),
{
    if a.len() > 0 && b.len() > 0 && a[0] == b[0] {
        lemma_lex_total(a.drop_first(), b.drop_first());
    }
}

/// Texts ordered both ways are equal.
pub proof fn lemma_lex_antisymmetric(a: Seq<char>, b: Seq<char>)
    requires
        lex_le(a, b),
        lex_le(b, a),
    ensures
        a == b,
    decreases a.len(),
{
    if a.len() > 0 && b.len() > 0 {
        lemma_lex_antisymmetric(a.drop_first(), b.drop_first());
        assert(a == seq![a[0]] + a.drop_first());
        assert(b == seq![b[0]] + b.drop_first());
    }
}

/// The order is transitive.
pub proof fn lemma_lex_transitive(a: Seq<char>, b: Seq<char>, c: Seq<char>)
    requires
        lex_le(a, b),
        lex_le(b, c),
    ensures
        lex_le(a, c),
    decreases a.len(),
{
    if a.len() > 0 && b.len() > 0 && c.len() > 0 && a[0] == b[0] && b[0] == c[0] {
        lemma_lex_transitive(a.drop_first(), b.drop_first(), c.drop_first());
    }
}

/// Whether `a` comes no later than `b` (`a <= b` on strings).
pub fn str_le(a: &str, b: &str) -> (r: bool)
    ensures
        r == lex_le(a@, b@),
{
    let x = chars_of(a);
    let y = chars_of(b);
    let mut i: usize = 0;
    assert(a@.skip(0) == a@ && b@.skip(0) == b@);
    while i < x.len() && i < y.len() && x[i] == y[i]
        invariant
            i <= x.len(),
            i <= y.len(),
            x@ == a@,
            y@ == b@,
            lex_le(a@, b@) == lex_le(a@.skip(i as int), b@.skip(i as int)),
        decreases x.len() - i,
    {
        assert(a@.skip(i as int).drop_first() == a@.skip(i + 1));
        assert(b@.skip(i as int).drop_first() == b@.skip(i + 1));
        i = i + 1;
    }
    if i == x.len() {
        true
    } else if i == y.len() {
        false
    } else {
        x[i] < y[i]
    }
}

/// Trimming leaves no whitespace at either end, keeps a contiguous part of
/// the text, and trimming again changes nothing.
pub proof fn lemma_trimmed(s: Seq<char>)
    ensures
        trimmed(s).len() > 0 ==> !is_ws(trimmed(s)[0]) && !is_ws(trimmed(s).last()),
        exists|a: int, b: int| 0 <= a <= b <= s.len() && trimmed(s) == s.subrange(a, b),
        trimmed(trimmed(s)) == trimmed(s),
    decreases s.len(),
{
    if s.len() == 0 {
        assert(trimmed(s) == s.subrange(0, 0));
    } else if is_ws(s[0]) {
        lemma_trimmed(s.drop_first());
        let (a, b) = choose|a: int, b: int|
            0 <= a <= b <= s.drop_first().len() && trimmed(s.drop_first()) == s.drop_first().subrange(a, b);
        assert(s.drop_first().subrange(a, b) == s.subrange(a + 1, b + 1));
    } else if is_ws(s.last()) {
        lemma_trimmed(s.drop_last());
        let (a, b) = choose|a: int, b: int|
            0 <= a <= b <= s.drop_last().len() && trimmed(s.drop_last()) == s.drop_last().subrange(a, b);
        assert(s.drop_last().subrange(a, b) == s.subrange(a, b));
    } else {
        assert(trimmed(s) == s.subrange(0, s.len() as int));
    }
}

/// A shortened text has at most `max` characters (for `max > 0`) and starts
/// like the text it shortens.
pub proof fn lemma_shortened(s: Seq<char>, max: nat)
    requires
        max > 0,
    ensures
        shortened(s, max).len() <= max,
        shortened(s, max).len() == if s.len() <= max { s.len() } else { max },
        s.len() > max ==> shortened(s, max) == s.take(max - 1).push(ELLIPSIS),
        s.len() <= max ==> shortened(s, max) == s,
{
}

/// Decimal notation has no leading zero and reads back as the number.
pub open spec fn digits_value(d: Seq<char>) -> int
    decreases d.len(),
{
    if d.len() == 0 {
        0
    } else {
        digits_value(d.drop_last()) * 10 + (d.last() as int - 48)
    }
}

/// The decimal notation of `n` consists of digits, starts with a non-zero
/// digit unless `n` is zero, and its value is `n`.
pub proof fn lemma_decimal(n: nat)
    ensures
        decimal(n).len() >= 1,
        forall|i: int| 0 <= i < decimal(n).len() ==> '0' <= #[trigger] decimal(n)[i] <= '9',
        n > 0 ==> decimal(n)[0] != '0',
        digits_value(decimal(n)) == n,
    decreases n,
{
    if n >= 10 {
        lemma_decimal(n / 10);
        let d = decimal(n / 10);
        assert(decimal(n) == d.push(digit(n % 10)));
        assert(decimal(n).drop_last() == d);
        assert(digit(n % 10) as int == 48 + n % 10);
        assert(n == (n / 10) * 10 + n % 10);
        assert(decimal(n).last() == digit(n % 10));
        assert(digits_value(decimal(n)) == digits_value(d) * 10 + (digit(n % 10) as int - 48));
        assert forall|i: int| 0 <= i < decimal(n).len() implies '0' <= #[trigger] decimal(n)[i] <= '9' by {
            if i < d.len() {
                assert(decimal(n)[i] == d[i]);
            }
        }
    } else {
        assert(decimal(n).drop_last() == Seq::<char>::empty());
        assert(digit(n) as int == 48 + n);
        assert(decimal(n).last() == digit(n));
        assert(digits_value(decimal(n)) == digits_value(Seq::<char>::empty()) * 10 + (digit(n) as int - 48));
    }
}

pub(crate) proof fn lemma_hex_digit(a: nat, b: nat)
    requires
        a < 16,
        b < 16,
    ensures
        hex_digit(a) as int == if a < 10 { 48 + a } else { 87 + a },
        '0' <= hex_digit(a) <= '9' || 'a' <= hex_digit(a) <= 'f',
        hex_digit(a) == hex_digit(b) ==> a == b,
{
    assert(hex_digit(b) as int == if b < 10 { 48 + b } else { 87 + b });
}

/// Different numbers get different task ids: `hex4` is one-to-one, and an
/// id is four lower-case hexadecimal digits.
#[verifier::spinoff_prover]
pub proof fn lemma_hex4(n: u16, m: u16)
    ensures
        hex4(n).len() == 4,
        forall|i: int| 0 <= i < 4 ==> ('0' <= #[trigger] hex4(n)[i] <= '9' || 'a' <= hex4(n)[i] <= 'f'),
        hex4(n) == hex4(m) ==> n == m,
{
    let (a0, a1, a2, a3) = ((n / 4096) as nat, ((n / 256) % 16) as nat, ((n / 16) % 16) as nat, (n % 16) as nat);
    let (b0, b1, b2, b3) = ((m / 4096) as nat, ((m / 256) % 16) as nat, ((m / 16) % 16) as nat, (m % 16) as nat);
    lemma_hex_digit(a0, b0);
    lemma_hex_digit(a1, b1);
    lemma_hex_digit(a2, b2);
    lemma_hex_digit(a3, b3);
    assert(hex4(n)[0] == hex_digit(a0) && hex4(n)[1] == hex_digit(a1) && hex4(n)[2] == hex_digit(a2)
        && hex4(n)[3] == hex_digit(a3));
    if hex4(n) == hex4(m) {
        assert(hex4(m)[0] == hex_digit(b0) && hex4(m)[1] == hex_digit(b1) && hex4(m)[2]
            == hex_digit(b2) && hex4(m)[3] == hex_digit(b3));
        assert(a0 == b0 && a1 == b1 && a2 == b2 && a3 == b3);
        assert(n / 4096 == m / 4096 && (n / 256) % 16 == (m / 256) % 16 && (n / 16) % 16 == (m
            / 16) % 16 && n % 16 == m % 16 ==> n == m) by (bit_vector);
    }
}

} // verus!
