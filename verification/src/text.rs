//! Character-level text helpers shared by the rest of the library.
use vstd::arithmetic::div_mod::lemma_mod_breakdown;
use vstd::prelude::*;

verus! {

/// The characters with the Unicode property White_Space, which `char::is_whitespace` and
/// `str::trim` go by: tab to carriage return, space, next line, no-break space, ogham
/// space mark, the spaces from en quad to hair space, line and paragraph separator, narrow
/// no-break space, medium mathematical space and ideographic space.
pub open spec fn is_white_space(c: char) -> bool {
    let n = c as u32;
    ||| 0x09 <= n <= 0x0D
    ||| n == 0x20
    ||| n == 0x85
    ||| n == 0xA0
    ||| n == 0x1680
    ||| 0x2000 <= n <= 0x200A
    ||| n == 0x2028
    ||| n == 0x2029
    ||| n == 0x202F
    ||| n == 0x205F
    ||| n == 0x3000
}

/// `s` without the white space at its start.
pub open spec fn trim_start(s: Seq<char>) -> Seq<char>
    decreases s.len(),
{
    if s.len() > 0 && is_white_space(s[0]) {
        trim_start(s.drop_first())
    } else {
        s
    }
}

/// `s` without the white space at its end.
pub open spec fn trim_end(s: Seq<char>) -> Seq<char>
    decreases s.len(),
{
    if s.len() > 0 && is_white_space(s.last()) {
        trim_end(s.drop_last())
    } else {
        s
    }
}

/// The text that `str::trim` leaves of `s`: `s` without the white space at either end.
pub open spec fn spec_trim(s: Seq<char>) -> Seq<char> {
    trim_end(trim_start(s))
}

/// A text that neither starts nor ends with white space is left as it is by trimming.
pub proof fn lemma_trim_unpadded(s: Seq<char>)
    requires
        s.len() > 0,
        !is_white_space(s[0]),
        !is_white_space(s.last()),
    ensures
        spec_trim(s) == s,
{
}

/// `str::trim`: the input with its leading and trailing Unicode white space removed, as
/// the documentation defines it (the White_Space property).
#[verifier::external_body]
pub(crate) fn str_trim(s: &str) -> (r: &str)
    ensures
        r@ == spec_trim(s@),
{
    s.trim()
}

/// `String::from_iter` over characters: the string holds exactly the given characters.
#[verifier::external_body]
pub(crate) fn string_from_chars(chars: &[char]) -> (r: String)
    ensures
        r@ == chars@,
{
    chars.iter().collect::<String>()
}

/// The characters of a string slice, in order.
pub fn chars_of(s: &str) -> (r: Vec<char>)
    ensures
        r@ == s@,
{
    let mut out: Vec<char> = Vec::new();
    for c in it: s.chars()
        invariant
            it.seq() == s@,
            out@ == it.seq().take(it.index() as int),
    {
        out.push(c);
    }
    assert(out@ =~= s@);
    out
}

/// Whether two texts are equal, character by character.
pub fn text_eq(a: &str, b: &str) -> (same: bool)
    ensures
        same == (a@ == b@),
{
    let x = chars_of(a);
    let y = chars_of(b);
    if x.len() != y.len() {
        return false;
    }
    let mut i: usize = 0;
    while i < x.len()
        invariant
            x@ == a@,
            y@ == b@,
            x@.len() == y@.len(),
            i <= x@.len(),
            forall|k: int| 0 <= k < i ==> x@[k] == y@[k],
        decreases x@.len() - i,
    {
        if x[i] != y[i] {
            return false;
        }
        i = i + 1;
    }
    assert(x@ =~= y@);
    true
}

/// Appends all of `src` to `dst`.
pub fn extend_chars(dst: &mut Vec<char>, src: &[char])
    ensures
        final(dst)@ == old(dst)@ + src@,
{
    let mut i: usize = 0;
    while i < src.len()
        invariant
            i <= src@.len(),
            dst@ == old(dst)@ + src@.take(i as int),
        decreases src@.len() - i,
    {
        dst.push(src[i]);
        i = i + 1;
        assert(src@.take(i as int) == src@.take(i - 1).push(src@[i - 1]));
    }
    assert(src@.take(i as int) =~= src@);
}

// ---------------------------------------------------------------------------
// Decimal digits
// ---------------------------------------------------------------------------
/// The ASCII digit for a value below ten.
pub open spec fn spec_digit_char(d: nat) -> char {
    if d == 0 {
        '0'
    } else if d == 1 {
        '1'
    } else if d == 2 {
        '2'
    } else if d == 3 {
        '3'
    } else if d == 4 {
        '4'
    } else if d == 5 {
        '5'
    } else if d == 6 {
        '6'
    } else if d == 7 {
        '7'
    } else if d == 8 {
        '8'
    } else {
        '9'
    }
}

fn digit_char(d: u64) -> (c: char)
    requires
        d < 10,
    ensures
        c == spec_digit_char(d as nat),
{
    if d == 0 {
        '0'
    } else if d == 1 {
        '1'
    } else if d == 2 {
        '2'
    } else if d == 3 {
        '3'
    } else if d == 4 {
        '4'
    } else if d == 5 {
        '5'
    } else if d == 6 {
        '6'
    } else if d == 7 {
        '7'
    } else if d == 8 {
        '8'
    } else {
        '9'
    }
}

/// The decimal representation of `n`, without sign or leading zeros.
pub open spec fn decimal_digits(n: nat) -> Seq<char>
    decreases n,
{
    if n < 10 {
        seq![spec_digit_char(n)]
    } else {
        decimal_digits(n / 10).push(spec_digit_char(n % 10))
    }
}

/// Writes `n` in decimal, as `format!("{n}")` does.
pub fn decimal_chars(n: u64) -> (r: Vec<char>)
    ensures
        r@ == decimal_digits(n as nat),
    decreases n,
{
    if n < 10 {
        let mut v: Vec<char> = Vec::new();
        v.push(digit_char(n));
        v
    } else {
        let mut v = decimal_chars(n / 10);
        v.push(digit_char(n % 10));
        v
    }
}

// ---------------------------------------------------------------------------
// Hexadecimal digits
// ---------------------------------------------------------------------------
/// The value of a hexadecimal digit, in either case.
pub open spec fn hex_digit_value(c: char) -> Option<nat> {
    if '0' <= c && c <= '9' {
        Some((c as nat - '0' as nat) as nat)
    } else if 'a' <= c && c <= 'f' {
        Some((c as nat - 'a' as nat + 10) as nat)
    } else if 'A' <= c && c <= 'F' {
        Some((c as nat - 'A' as nat + 10) as nat)
    } else {
        None
    }
}

/// The value of a string of hexadecimal digits (most significant first); `None` when a
/// character is not a hexadecimal digit.
pub open spec fn hex_value(digits: Seq<char>) -> Option<nat>
    decreases digits.len(),
{
    if digits.len() == 0 {
        Some(0)
    } else {
        match (hex_value(digits.drop_last()), hex_digit_value(digits.last())) {
            (Some(v), Some(d)) => Some(v * 16 + d),
            _ => None,
        }
    }
}

/// What `u64::from_str_radix(s, 16)` accepts: an optional `+`, then at least one
/// hexadecimal digit, whose value fits in 64 bits.
pub open spec fn spec_parse_hex_u64(s: Seq<char>) -> Option<u64> {
    let digits = if s.len() > 0 && s[0] == '+' {
        s.drop_first()
    } else {
        s
    };
    if digits.len() == 0 {
        None
    } else {
        match hex_value(digits) {
            Some(v) => if v <= u64::MAX {
                Some(v as u64)
            } else {
                None
            },
            None => None,
        }
    }
}

fn hex_digit(c: char) -> (r: Option<u64>)
    ensures
        match hex_digit_value(c) {
            Some(d) => r == Some(d as u64),
            None => r is None,
        },
{
    if '0' <= c && c <= '9' {
        Some((c as u32 - '0' as u32) as u64)
    } else if 'a' <= c && c <= 'f' {
        Some((c as u32 - 'a' as u32 + 10) as u64)
    } else if 'A' <= c && c <= 'F' {
        Some((c as u32 - 'A' as u32 + 10) as u64)
    } else {
        None
    }
}

proof fn lemma_hex_value_prefix(d: Seq<char>, k: nat, m: nat)
    requires
        k < m <= d.len(),
        hex_value(d.take(m as int)) is Some,
    ensures
        hex_value(d.take(k as int)) is Some,
        hex_digit_value(d[k as int]) is Some,
        hex_value(d.take(k as int))->0 * 16 + hex_digit_value(d[k as int])->0 <= hex_value(
            d.take(m as int),
        )->0,
    decreases m - k,
{
    let t = d.take(m as int);
    assert(t.drop_last() =~= d.take(m - 1));
    if k + 1 < m {
        lemma_hex_value_prefix(d, k, (m - 1) as nat);
    } else {
        assert(t.last() == d[k as int]);
    }
}

/// Parses a hexadecimal number as `u64::from_str_radix(s, 16)` does.
pub fn parse_hex_u64(s: &str) -> (r: Option<u64>)
    ensures
        r == spec_parse_hex_u64(s@),
{
    let chars = chars_of(s);
    let n = chars.len();
    let start: usize = if n > 0 && chars[0] == '+' {
        1
    } else {
        0
    };
    let ghost digits = if s@.len() > 0 && s@[0] == '+' {
        s@.drop_first()
    } else {
        s@
    };
    assert(digits =~= chars@.subrange(start as int, n as int));
    if start == n {
        return None;
    }
    let mut acc: u64 = 0;
    let mut j: usize = start;
    while j < n
        invariant
            start <= j <= n,
            n == chars@.len(),
            chars@ == s@,
            start < n,
            digits == chars@.subrange(start as int, n as int),
            digits == (if s@.len() > 0 && s@[0] == '+' {
                s@.drop_first()
            } else {
                s@
            }),
            hex_value(digits.take(j - start)) == Some(acc as nat),
        decreases n - j,
    {
        let ghost k: nat = (j - start) as nat;
        assert(digits.take((k + 1) as int).drop_last() =~= digits.take(k as int));
        assert(digits[k as int] == chars@[j as int]);
        match hex_digit(chars[j]) {
            None => {
                proof {
                    assert(hex_digit_value(digits[k as int]) is None);
                    if hex_value(digits) is Some {
                        assert(digits.take(digits.len() as int) =~= digits);
                        lemma_hex_value_prefix(digits, k, digits.len());
                        assert(false);
                    }
                }
                return None;
            },
            Some(dv) => {
                if acc > (u64::MAX - dv) / 16 {
                    proof {
                        assert(acc * 16 + dv > u64::MAX) by (nonlinear_arith)
                            requires
                                acc > (u64::MAX - dv) / 16,
                                dv < 16,
                        ;
                        if hex_value(digits) is Some {
                            assert(digits.take(digits.len() as int) =~= digits);
                            lemma_hex_value_prefix(digits, k, digits.len());
                            assert(hex_value(digits)->0 > u64::MAX);
                        }
                    }
                    return None;
                }
                assert(acc * 16 + dv <= u64::MAX) by (nonlinear_arith)
                    requires
                        acc <= (u64::MAX - dv) / 16,
                        dv < 16,
                ;
                acc = acc * 16 + dv;
                j = j + 1;
            },
        }
    }
    assert(digits.take(digits.len() as int) =~= digits);
    Some(acc)
}

/// The lower-case hexadecimal digit for a value below sixteen.
pub open spec fn spec_hex_char(d: nat) -> char {
    if d < 10 {
        spec_digit_char(d)
    } else if d == 10 {
        'a'
    } else if d == 11 {
        'b'
    } else if d == 12 {
        'c'
    } else if d == 13 {
        'd'
    } else if d == 14 {
        'e'
    } else {
        'f'
    }
}

fn hex_char(d: u64) -> (c: char)
    requires
        d < 16,
    ensures
        c == spec_hex_char(d as nat),
{
    if d < 10 {
        digit_char(d)
    } else if d == 10 {
        'a'
    } else if d == 11 {
        'b'
    } else if d == 12 {
        'c'
    } else if d == 13 {
        'd'
    } else if d == 14 {
        'e'
    } else {
        'f'
    }
}

/// The `width` lowest hexadecimal digits of `h`, zero-padded, most significant first
/// (what `format!("{h:0width$x}")` writes when `h` has at most `width` digits).
pub open spec fn hex_fixed(h: nat, width: nat) -> Seq<char>
    decreases width,
{
    if width == 0 {
        Seq::empty()
    } else {
        hex_fixed(h / 16, (width - 1) as nat).push(spec_hex_char(h % 16))
    }
}

fn hex_fixed_chars(h: u64, width: usize) -> (r: Vec<char>)
    ensures
        r@ == hex_fixed(h as nat, width as nat),
    decreases width,
{
    if width == 0 {
        Vec::new()
    } else {
        let mut v = hex_fixed_chars(h / 16, width - 1);
        v.push(hex_char(h % 16));
        v
    }
}

/// Formats a hash as sixteen lower-case hexadecimal digits, as `format!("{h:016x}")`.
pub fn format_hex_016(h: u64) -> (r: String)
    ensures
        r@ == hex_fixed(h as nat, 16),
{
    let v = hex_fixed_chars(h, 16);
    string_from_chars(v.as_slice())
}

proof fn lemma_hex_fixed_value(h: nat, width: nat)
    ensures
        hex_fixed(h, width).len() == width,
        hex_value(hex_fixed(h, width)) == Some(h % pow16(width)),
    decreases width,
{
    if width == 0 {
        assert(hex_fixed(h, 0) =~= Seq::<char>::empty());
    } else {
        lemma_hex_fixed_value(h / 16, (width - 1) as nat);
        let s = hex_fixed(h, width);
        assert(s.drop_last() =~= hex_fixed(h / 16, (width - 1) as nat));
        assert(hex_digit_value(spec_hex_char(h % 16)) == Some(h % 16));
        lemma_pow16_positive((width - 1) as nat);
        lemma_mod_breakdown(h as int, 16, pow16((width - 1) as nat) as int);
    }
}

proof fn lemma_pow16_positive(n: nat)
    ensures
        pow16(n) > 0,
    decreases n,
{
    if n > 0 {
        lemma_pow16_positive((n - 1) as nat);
    }
}

/// Sixteen to the power `n`.
pub open spec fn pow16(n: nat) -> nat
    decreases n,
{
    if n == 0 {
        1
    } else {
        16 * pow16((n - 1) as nat)
    }
}

/// Writing a hash with `format_hex_016` and reading it back with `parse_hex_u64` gives the
/// hash again.
pub proof fn lemma_hex_roundtrip(h: u64)
    ensures
        spec_parse_hex_u64(hex_fixed(h as nat, 16)) == Some(h),
{
    lemma_hex_fixed_value(h as nat, 16);
    assert(pow16(16) == 0x1_0000_0000_0000_0000) by {
        reveal_with_fuel(pow16, 17);
    }
    let s = hex_fixed(h as nat, 16);
    assert(s[0] != '+') by {
        lemma_hex_chars_are_digits(h as nat, 16);
    }
}

proof fn lemma_hex_chars_are_digits(h: nat, width: nat)
    ensures
        forall|i: int|
            0 <= i < hex_fixed(h, width).len() ==> hex_digit_value(#[trigger] hex_fixed(h, width)[i])
                is Some,
    decreases width,
{
    lemma_hex_fixed_value(h, width);
    if width > 0 {
        lemma_hex_chars_are_digits(h / 16, (width - 1) as nat);
        assert(hex_digit_value(spec_hex_char(h % 16)) is Some);
    }
}

// ---------------------------------------------------------------------------
// ASCII case, substring search and literal replacement
// ---------------------------------------------------------------------------
/// `char::to_ascii_lowercase`: upper-case ASCII letters become lower case, everything
/// else is unchanged.
pub open spec fn spec_ascii_lower(c: char) -> char {
    if 'A' <= c && c <= 'Z' {
        ((c as u32) + 32) as char
    } else {
        c
    }
}

/// `text` with its ASCII letters lower-cased.
pub open spec fn lower_text(text: Seq<char>) -> Seq<char> {
    text.map_values(|c: char| spec_ascii_lower(c))
}

/// Lower-cases the ASCII letters of `text`, as `str::to_ascii_lowercase` does.
pub fn ascii_lowercase(text: &[char]) -> (r: Vec<char>)
    ensures
        r@ == lower_text(text@),
{
    let mut out: Vec<char> = Vec::new();
    let mut i: usize = 0;
    while i < text.len()
        invariant
            i <= text@.len(),
            out@ == text@.take(i as int).map_values(|c: char| spec_ascii_lower(c)),
        decreases text@.len() - i,
    {
        let c = text[i];
        let lower = if 'A' <= c && c <= 'Z' {
            ((c as u8) + 32) as char
        } else {
            c
        };
        assert(lower == spec_ascii_lower(c));
        out.push(lower);
        i = i + 1;
        assert(text@.take(i as int).map_values(|c: char| spec_ascii_lower(c)) =~= text@.take(
            i - 1,
        ).map_values(|c: char| spec_ascii_lower(c)).push(spec_ascii_lower(c)));
    }
    assert(text@.take(i as int) =~= text@);
    out
}

/// Whether `needle` occurs in `hay` starting at position `i`.
pub open spec fn occurs_at(hay: Seq<char>, needle: Seq<char>, i: int) -> bool {
    0 <= i && i + needle.len() <= hay.len() && hay.subrange(i, i + needle.len()) == needle
}

/// Whether `needle` occurs anywhere in `hay`.
pub open spec fn spec_contains(hay: Seq<char>, needle: Seq<char>) -> bool {
    exists|i: int| occurs_at(hay, needle, i)
}

fn matches_at(hay: &[char], needle: &[char], i: usize) -> (r: bool)
    requires
        i + needle@.len() <= hay@.len(),
    ensures
        r == occurs_at(hay@, needle@, i as int),
{
    let hl = hay.len();
    let mut k: usize = 0;
    while k < needle.len()
        invariant
            hl == hay@.len(),
            i + needle@.len() <= hay@.len(),
            k <= needle@.len(),
            forall|j: int| 0 <= j < k ==> hay@[i + j] == needle@[j],
        decreases needle@.len() - k,
    {
        if hay[i + k] != needle[k] {
            assert(hay@.subrange(i as int, i + needle@.len())[k as int] != needle@[k as int]);
            return false;
        }
        k = k + 1;
    }
    assert(hay@.subrange(i as int, i + needle@.len()) =~= needle@);
    true
}

/// Whether `needle` occurs in `hay`, as `str::contains` with a string pattern.
pub fn contains_chars(hay: &[char], needle: &[char]) -> (r: bool)
    ensures
        r == spec_contains(hay@, needle@),
{
    if needle.len() > hay.len() {
        return false;
    }
    let last = hay.len() - needle.len();
    let mut i: usize = 0;
    loop
        invariant
            last + needle@.len() == hay@.len(),
            i <= last,
            forall|j: int| 0 <= j < i ==> !occurs_at(hay@, needle@, j),
        decreases last - i,
    {
        if matches_at(hay, needle, i) {
            return true;
        }
        if i == last {
            assert(forall|j: int| #![auto] occurs_at(hay@, needle@, j) ==> j <= last);
            return false;
        }
        i = i + 1;
    }
}

/// `text` with every occurrence of `pat` replaced by `rep`, scanning from the left and
/// never letting two replaced occurrences overlap (the behaviour of `str::replace`).
pub open spec fn replace_all(text: Seq<char>, pat: Seq<char>, rep: Seq<char>) -> Seq<char>
    decreases text.len(),
{
    if pat.len() == 0 || text.len() < pat.len() {
        text
    } else if text.subrange(0, pat.len() as int) == pat {
        rep + replace_all(text.subrange(pat.len() as int, text.len() as int), pat, rep)
    } else {
        seq![text[0]] + replace_all(text.drop_first(), pat, rep)
    }
}

/// Replaces every occurrence of the non-empty `pat` in `text` by `rep`.
pub fn replace_all_chars(text: &[char], pat: &[char], rep: &[char]) -> (r: Vec<char>)
    requires
        pat@.len() > 0,
    ensures
        r@ == replace_all(text@, pat@, rep@),
{
    let n = text.len();
    let p = pat.len();
    let mut out: Vec<char> = Vec::new();
    let mut i: usize = 0;
    assert(text@.subrange(0, n as int) =~= text@);
    assert(out@ + replace_all(text@, pat@, rep@) =~= replace_all(text@, pat@, rep@));
    while i < n
        invariant
            i <= n,
            n == text@.len(),
            p == pat@.len(),
            p > 0,
            out@ + replace_all(text@.subrange(i as int, n as int), pat@, rep@) == replace_all(
                text@,
                pat@,
                rep@,
            ),
        decreases n - i,
    {
        let ghost rest = text@.subrange(i as int, n as int);
        if p <= n - i && matches_at(text, pat, i) {
            assert(rest.subrange(0, p as int) =~= text@.subrange(i as int, i + p));
            assert(rest.subrange(p as int, rest.len() as int) =~= text@.subrange(
                i + p,
                n as int,
            ));
            let ghost out0 = out@;
            extend_chars(&mut out, rep);
            i = i + p;
            assert(out@ + replace_all(text@.subrange(i as int, n as int), pat@, rep@) =~= out0
                + replace_all(rest, pat@, rep@));
        } else {
            proof {
                if p <= n - i {
                    assert(rest.subrange(0, p as int) =~= text@.subrange(i as int, i + p));
                }
            }
            assert(rest.drop_first() =~= text@.subrange(i + 1, n as int));
            assert(rest[0] == text@[i as int]);
            out.push(text[i]);
            i = i + 1;
        }
    }
    assert(text@.subrange(n as int, n as int) =~= Seq::<char>::empty());
    assert(out@ + Seq::<char>::empty() =~= out@);
    out
}

} // verus!
