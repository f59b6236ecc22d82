//! Byte-level models of the standard-library text splitting and number parsing
//! that the kernel-file parsers rely on, with verified implementations.
use vstd::prelude::*;
use vstd::string::StringSliceAdditionalSpecFns;

verus! {

/// The byte width of the Unicode white-space character that starts at `i`
/// (the `White_Space` property used by `str::split_whitespace`), or 0.
pub open spec fn ws_width(s: Seq<u8>, i: int) -> int {
    if i < 0 || i >= s.len() {
        0
    } else {
        let b0 = s[i];
        if b0 == 0x09 || b0 == 0x0a || b0 == 0x0b || b0 == 0x0c || b0 == 0x0d || b0 == 0x20 {
            1
        } else if b0 == 0xc2 && i + 1 < s.len() && (s[i + 1] == 0x85 || s[i + 1] == 0xa0) {
            2
        } else if i + 2 < s.len() && ((b0 == 0xe1 && s[i + 1] == 0x9a && s[i + 2] == 0x80) || (b0
            == 0xe2 && s[i + 1] == 0x80 && ((0x80 <= s[i + 2] && s[i + 2] <= 0x8a) || s[i + 2]
            == 0xa8 || s[i + 2] == 0xa9 || s[i + 2] == 0xaf)) || (b0 == 0xe2 && s[i + 1] == 0x81
            && s[i + 2] == 0x9f) || (b0 == 0xe3 && s[i + 1] == 0x80 && s[i + 2] == 0x80)) {
            3
        } else {
            0
        }
    }
}

/// The end of the token that starts at `i`: the first white-space position at or after `i`.
pub open spec fn token_end(s: Seq<u8>, i: int) -> int
    decreases s.len() - i,
{
    if i < 0 || i >= s.len() || ws_width(s, i) > 0 {
        if i < 0 { 0 } else { i }
    } else {
        token_end(s, i + 1)
    }
}

/// The white-space separated fields of `s[i..]`, as `str::split_whitespace` yields them.
pub open spec fn fields_from(s: Seq<u8>, i: int) -> Seq<Seq<u8>>
    decreases s.len() - i, 1int,
{
    if i < 0 || i >= s.len() {
        Seq::empty()
    } else if ws_width(s, i) > 0 {
        fields_from(s, i + ws_width(s, i))
    } else {
        let e = token_end(s, i);
        if e <= i || e > s.len() {
            Seq::empty()
        } else {
            seq![s.subrange(i, e)] + fields_from(s, e)
        }
    }
}

/// The white-space separated fields of `s`.
pub open spec fn fields(s: Seq<u8>) -> Seq<Seq<u8>> {
    fields_from(s, 0)
}

/// The index of the first line feed at or after `i`, or the length of `s`.
pub open spec fn line_end(s: Seq<u8>, i: int) -> int
    decreases s.len() - i,
{
    if i < 0 {
        0
    } else if i >= s.len() || s[i] == 0x0a {
        if i >= s.len() { s.len() as int } else { i }
    } else {
        line_end(s, i + 1)
    }
}

/// The lines of `s[i..]`, as `str::lines` yields them: split at each line feed,
/// a carriage return directly before a line feed removed, and no empty line
/// after a final line feed.
pub open spec fn lines_from(s: Seq<u8>, i: int) -> Seq<Seq<u8>>
    decreases s.len() - i,
{
    if i < 0 || i >= s.len() {
        Seq::empty()
    } else {
        let e = line_end(s, i);
        let raw = s.subrange(i, e);
        let line = if e < s.len() && raw.len() > 0 && raw.last() == 0x0d {
            raw.drop_last()
        } else {
            raw
        };
        if e < i || e > s.len() {
            Seq::empty()
        } else {
            seq![line] + lines_from(s, if e < s.len() { e + 1 } else { e })
        }
    }
}

/// The lines of `s`.
pub open spec fn lines(s: Seq<u8>) -> Seq<Seq<u8>> {
    lines_from(s, 0)
}

/// The value of a sequence of ASCII decimal digits.
pub open spec fn decimal_value(s: Seq<u8>) -> nat
    decreases s.len(),
{
    if s.len() == 0 {
        0
    } else {
        decimal_value(s.drop_last()) * 10 + (s.last() - 0x30) as nat
    }
}

/// Every byte is an ASCII decimal digit.
pub open spec fn all_digits(s: Seq<u8>) -> bool {
    forall|k: int| 0 <= k < s.len() ==> 0x30 <= #[trigger] s[k] <= 0x39
}

/// A canonical decimal: nonempty digits without a leading zero unless the value is zero.
pub open spec fn canonical_decimal(s: Seq<u8>) -> bool {
    &&& s.len() > 0
    &&& all_digits(s)
    &&& (s.len() > 1 ==> s[0] != 0x30)
}

/// The text that `u32::from_str` accepts: an optional plus sign and at least one digit.
pub open spec fn unsigned_text(s: Seq<u8>) -> bool {
    if s.len() > 0 && s[0] == 0x2b {
        s.len() > 1 && all_digits(s.drop_first())
    } else {
        s.len() > 0 && all_digits(s)
    }
}

/// The digits of text that `u32::from_str` accepts.
pub open spec fn unsigned_digits(s: Seq<u8>) -> Seq<u8> {
    if s.len() > 0 && s[0] == 0x2b {
        s.drop_first()
    } else {
        s
    }
}

/// Returns the width of the white-space character at `i`, or 0.
pub fn whitespace_width(s: &[u8], i: usize) -> (r: usize)
    requires
        i < s@.len(),
    ensures
        r as int == ws_width(s@, i as int),
{
    let b0 = s[i];
    if b0 == 0x09 || b0 == 0x0a || b0 == 0x0b || b0 == 0x0c || b0 == 0x0d || b0 == 0x20 {
        return 1;
    }
    if b0 == 0xc2 && s.len() - i > 1 && (s[i + 1] == 0x85 || s[i + 1] == 0xa0) {
        return 2;
    }
    if s.len() - i > 2 {
        let b1 = s[i + 1];
        let b2 = s[i + 2];
        if (b0 == 0xe1 && b1 == 0x9a && b2 == 0x80) || (b0 == 0xe2 && b1 == 0x80 && ((0x80 <= b2
            && b2 <= 0x8a) || b2 == 0xa8 || b2 == 0xa9 || b2 == 0xaf)) || (b0 == 0xe2 && b1 == 0x81
            && b2 == 0x9f) || (b0 == 0xe3 && b1 == 0x80 && b2 == 0x80) {
            return 3;
        }
    }
    0
}

proof fn lemma_ws_width_bound(s: Seq<u8>, i: int)
    ensures
        0 <= ws_width(s, i),
        ws_width(s, i) > 0 ==> i + ws_width(s, i) <= s.len(),
{
}

proof fn lemma_token_end_bounds(s: Seq<u8>, i: int)
    requires
        0 <= i <= s.len(),
    ensures
        i <= token_end(s, i) <= s.len(),
        token_end(s, i) < s.len() ==> ws_width(s, token_end(s, i)) > 0,
        forall|k: int| i <= k < token_end(s, i) ==> ws_width(s, k) == 0,
    decreases s.len() - i,
{
    if i < s.len() && ws_width(s, i) == 0 {
        lemma_token_end_bounds(s, i + 1);
    }
}

/// Finds the next white-space separated field at or after `start`:
/// `Some((a, b))` when `fields_from(s, start)` is `s[a..b]` followed by `fields_from(s, b)`.
pub fn next_field(s: &[u8], start: usize) -> (r: Option<(usize, usize)>)
    requires
        start <= s@.len(),
    ensures
        r is None ==> fields_from(s@, start as int).len() == 0,
        r matches Some((a, b)) ==> start <= a < b <= s@.len() && fields_from(s@, start as int)
            == seq![s@.subrange(a as int, b as int)] + fields_from(s@, b as int),
{
    let mut i = start;
    while i < s.len() && whitespace_width(s, i) > 0
        invariant
            start <= i <= s@.len(),
            fields_from(s@, start as int) == fields_from(s@, i as int),
        decreases s@.len() - i,
    {
        let w = whitespace_width(s, i);
        proof {
            lemma_ws_width_bound(s@, i as int);
        }
        i = i + w;
    }
    if i >= s.len() {
        return None;
    }
    let a = i;
    proof {
        lemma_token_end_bounds(s@, a as int);
    }
    let mut j = a;
    while j < s.len() && whitespace_width(s, j) == 0
        invariant
            a <= j <= s@.len(),
            token_end(s@, a as int) == token_end(s@, j as int),
        decreases s@.len() - j,
    {
        j = j + 1;
    }
    proof {
        assert(token_end(s@, j as int) == j);
        assert(ws_width(s@, a as int) == 0);
    }
    Some((a, j))
}

proof fn lemma_line_end_bounds(s: Seq<u8>, i: int)
    requires
        0 <= i <= s.len(),
    ensures
        i <= line_end(s, i) <= s.len(),
        line_end(s, i) < s.len() ==> s[line_end(s, i)] == 0x0a,
        forall|k: int| i <= k < line_end(s, i) ==> s[k] != 0x0a,
    decreases s.len() - i,
{
    if i < s.len() && s[i] != 0x0a {
        lemma_line_end_bounds(s, i + 1);
    }
}

/// Finds the next line at or after `start`: `Some((a, b, next))` when
/// `lines_from(s, start)` is `s[a..b]` followed by `lines_from(s, next)`.
pub fn next_line(s: &[u8], start: usize) -> (r: Option<(usize, usize, usize)>)
    requires
        start <= s@.len(),
    ensures
        r is None ==> start == s@.len() && lines_from(s@, start as int).len() == 0,
        r matches Some((a, b, next)) ==> a == start && a <= b <= s@.len() && start < next <= s@.len()
            && lines_from(s@, start as int) == seq![s@.subrange(a as int, b as int)] + lines_from(
            s@,
            next as int,
        ),
{
    if start >= s.len() {
        return None;
    }
    let mut e = start;
    proof {
        lemma_line_end_bounds(s@, start as int);
    }
    while e < s.len() && s[e] != 0x0a
        invariant
            start <= e <= s@.len(),
            line_end(s@, start as int) == line_end(s@, e as int),
        decreases s@.len() - e,
    {
        e = e + 1;
    }
    assert(line_end(s@, e as int) == e);
    let mut b = e;
    if e < s.len() && e > start && s[e - 1] == 0x0d {
        b = e - 1;
    }
    let next = if e < s.len() { e + 1 } else { e };
    proof {
        let raw = s@.subrange(start as int, e as int);
        if e < s@.len() && raw.len() > 0 && raw.last() == 0x0d {
            assert(raw.drop_last() =~= s@.subrange(start as int, b as int));
        } else {
            assert(raw =~= s@.subrange(start as int, b as int));
        }
    }
    Some((start, b, next))
}

/// Compares two byte strings.
pub fn bytes_equal(a: &[u8], b: &[u8]) -> (r: bool)
    ensures
        r == (a@ == b@),
{
    if a.len() != b.len() {
        return false;
    }
    let mut i: usize = 0;
    while i < a.len()
        invariant
            a@.len() == b@.len(),
            i <= a@.len(),
            forall|k: int| 0 <= k < i ==> a@[k] == b@[k],
        decreases a@.len() - i,
    {
        if a[i] != b[i] {
            return false;
        }
        i = i + 1;
    }
    assert(a@ =~= b@);
    true
}

/// Reports whether `value` occurs in `s`.
pub fn contains_byte(s: &[u8], value: u8) -> (r: bool)
    ensures
        r == s@.contains(value),
{
    let mut i: usize = 0;
    while i < s.len()
        invariant
            i <= s@.len(),
            forall|k: int| 0 <= k < i ==> s@[k] != value,
        decreases s@.len() - i,
    {
        if s[i] == value {
            return true;
        }
        i = i + 1;
    }
    false
}

proof fn lemma_decimal_value_bound(s: Seq<u8>)
    requires
        all_digits(s),
    ensures
        decimal_value(s) < pow10(s.len()),
    decreases s.len(),
{
    if s.len() > 0 {
        let p = s.drop_last();
        assert(all_digits(p)) by {
            assert forall|k: int| 0 <= k < p.len() implies 0x30 <= #[trigger] p[k] <= 0x39 by {
                assert(p[k] == s[k]);
            }
        }
        lemma_decimal_value_bound(p);
        assert(s[s.len() - 1] <= 0x39);
    }
}

/// Ten to the power `n`.
pub open spec fn pow10(n: nat) -> nat
    decreases n,
{
    if n == 0 {
        1
    } else {
        10 * pow10((n - 1) as nat)
    }
}

/// Parses ASCII digits into a `u64`; `None` on an empty input, a non-digit, or overflow.
pub fn parse_digits_u64(s: &[u8]) -> (r: Option<u64>)
    ensures
        r is Some <==> (s@.len() > 0 && all_digits(s@) && decimal_value(s@) <= u64::MAX),
        r matches Some(v) ==> v as nat == decimal_value(s@),
{
    if s.len() == 0 {
        return None;
    }
    let mut value: u64 = 0;
    let mut i: usize = 0;
    while i < s.len()
        invariant
            i <= s@.len(),
            all_digits(s@.take(i as int)),
            value as nat == decimal_value(s@.take(i as int)),
        decreases s@.len() - i,
    {
        let b = s[i];
        proof {
            assert(s@.take(i + 1).drop_last() =~= s@.take(i as int));
        }
        if b < 0x30 || b > 0x39 {
            proof {
                assert(!all_digits(s@)) by {
                    assert(s@[i as int] == b);
                }
            }
            return None;
        }
        let digit = (b - 0x30) as u64;
        if value > (u64::MAX - digit) / 10 {
            proof {
                // Every longer digit string keeps at least this value.
                assert(decimal_value(s@.take(i + 1)) > u64::MAX);
                lemma_decimal_prefix_monotone(s@, i + 1);
            }
            return None;
        }
        value = value * 10 + digit;
        proof {
            let t = s@.take(i + 1);
            assert forall|k: int| 0 <= k < t.len() implies 0x30 <= #[trigger] t[k] <= 0x39 by {
                if k < i {
                    assert(t[k] == s@.take(i as int)[k]);
                }
            }
        }
        i = i + 1;
    }
    assert(s@.take(s@.len() as int) =~= s@);
    Some(value)
}

proof fn lemma_decimal_prefix_monotone(s: Seq<u8>, n: int)
    requires
        0 <= n <= s.len(),
    ensures
        all_digits(s) ==> decimal_value(s.take(n)) <= decimal_value(s),
    decreases s.len() - n,
{
    if n < s.len() && all_digits(s) {
        lemma_decimal_prefix_monotone(s, n + 1);
        assert(s.take(n + 1).drop_last() =~= s.take(n));
        assert(s.take(n + 1).last() == s[n]);
        assert(0x30 <= s[n]);
    } else if n == s.len() {
        assert(s.take(n) =~= s);
    }
}

/// Parses a canonical decimal `u64` (no sign, no leading zero), as the kernel writes counters.
pub fn parse_canonical_decimal(s: &[u8]) -> (r: Option<u64>)
    ensures
        r is Some <==> (canonical_decimal(s@) && decimal_value(s@) <= u64::MAX),
        r matches Some(v) ==> v as nat == decimal_value(s@),
{
    if s.len() > 1 && s[0] == 0x30 {
        return None;
    }
    parse_digits_u64(s)
}

/// Parses text as `u32::from_str` does: an optional `+` then decimal digits.
pub fn parse_unsigned_u32(s: &[u8]) -> (r: Option<u32>)
    ensures
        r is Some <==> (unsigned_text(s@) && decimal_value(unsigned_digits(s@)) <= u32::MAX),
        r matches Some(v) ==> v as nat == decimal_value(unsigned_digits(s@)),
{
    let digits = if s.len() > 0 && s[0] == 0x2b {
        if s.len() == 1 {
            return None;
        }
        &s[1..s.len()]
    } else {
        s
    };
    assert(digits@ == unsigned_digits(s@));
    match parse_digits_u64(digits) {
        Some(v) => {
            if v > 0xffff_ffff {
                None
            } else {
                Some(v as u32)
            }
        },
        None => None,
    }
}

/// Parses text as `u64::from_str` does: an optional `+` then decimal digits.
pub fn parse_unsigned_u64(s: &[u8]) -> (r: Option<u64>)
    ensures
        r is Some <==> (unsigned_text(s@) && decimal_value(unsigned_digits(s@)) <= u64::MAX),
        r matches Some(v) ==> v as nat == decimal_value(unsigned_digits(s@)),
{
    let digits = if s.len() > 0 && s[0] == 0x2b {
        if s.len() == 1 {
            return None;
        }
        &s[1..s.len()]
    } else {
        s
    };
    assert(digits@ == unsigned_digits(s@));
    parse_digits_u64(digits)
}

/// The canonical decimal text of a number.
pub open spec fn decimal_text(v: nat) -> Seq<u8>
    decreases v,
{
    if v < 10 {
        seq![(0x30 + v) as u8]
    } else {
        decimal_text(v / 10) + seq![(0x30 + v % 10) as u8]
    }
}

/// Formats a `u64` as canonical decimal ASCII bytes.
pub fn format_decimal(v: u64) -> (r: Vec<u8>)
    ensures
        r@ == decimal_text(v as nat),
    decreases v,
{
    if v < 10 {
        let mut r = Vec::new();
        r.push((0x30 + v) as u8);
        assert(r@ =~= decimal_text(v as nat));
        r
    } else {
        let mut r = format_decimal(v / 10);
        r.push((0x30 + v % 10) as u8);
        assert(r@ =~= decimal_text(v as nat));
        r
    }
}

/// The lower-case hexadecimal digit of a nibble.
pub open spec fn hex_digit(n: u8) -> u8 {
    if n < 10 {
        (0x30 + n) as u8
    } else {
        (0x61 + n - 10) as u8
    }
}

/// Two lower-case hexadecimal digits per byte.
pub open spec fn lower_hex(bytes: Seq<u8>) -> Seq<u8>
    decreases bytes.len(),
{
    if bytes.len() == 0 {
        Seq::empty()
    } else {
        lower_hex(bytes.drop_last()) + seq![hex_digit(bytes.last() / 16), hex_digit(bytes.last() % 16)]
    }
}

/// Encodes bytes as lower-case hexadecimal ASCII.
pub fn lower_hex_bytes(bytes: &[u8]) -> (r: Vec<u8>)
    ensures
        r@ == lower_hex(bytes@),
        r@.len() == 2 * bytes@.len(),
{
    let mut out: Vec<u8> = Vec::new();
    let mut i: usize = 0;
    while i < bytes.len()
        invariant
            i <= bytes@.len(),
            out@ == lower_hex(bytes@.take(i as int)),
            out@.len() == 2 * i,
        decreases bytes@.len() - i,
    {
        let b = bytes[i];
        let high = b / 16;
        let low = b % 16;
        let hd = if high < 10 { 0x30 + high } else { 0x61 + high - 10 };
        let ld = if low < 10 { 0x30 + low } else { 0x61 + low - 10 };
        out.push(hd);
        out.push(ld);
        proof {
            assert(bytes@.take(i + 1).drop_last() =~= bytes@.take(i as int));
            assert(out@ =~= lower_hex(bytes@.take(i + 1)));
        }
        i = i + 1;
    }
    assert(bytes@.take(bytes@.len() as int) =~= bytes@);
    out
}

/// The nibble value of a lower-case hexadecimal digit.
pub open spec fn lower_hex_value(b: u8) -> Option<u8> {
    if 0x30 <= b <= 0x39 {
        Some((b - 0x30) as u8)
    } else if 0x61 <= b <= 0x66 {
        Some((b - 0x61 + 10) as u8)
    } else {
        None
    }
}

/// Decodes one lower-case hexadecimal digit.
pub fn lower_hex_nibble(b: u8) -> (r: Option<u8>)
    ensures
        r == lower_hex_value(b),
{
    if 0x30 <= b && b <= 0x39 {
        Some(b - 0x30)
    } else if 0x61 <= b && b <= 0x66 {
        Some(b - 0x61 + 10)
    } else {
        None
    }
}

/// Every byte is a lower-case hexadecimal digit.
pub open spec fn all_lower_hex(s: Seq<u8>) -> bool {
    forall|k: int| 0 <= k < s.len() ==> (#[trigger] lower_hex_value(s[k])) is Some
}

/// The bytes that lower-case hexadecimal text of even length denotes.
pub open spec fn hex_decode(s: Seq<u8>) -> Seq<u8> {
    Seq::new(
        s.len() / 2,
        |k: int| (lower_hex_value(s[2 * k])->0 * 16 + lower_hex_value(s[2 * k + 1])->0) as u8,
    )
}

/// Decodes exactly `n` bytes from `2n` lower-case hexadecimal digits.
pub fn decode_lower_hex(s: &[u8], n: usize) -> (r: Option<Vec<u8>>)
    ensures
        r is Some <==> (s@.len() == 2 * n && all_lower_hex(s@)),
        r matches Some(v) ==> v@ == hex_decode(s@) && v@.len() == n,
{
    if s.len() / 2 != n || s.len() % 2 != 0 {
        return None;
    }
    let mut out: Vec<u8> = Vec::new();
    let mut i: usize = 0;
    while i < n
        invariant
            s@.len() == 2 * n,
            i <= n,
            out@.len() == i,
            forall|k: int| 0 <= k < 2 * i ==> (#[trigger] lower_hex_value(s@[k])) is Some,
            forall|k: int| 0 <= k < i ==> out@[k] == hex_decode(s@)[k],
        decreases n - i,
    {
        assert(2 * i + 1 < s.len());
        let high = match lower_hex_nibble(s[2 * i]) {
            Some(v) => v,
            None => {
                return None;
            },
        };
        let low = match lower_hex_nibble(s[2 * i + 1]) {
            Some(v) => v,
            None => {
                return None;
            },
        };
        out.push(high * 16 + low);
        proof {
            assert forall|k: int| 0 <= k < 2 * (i + 1) implies (#[trigger] lower_hex_value(
                s@[k],
            )) is Some by {
                if k == 2 * i || k == 2 * i + 1 {
                } else {
                }
            }
        }
        i = i + 1;
    }
    assert(out@ =~= hex_decode(s@));
    Some(out)
}

/// Builds a `String` from bytes, as `String::from_utf8` does.
#[verifier::external_body]
pub(crate) fn utf8_string(bytes: Vec<u8>) -> (r: Option<String>)
    ensures
        r is Some <==> vstd::utf8::valid_utf8(bytes@),
        r matches Some(s) ==> vstd::utf8::encode_utf8(s@) == bytes@,
{
    String::from_utf8(bytes).ok()
}

/// The UTF-8 bytes of a `String`.
pub open spec fn string_bytes(s: String) -> Seq<u8> {
    vstd::utf8::encode_utf8(s@)
}

} // verus!

verus! {

/// Every byte is ASCII.
pub open spec fn all_ascii(s: Seq<u8>) -> bool {
    forall|k: int| 0 <= k < s.len() ==> #[trigger] s[k] < 0x80
}

/// ASCII bytes are valid UTF-8.
pub proof fn lemma_ascii_valid_utf8(s: Seq<u8>)
    requires
        all_ascii(s),
    ensures
        vstd::utf8::valid_utf8(s),
{
    assert forall|i: int| 0 <= 0 <= i < s.len() <= s.len() implies #[trigger] vstd::utf8::is_leading_byte_width_1(
        s[i],
    ) by {
        assert(s[i] < 0x80);
    }
    assert(vstd::utf8::valid_utf8(s.subrange(0, 0))) by {
        assert(s.subrange(0, 0).len() == 0);
    }
    vstd::utf8::partial_valid_utf8_extend_ascii_block(s, 0, s.len() as int);
    assert(s.subrange(0, s.len() as int) =~= s);
}

/// Builds a `String` from ASCII bytes.
pub fn ascii_string(bytes: Vec<u8>) -> (r: String)
    requires
        all_ascii(bytes@),
    ensures
        string_bytes(r) == bytes@,
{
    proof {
        lemma_ascii_valid_utf8(bytes@);
    }
    let ghost b = bytes@;
    match utf8_string(bytes) {
        Some(s) => s,
        None => {
            proof {
                assert(false);
            }
            String::new()
        },
    }
}

/// The UTF-8 bytes of each string in a list.
pub open spec fn strs_bytes(names: Seq<&str>) -> Seq<Seq<u8>> {
    names.map_values(|s: &str| s.spec_bytes())
}

/// Inserts `value` into a strictly increasing vector, keeping it strictly increasing;
/// a value that is already present is not inserted again.
pub fn insert_sorted_u32(set: &mut Vec<u32>, value: u32)
    requires
        forall|a: int, b: int| 0 <= a < b < old(set)@.len() ==> old(set)@[a] < old(set)@[b],
    ensures
        forall|a: int, b: int| 0 <= a < b < final(set)@.len() ==> final(set)@[a] < final(set)@[b],
        forall|x: u32| final(set)@.contains(x) <==> (old(set)@.contains(x) || x == value),
{
    let ghost old_set = set@;
    let mut p: usize = 0;
    while p < set.len() && set[p] < value
        invariant
            p <= set@.len(),
            set@ == old_set,
            forall|k: int| 0 <= k < p ==> set@[k] < value,
        decreases set@.len() - p,
    {
        p = p + 1;
    }
    if p < set.len() && set[p] == value {
        assert(set@.contains(value)) by {
            assert(set@[p as int] == value);
        }
        return;
    }
    set.insert(p, value);
    proof {
        assert(set@ =~= old_set.subrange(0, p as int).push(value) + old_set.subrange(p as int, old_set.len() as int));
        assert forall|a: int, b: int| 0 <= a < b < set@.len() implies set@[a] < set@[b] by {
            if b < p as int {
                assert(set@[a] == old_set[a]);
                assert(set@[b] == old_set[b]);
            } else if b == p as int {
                assert(set@[a] == old_set[a]);
            } else if a < p as int {
                assert(set@[a] == old_set[a]);
                assert(set@[b] == old_set[b - 1]);
                assert(old_set[p as int] > value);
                if b - 1 > p as int {
                    assert(old_set[p as int] < old_set[b - 1]);
                }
            } else if a == p as int {
                assert(set@[b] == old_set[b - 1]);
                assert(old_set[p as int] > value);
                if b - 1 > p as int {
                    assert(old_set[p as int] < old_set[b - 1]);
                }
            } else {
                assert(set@[a] == old_set[a - 1]);
                assert(set@[b] == old_set[b - 1]);
            }
        }
        assert forall|x: u32|
            #![trigger set@.contains(x)]
            #![trigger old_set.contains(x)]
            set@.contains(x) <==> (old_set.contains(x) || x == value) by {
            if set@.contains(x) {
                let k = choose|k: int| 0 <= k < set@.len() && set@[k] == x;
                if k < p {
                    assert(old_set[k] == x);
                } else if k > p {
                    assert(old_set[k - 1] == x);
                }
            }
            if old_set.contains(x) {
                let k = choose|k: int| 0 <= k < old_set.len() && old_set[k] == x;
                if k < p {
                    assert(set@[k] == x);
                } else {
                    assert(set@[k + 1] == x);
                }
            }
            if x == value {
                assert(set@[p as int] == x);
            }
        }
    }
}

/// The first `n` characters are ASCII.
pub open spec fn ascii_upto(c: Seq<char>, n: nat) -> bool
    decreases n,
{
    if n == 0 {
        true
    } else {
        '\0' <= c[n - 1] <= '\u{7f}' && ascii_upto(c, (n - 1) as nat)
    }
}

/// The bytes of an ASCII string are its characters, one byte each.
pub proof fn lemma_ascii_str_bytes(s: &str)
    requires
        ascii_upto(s@, s@.len()),
    ensures
        s.spec_bytes() == Seq::new(s@.len(), |i: int| s@[i] as u8),
{
    lemma_ascii_upto(s@, s@.len());
    vstd::string::is_ascii_spec_bytes(s);
}

proof fn lemma_ascii_upto(c: Seq<char>, n: nat)
    requires
        ascii_upto(c, n),
        n <= c.len(),
    ensures
        forall|i: int| 0 <= i < n ==> '\0' <= #[trigger] c[i] <= '\u{7f}',
    decreases n,
{
    if n > 0 {
        lemma_ascii_upto(c, (n - 1) as nat);
    }
}

/// `a` sorts strictly before `b` in byte-wise lexicographic order.
pub open spec fn lex_less(a: Seq<u8>, b: Seq<u8>) -> bool
    decreases a.len(),
{
    if b.len() == 0 {
        false
    } else if a.len() == 0 {
        true
    } else if a[0] != b[0] {
        a[0] < b[0]
    } else {
        lex_less(a.subrange(1, a.len() as int), b.subrange(1, b.len() as int))
    }
}

/// Byte-wise lexicographic order is irreflexive, transitive and total.
pub proof fn lemma_lex_order(a: Seq<u8>, b: Seq<u8>, c: Seq<u8>)
    ensures
        !lex_less(a, a),
        lex_less(a, b) && lex_less(b, c) ==> lex_less(a, c),
        a != b ==> lex_less(a, b) || lex_less(b, a),
        lex_less(a, b) ==> !lex_less(b, a),
    decreases a.len(),
{
    if a.len() > 0 && b.len() > 0 && c.len() > 0 {
        lemma_lex_order(
            a.subrange(1, a.len() as int),
            b.subrange(1, b.len() as int),
            c.subrange(1, c.len() as int),
        );
    }
    if a.len() > 0 && b.len() > 0 {
        lemma_lex_order(a.subrange(1, a.len() as int), b.subrange(1, b.len() as int), b.subrange(1, b.len() as int));
        if a != b && a[0] == b[0] {
            assert(a.subrange(1, a.len() as int) != b.subrange(1, b.len() as int)) by {
                if a.subrange(1, a.len() as int) =~= b.subrange(1, b.len() as int) {
                    assert forall|k: int| 0 <= k < a.len() implies a[k] == b[k] by {
                        if k > 0 {
                            assert(a[k] == a.subrange(1, a.len() as int)[k - 1]);
                            assert(b[k] == b.subrange(1, b.len() as int)[k - 1]);
                        }
                    }
                    assert(a =~= b);
                }
            }
        }
    }
    if a.len() > 0 {
        lemma_lex_order(a.subrange(1, a.len() as int), a.subrange(1, a.len() as int), a.subrange(1, a.len() as int));
    }
    if a.len() == 0 && b.len() == 0 {
        assert(a =~= b);
    }
}

/// Compares two byte strings in lexicographic order.
pub fn bytes_lex_less(a: &[u8], b: &[u8]) -> (r: bool)
    ensures
        r == lex_less(a@, b@),
{
    let mut i: usize = 0;
    assert(a@.subrange(0, a@.len() as int) =~= a@);
    assert(b@.subrange(0, b@.len() as int) =~= b@);
    while i < a.len() && i < b.len() && a[i] == b[i]
        invariant
            i <= a@.len(),
            i <= b@.len(),
            lex_less(a@, b@) == lex_less(a@.subrange(i as int, a@.len() as int), b@.subrange(i as int, b@.len() as int)),
        decreases a@.len() - i,
    {
        let ghost sa = a@.subrange(i as int, a@.len() as int);
        let ghost sb = b@.subrange(i as int, b@.len() as int);
        assert(sa.subrange(1, sa.len() as int) =~= a@.subrange(i + 1, a@.len() as int));
        assert(sb.subrange(1, sb.len() as int) =~= b@.subrange(i + 1, b@.len() as int));
        i = i + 1;
    }
    if i == b.len() {
        false
    } else if i == a.len() {
        true
    } else {
        a[i] < b[i]
    }
}

/// Lower-case hexadecimal text decodes back to the bytes it encodes.
pub proof fn lemma_lower_hex_round_trip(bytes: Seq<u8>)
    ensures
        lower_hex(bytes).len() == 2 * bytes.len(),
        all_lower_hex(lower_hex(bytes)),
        hex_decode(lower_hex(bytes)) == bytes,
    decreases bytes.len(),
{
    if bytes.len() > 0 {
        let init = bytes.drop_last();
        lemma_lower_hex_round_trip(init);
        let h = lower_hex(bytes);
        let hi = lower_hex(init);
        let last = bytes.last();
        assert(h == hi + seq![hex_digit(last / 16), hex_digit(last % 16)]);
        assert forall|k: int| 0 <= k < h.len() implies (#[trigger] lower_hex_value(h[k])) is Some by {
            if k < hi.len() {
                assert(h[k] == hi[k]);
            }
        }
        assert forall|k: int| 0 <= k < bytes.len() implies #[trigger] hex_decode(h)[k] == bytes[k] by {
            if k < init.len() {
                assert(h[2 * k] == hi[2 * k]);
                assert(h[2 * k + 1] == hi[2 * k + 1]);
                assert(hex_decode(hi)[k] == init[k]);
            } else {
                assert(h[2 * k] == hex_digit(last / 16));
                assert(h[2 * k + 1] == hex_digit(last % 16));
            }
        }
        assert(hex_decode(h) =~= bytes);
    } else {
        assert(hex_decode(lower_hex(bytes)) =~= bytes);
    }
}

/// Canonical decimal text is digits only and reads back as its value.
pub proof fn lemma_decimal_round_trip(v: nat)
    ensures
        decimal_text(v).len() > 0,
        all_digits(decimal_text(v)),
        decimal_value(decimal_text(v)) == v,
        decimal_text(v)[0] != 0x2b,
        unsigned_text(decimal_text(v)),
        unsigned_digits(decimal_text(v)) == decimal_text(v),
    decreases v,
{
    let t = decimal_text(v);
    if v >= 10 {
        lemma_decimal_round_trip(v / 10);
        let h = decimal_text(v / 10);
        assert(t.drop_last() =~= h);
        assert forall|k: int| 0 <= k < t.len() implies 0x30 <= #[trigger] t[k] <= 0x39 by {
            if k < h.len() {
                assert(t[k] == h[k]);
            }
        }
        assert(t[0] == h[0]);
        assert(t.last() == (0x30 + v % 10) as u8);
        assert((v / 10) * 10 + v % 10 == v) by (nonlinear_arith);
        assert(decimal_value(t) == decimal_value(h) * 10 + (t.last() - 0x30) as nat);
    } else {
        assert(t.drop_last() =~= Seq::<u8>::empty());
        assert(decimal_value(t) == decimal_value(t.drop_last()) * 10 + (t.last() - 0x30) as nat);
    }
}

/// Canonical decimal text is ASCII.
pub proof fn lemma_decimal_text_ascii(v: nat)
    ensures
        all_ascii(decimal_text(v)),
    decreases v,
{
    if v >= 10 {
        lemma_decimal_text_ascii(v / 10);
        let a = decimal_text(v / 10);
        let b = seq![(0x30 + v % 10) as u8];
        assert forall|k: int| 0 <= k < (a + b).len() implies #[trigger] (a + b)[k] < 0x80 by {
            if k < a.len() {
                assert((a + b)[k] == a[k]);
            }
        }
    }
}

/// Lower-case hexadecimal text is ASCII.
pub proof fn lemma_lower_hex_ascii(bytes: Seq<u8>)
    ensures
        all_ascii(lower_hex(bytes)),
    decreases bytes.len(),
{
    if bytes.len() > 0 {
        lemma_lower_hex_ascii(bytes.drop_last());
        let a = lower_hex(bytes.drop_last());
        let b = seq![hex_digit(bytes.last() / 16), hex_digit(bytes.last() % 16)];
        assert forall|k: int| 0 <= k < (a + b).len() implies #[trigger] (a + b)[k] < 0x80 by {
            if k < a.len() {
                assert((a + b)[k] == a[k]);
            }
        }
    }
}

/// The canonical decimal text of a number as a `String`.
pub fn decimal_string(v: u64) -> (r: String)
    ensures
        string_bytes(r) == decimal_text(v as nat),
{
    let bytes = format_decimal(v);
    proof {
        lemma_decimal_text_ascii(v as nat);
    }
    ascii_string(bytes)
}

/// Lower-case hexadecimal text of bytes as a `String`.
pub fn hex_string(bytes: &[u8]) -> (r: String)
    ensures
        string_bytes(r) == lower_hex(bytes@),
{
    let text = lower_hex_bytes(bytes);
    proof {
        lemma_lower_hex_ascii(bytes@);
    }
    ascii_string(text)
}


/// The first position at or after `i` that starts no white-space character.
pub open spec fn skip_ws(s: Seq<u8>, i: int) -> int
    decreases s.len() - i,
{
    if i < 0 {
        0
    } else if i >= s.len() || ws_width(s, i) == 0 {
        i
    } else {
        skip_ws(s, i + ws_width(s, i))
    }
}

/// The end of the last byte of `s[i..]` outside white space, or `e` if there is none.
pub open spec fn content_end(s: Seq<u8>, i: int, e: int) -> int
    decreases s.len() - i,
{
    if i < 0 || i >= s.len() {
        e
    } else if ws_width(s, i) > 0 {
        content_end(s, i + ws_width(s, i), e)
    } else {
        content_end(s, i + 1, i + 1)
    }
}

/// The text without leading and trailing white space, as `str::trim` leaves it.
pub open spec fn trimmed(s: Seq<u8>) -> Seq<u8> {
    let a = skip_ws(s, 0);
    s.subrange(a, content_end(s, a, a))
}

/// Finds where the trimmed text of `s` starts and ends.
pub fn trim_range(s: &[u8]) -> (r: (usize, usize))
    ensures
        r.0 <= r.1 <= s@.len(),
        s@.subrange(r.0 as int, r.1 as int) == trimmed(s@),
{
    let mut i: usize = 0;
    while i < s.len() && whitespace_width(s, i) > 0
        invariant
            i <= s@.len(),
            skip_ws(s@, 0) == skip_ws(s@, i as int),
        decreases s@.len() - i,
    {
        let w = whitespace_width(s, i);
        proof {
            lemma_ws_width_bound(s@, i as int);
        }
        i = i + w;
    }
    let a = i;
    let mut e = a;
    let mut j = a;
    while j < s.len()
        invariant
            a <= e <= j <= s@.len(),
            a == skip_ws(s@, 0),
            content_end(s@, a as int, a as int) == content_end(s@, j as int, e as int),
        decreases s@.len() - j,
    {
        let w = whitespace_width(s, j);
        proof {
            lemma_ws_width_bound(s@, j as int);
        }
        if w > 0 {
            j = j + w;
        } else {
            j = j + 1;
            e = j;
        }
    }
    (a, e)
}

/// The strings of a list, each by its UTF-8 bytes, are in strictly increasing
/// byte-wise order (so none occurs twice).
pub open spec fn strictly_sorted(s: Seq<Seq<u8>>) -> bool {
    forall|a: int, b: int| 0 <= a < b < s.len() ==> lex_less(#[trigger] s[a], #[trigger] s[b])
}

/// Inserts `value` into a strictly increasing list of strings, keeping it strictly
/// increasing; a string that is already present is not inserted again.
pub fn insert_sorted_string(set: &mut Vec<String>, value: String)
    requires
        strictly_sorted(crate::launcher::string_models(old(set)@)),
    ensures
        strictly_sorted(crate::launcher::string_models(final(set)@)),
        forall|x: Seq<u8>|
            crate::launcher::string_models(final(set)@).contains(x) <==> (crate::launcher::string_models(
                old(set)@,
            ).contains(x) || x == string_bytes(value)),
{
    let ghost old_set = crate::launcher::string_models(set@);
    let ghost v = string_bytes(value);
    let mut p: usize = 0;
    let mut scanning = true;
    while scanning && p < set.len()
        invariant
            p <= set@.len(),
            crate::launcher::string_models(set@) == old_set,
            v == string_bytes(value),
            forall|k: int| 0 <= k < p ==> lex_less(#[trigger] old_set[k], v),
            !scanning ==> p < set@.len() && !lex_less(old_set[p as int], v),
        decreases set@.len() - p + (if scanning { 1int } else { 0int }),
    {
        proof {
            assert(old_set[p as int] == string_bytes(set@[p as int]));
        }
        if bytes_lex_less(set[p].as_str().as_bytes(), value.as_str().as_bytes()) {
            p = p + 1;
        } else {
            scanning = false;
        }
    }
    if p < set.len() && bytes_equal(set[p].as_str().as_bytes(), value.as_str().as_bytes()) {
        assert(old_set.contains(v)) by {
            assert(old_set[p as int] == v);
        }
        return;
    }
    proof {
        if p < old_set.len() {
            assert(old_set[p as int] == string_bytes(set@[p as int]));
            lemma_lex_order(old_set[p as int], v, v);
            assert(lex_less(v, old_set[p as int]));
        }
    }
    set.insert(p, value);
    proof {
        let n = crate::launcher::string_models(set@);
        assert(n =~= old_set.subrange(0, p as int).push(v) + old_set.subrange(p as int, old_set.len() as int));
        assert forall|a: int, b: int| 0 <= a < b < n.len() implies lex_less(#[trigger] n[a], #[trigger] n[b]) by {
            if b < p as int {
                assert(n[a] == old_set[a] && n[b] == old_set[b]);
            } else if b == p as int {
                assert(n[a] == old_set[a]);
            } else if a < p as int {
                assert(n[a] == old_set[a] && n[b] == old_set[b - 1]);
                lemma_lex_order(old_set[a], v, old_set[p as int]);
                if b - 1 > p as int {
                    lemma_lex_order(old_set[a], old_set[p as int], old_set[b - 1]);
                }
            } else if a == p as int {
                assert(n[b] == old_set[b - 1]);
                if b - 1 > p as int {
                    lemma_lex_order(v, old_set[p as int], old_set[b - 1]);
                }
            } else {
                assert(n[a] == old_set[a - 1] && n[b] == old_set[b - 1]);
            }
        }
        assert forall|x: Seq<u8>|
            #![trigger n.contains(x)]
            #![trigger old_set.contains(x)]
            n.contains(x) <==> (old_set.contains(x) || x == v) by {
            if n.contains(x) {
                let k = choose|k: int| 0 <= k < n.len() && n[k] == x;
                if k < p {
                    assert(old_set[k] == x);
                } else if k > p {
                    assert(old_set[k - 1] == x);
                }
            }
            if old_set.contains(x) {
                let k = choose|k: int| 0 <= k < old_set.len() && old_set[k] == x;
                if k < p {
                    assert(n[k] == x);
                } else {
                    assert(n[k + 1] == x);
                }
            }
            if x == v {
                assert(n[p as int] == x);
            }
        }
    }
}

/// Every white-space separated field of the text is valid UTF-8.
pub open spec fn fields_utf8(s: Seq<u8>) -> bool {
    forall|k: int| 0 <= k < fields(s).len() ==> vstd::utf8::valid_utf8(#[trigger] fields(s)[k])
}

/// Reads a white-space separated set: the distinct fields of the text in byte-wise
/// order, or `None` when a field is not UTF-8 text.
pub fn read_set(text: &[u8]) -> (r: Option<Vec<String>>)
    ensures
        r is Some <==> fields_utf8(text@),
        r matches Some(v) ==> strictly_sorted(crate::launcher::string_models(v@)) && forall|x: Seq<u8>|
            crate::launcher::string_models(v@).contains(x) <==> fields(text@).contains(x),
{
    let mut set: Vec<String> = Vec::new();
    let mut i: usize = 0;
    let ghost all = fields(text@);
    let ghost mut seen: Seq<Seq<u8>> = Seq::empty();
    while i < text.len()
        invariant
            i <= text@.len(),
            all == fields(text@),
            all == seen + fields_from(text@, i as int),
            forall|k: int| 0 <= k < seen.len() ==> vstd::utf8::valid_utf8(#[trigger] seen[k]),
            strictly_sorted(crate::launcher::string_models(set@)),
            forall|x: Seq<u8>| crate::launcher::string_models(set@).contains(x) <==> seen.contains(x),
        decreases text@.len() - i,
    {
        match next_field(text, i) {
            None => {
                assert(seen + fields_from(text@, i as int) =~= seen);
                i = text.len();
                assert(fields_from(text@, i as int) =~= Seq::<Seq<u8>>::empty());
                assert(seen + fields_from(text@, i as int) =~= seen);
            },
            Some((a, b)) => {
                let mut piece: Vec<u8> = Vec::new();
                let mut k: usize = a;
                while k < b
                    invariant
                        a <= k <= b <= text@.len(),
                        piece@ == text@.subrange(a as int, k as int),
                    decreases b - k,
                {
                    piece.push(text[k]);
                    proof {
                        assert(piece@ =~= text@.subrange(a as int, k + 1));
                    }
                    k = k + 1;
                }
                let ghost f = text@.subrange(a as int, b as int);
                proof {
                    assert(all == (seen.push(f)) + fields_from(text@, b as int)) by {
                        assert(seen + (seq![f] + fields_from(text@, b as int)) =~= seen.push(f) + fields_from(text@, b as int));
                    }
                    assert(all[seen.len() as int] == f);
                }
                match utf8_string(piece) {
                    None => {
                        proof {
                            assert(fields(text@)[seen.len() as int] == f);
                        }
                        return None;
                    },
                    Some(field) => {
                        let ghost prev = seen;
                        let ghost before = crate::launcher::string_models(set@);
                        assert(string_bytes(field) == f);
                        insert_sorted_string(&mut set, field);
                        proof {
                            seen = prev.push(f);
                            assert forall|x: Seq<u8>| #[trigger] crate::launcher::string_models(set@).contains(x) <==> seen.contains(x) by {
                                assert(crate::launcher::string_models(set@).contains(x) <==> (before.contains(x) || x == f));
                                assert(before.contains(x) <==> prev.contains(x));
                                if x == f {
                                    assert(seen[prev.len() as int] == f);
                                }
                                if prev.contains(x) {
                                    let k = choose|k: int| 0 <= k < prev.len() && prev[k] == x;
                                    assert(seen[k] == x);
                                }
                                if seen.contains(x) && x != f {
                                    let k = choose|k: int| 0 <= k < seen.len() && seen[k] == x;
                                    assert(k < prev.len());
                                    assert(prev[k] == x);
                                }
                            }
                            assert forall|k: int| 0 <= k < seen.len() implies vstd::utf8::valid_utf8(#[trigger] seen[k]) by {
                                if k < prev.len() {
                                    assert(seen[k] == prev[k]);
                                }
                            }
                        }
                        i = b;
                    },
                }
            },
        }
    }
    proof {
        assert(fields_from(text@, i as int) =~= Seq::<Seq<u8>>::empty());
        assert(all =~= seen);
    }
    Some(set)
}


/// Copies `s[a..b]` into a new vector.
pub fn copy_range(s: &[u8], a: usize, b: usize) -> (r: Vec<u8>)
    requires
        a <= b <= s@.len(),
    ensures
        r@ == s@.subrange(a as int, b as int),
{
    let mut piece: Vec<u8> = Vec::new();
    let mut k: usize = a;
    while k < b
        invariant
            a <= k <= b <= s@.len(),
            piece@ == s@.subrange(a as int, k as int),
        decreases b - k,
    {
        piece.push(s[k]);
        proof {
            assert(piece@ =~= s@.subrange(a as int, k + 1));
        }
        k = k + 1;
    }
    piece
}

} // verus!
