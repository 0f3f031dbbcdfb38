//! Small text toolkit shared by the library: character sequences as the model
//! of strings, conversions between `String`, `&str` and `Vec<char>`, and the
//! few standard-library character facts the editing logic depends on.

use vstd::prelude::*;

verus! {

/// Append `c` to the end of `s` (`String::push`).
#[verifier::external_body]
pub(crate) fn string_push(s: &mut String, c: char)
    ensures
        final(s)@ == old(s)@.push(c),
{
    s.push(c);
}

/// Append every char of `cs` to `s`.
pub fn push_all(s: &mut String, cs: &[char])
    ensures
        final(s)@ == old(s)@ + cs@,
{
    let mut i: usize = 0;
    while i < cs.len()
        invariant
            i <= cs@.len(),
            s@ == old(s)@ + cs@.subrange(0, i as int),
        decreases cs.len() - i,
    {
        string_push(s, cs[i]);
        i = i + 1;
        assert(s@ =~= old(s)@ + cs@.subrange(0, i as int));
    }
    assert(cs@.subrange(0, cs@.len() as int) =~= cs@);
}

/// The characters of `s`, in order.
pub fn chars_of(s: &str) -> (out: Vec<char>)
    ensures
        out@ == s@,
{
    let n = s.unicode_len();
    let mut out: Vec<char> = Vec::new();
    let mut i: usize = 0;
    while i < n
        invariant
            n == s@.len(),
            i <= n,
            out@ == s@.subrange(0, i as int),
        decreases n - i,
    {
        let c = s.get_char(i);
        out.push(c);
        i = i + 1;
        assert(out@ =~= s@.subrange(0, i as int));
    }
    assert(out@ =~= s@);
    out
}

/// A `String` holding the characters `chars[from..to]`.
pub fn string_from_chars(chars: &[char], from: usize, to: usize) -> (out: String)
    requires
        from <= to <= chars@.len(),
    ensures
        out@ == chars@.subrange(from as int, to as int),
{
    let mut out = String::new();
    let mut i = from;
    while i < to
        invariant
            from <= i <= to <= chars@.len(),
            out@ == chars@.subrange(from as int, i as int),
        decreases to - i,
    {
        string_push(&mut out, chars[i]);
        i = i + 1;
        assert(out@ =~= chars@.subrange(from as int, i as int));
    }
    out
}

/// A vector holding the characters `chars[from..to]`.
pub fn chars_vec_range(chars: &[char], from: usize, to: usize) -> (out: Vec<char>)
    requires
        from <= to <= chars@.len(),
    ensures
        out@ == chars@.subrange(from as int, to as int),
{
    let mut out: Vec<char> = Vec::new();
    let mut i = from;
    while i < to
        invariant
            from <= i <= to <= chars@.len(),
            out@ == chars@.subrange(from as int, i as int),
        decreases to - i,
    {
        out.push(chars[i]);
        i = i + 1;
        assert(out@ =~= chars@.subrange(from as int, i as int));
    }
    out
}

/// A vector holding the bytes of `b`.
pub fn bytes_vec(b: &[u8]) -> (out: Vec<u8>)
    ensures
        out@ == b@,
{
    let mut out: Vec<u8> = Vec::new();
    let mut i: usize = 0;
    while i < b.len()
        invariant
            i <= b@.len(),
            out@ == b@.subrange(0, i as int),
        decreases b.len() - i,
    {
        out.push(b[i]);
        i = i + 1;
        assert(out@ =~= b@.subrange(0, i as int));
    }
    assert(out@ =~= b@);
    out
}

/// A `String` holding all of `chars`.
pub fn string_of(chars: &[char]) -> (out: String)
    ensures
        out@ == chars@,
{
    let out = string_from_chars(chars, 0, chars.len());
    assert(chars@.subrange(0, chars@.len() as int) =~= chars@);
    out
}

/// A `String` holding the characters of `s`.
pub fn string_from_str(s: &str) -> (out: String)
    ensures
        out@ == s@,
{
    let mut out = String::new();
    out.append(s);
    assert(out@ =~= s@);
    out
}

/// `n` copies of `c`.
pub open spec fn repeat(c: char, n: nat) -> Seq<char>
    decreases n,
{
    if n == 0 {
        seq![]
    } else {
        repeat(c, (n - 1) as nat).push(c)
    }
}

/// `repeat(c, n)` is `n` copies of `c`.
pub proof fn lemma_repeat_len(c: char, n: nat)
    ensures
        repeat(c, n).len() == n,
        forall|i: int| 0 <= i < n ==> #[trigger] repeat(c, n)[i] == c,
    decreases n,
{
    if n > 0 {
        lemma_repeat_len(c, (n - 1) as nat);
    }
}

/// Append `n` copies of `c` to `s`.
pub fn push_repeat(s: &mut String, c: char, n: usize)
    ensures
        final(s)@ == old(s)@ + repeat(c, n as nat),
{
    let mut i: usize = 0;
    while i < n
        invariant
            i <= n,
            s@ == old(s)@ + repeat(c, i as nat),
        decreases n - i,
    {
        string_push(s, c);
        i = i + 1;
        assert(s@ =~= old(s)@ + repeat(c, i as nat));
    }
}

/// `s` without its trailing whitespace (`str::trim_end`).
pub open spec fn trim_end(s: Seq<char>) -> Seq<char>
    decreases s.len(),
{
    if s.len() > 0 && is_space(s.last()) {
        trim_end(s.drop_last())
    } else {
        s
    }
}

/// `s` without its leading whitespace (`str::trim_start`).
pub open spec fn trim_start(s: Seq<char>) -> Seq<char>
    decreases s.len(),
{
    if s.len() > 0 && is_space(s[0]) {
        trim_start(s.drop_first())
    } else {
        s
    }
}

/// `s` without leading or trailing whitespace (`str::trim`).
pub open spec fn trim(s: Seq<char>) -> Seq<char> {
    trim_end(trim_start(s))
}

/// Trimming the end keeps a prefix that does not end in whitespace; everything cut off is whitespace.
pub proof fn lemma_trim_end_prefix(s: Seq<char>)
    ensures
        trim_end(s).len() <= s.len(),
        trim_end(s) =~= s.subrange(0, trim_end(s).len() as int),
        trim_end(s).len() > 0 ==> !is_space(trim_end(s).last()),
        forall|k: int| trim_end(s).len() <= k < s.len() ==> is_space(#[trigger] s[k]),
    decreases s.len(),
{
    if s.len() > 0 && is_space(s.last()) {
        lemma_trim_end_prefix(s.drop_last());
        assert forall|k: int| trim_end(s).len() <= k < s.len() implies is_space(#[trigger] s[k]) by {
            if k < s.len() - 1 {
                assert(s[k] == s.drop_last()[k]);
            }
        }
    }
}

/// Trimming the start keeps a suffix that does not begin with whitespace; everything cut off is whitespace.
pub proof fn lemma_trim_start_suffix(s: Seq<char>)
    ensures
        trim_start(s).len() <= s.len(),
        trim_start(s) =~= s.subrange(s.len() - trim_start(s).len(), s.len() as int),
        trim_start(s).len() > 0 ==> !is_space(trim_start(s)[0]),
        forall|k: int| 0 <= k < s.len() - trim_start(s).len() ==> is_space(#[trigger] s[k]),
    decreases s.len(),
{
    if s.len() > 0 && is_space(s[0]) {
        lemma_trim_start_suffix(s.drop_first());
        assert forall|k: int| 0 <= k < s.len() - trim_start(s).len() implies is_space(
            #[trigger] s[k],
        ) by {
            if k > 0 {
                assert(s[k] == s.drop_first()[k - 1]);
            }
        }
    }
}

/// The length of `chars[from..to]` once its trailing whitespace is dropped.
pub fn trim_end_len(chars: &[char], from: usize, to: usize) -> (n: usize)
    requires
        from <= to <= chars@.len(),
    ensures
        from <= n <= to,
        n - from == trim_end(chars@.subrange(from as int, to as int)).len(),
{
    let mut end = to;
    while end > from && char_is_whitespace(chars[end - 1])
        invariant
            from <= end <= to <= chars@.len(),
            trim_end(chars@.subrange(from as int, end as int)) == trim_end(
                chars@.subrange(from as int, to as int),
            ),
        decreases end,
    {
        assert(chars@.subrange(from as int, end as int).drop_last() =~= chars@.subrange(
            from as int,
            end - 1,
        ));
        end = end - 1;
    }
    end
}

/// The length of the leading whitespace run of `chars[from..to]`.
pub fn trim_start_len(chars: &[char], from: usize, to: usize) -> (n: usize)
    requires
        from <= to <= chars@.len(),
    ensures
        from <= n <= to,
        trim_start(chars@.subrange(from as int, to as int)) == chars@.subrange(n as int, to as int),
{
    let mut start = from;
    while start < to && char_is_whitespace(chars[start])
        invariant
            from <= start <= to <= chars@.len(),
            trim_start(chars@.subrange(start as int, to as int)) == trim_start(
                chars@.subrange(from as int, to as int),
            ),
        decreases to - start,
    {
        assert(chars@.subrange(start as int, to as int).drop_first() =~= chars@.subrange(
            start + 1,
            to as int,
        ));
        start = start + 1;
    }
    start
}

/// The decimal digit char for `d < 10`.
pub open spec fn digit_char(d: nat) -> char {
    ((d + 48) as u32) as char
}

/// The decimal rendering of a natural number, without leading zeros.
pub open spec fn nat_decimal(n: nat) -> Seq<char>
    decreases n,
{
    if n < 10 {
        seq![digit_char(n)]
    } else {
        nat_decimal(n / 10).push(digit_char(n % 10))
    }
}

/// The decimal rendering of an integer, with a leading `-` when negative
/// (what `Display` prints for the integer types).
pub open spec fn int_decimal(v: int) -> Seq<char> {
    if v < 0 {
        seq!['-'] + nat_decimal((-v) as nat)
    } else {
        nat_decimal(v as nat)
    }
}

/// Append the decimal digits of `n` to `s`.
pub fn push_decimal_u64(s: &mut String, n: u64)
    ensures
        final(s)@ == old(s)@ + nat_decimal(n as nat),
    decreases n,
{
    if n >= 10 {
        push_decimal_u64(s, n / 10);
    }
    let d = (n % 10) as u32 + 48;
    let c = char_from_digit(d);
    string_push(s, c);
    assert(s@ =~= old(s)@ + nat_decimal(n as nat));
}

/// The char with code `d`, for an ASCII digit code.
fn char_from_digit(d: u32) -> (c: char)
    requires
        48 <= d <= 57,
    ensures
        c == (d as char),
{
    if d == 48 { '0' }
    else if d == 49 { '1' }
    else if d == 50 { '2' }
    else if d == 51 { '3' }
    else if d == 52 { '4' }
    else if d == 53 { '5' }
    else if d == 54 { '6' }
    else if d == 55 { '7' }
    else if d == 56 { '8' }
    else { '9' }
}

/// The decimal rendering of `v` (`i32::to_string`).
pub fn i32_to_string(v: i32) -> (s: String)
    ensures
        s@ == int_decimal(v as int),
{
    let mut s = String::new();
    if v < 0 {
        string_push(&mut s, '-');
        let m: i64 = v as i64;
        let a: u64 = (-m) as u64;
        push_decimal_u64(&mut s, a);
    } else {
        push_decimal_u64(&mut s, v as u64);
    }
    s
}

/// The concatenation of `parts`.
pub open spec fn concat(parts: Seq<Seq<char>>) -> Seq<char>
    decreases parts.len(),
{
    if parts.len() == 0 {
        seq![]
    } else {
        concat(parts.drop_last()) + parts.last()
    }
}

/// `parts` joined with `sep` between consecutive items (`[T]::join`).
pub open spec fn join(parts: Seq<Seq<char>>, sep: Seq<char>) -> Seq<char>
    decreases parts.len(),
{
    if parts.len() == 0 {
        seq![]
    } else if parts.len() == 1 {
        parts[0]
    } else {
        join(parts.drop_last(), sep) + sep + parts.last()
    }
}

/// Whether `chars[from..to]` spells exactly `lit`.
pub fn chars_eq(chars: &[char], from: usize, to: usize, lit: &[char]) -> (b: bool)
    requires
        from <= to <= chars@.len(),
    ensures
        b == (chars@.subrange(from as int, to as int) == lit@),
{
    if to - from != lit.len() {
        return false;
    }
    let mut i: usize = 0;
    while i < lit.len()
        invariant
            to - from == lit@.len(),
            from <= to <= chars@.len(),
            i <= lit@.len(),
            forall|k: int| 0 <= k < i ==> chars@[from + k] == #[trigger] lit@[k],
        decreases lit.len() - i,
    {
        if chars[from + i] != lit[i] {
            assert(chars@.subrange(from as int, to as int)[i as int] != lit@[i as int]);
            return false;
        }
        i = i + 1;
    }
    assert(chars@.subrange(from as int, to as int) =~= lit@);
    true
}

/// `bytes` as a string slice when they are valid UTF-8 (`std::str::from_utf8`),
/// `None` otherwise; the slice's bytes are exactly `bytes`.
#[verifier::external_body]
pub(crate) fn str_from_utf8(bytes: &[u8]) -> (r: Option<&str>)
    ensures
        r is Some <==> vstd::utf8::valid_utf8(bytes@),
        r matches Some(s) ==> s@ == vstd::utf8::decode_utf8(bytes@),
{
    std::str::from_utf8(bytes).ok()
}

/// The UTF-8 bytes of `c`.
pub fn utf8_of_char(c: char) -> (b: Vec<u8>)
    ensures
        b@ == vstd::utf8::encode_utf8(seq![c]),
{
    let mut s = String::new();
    string_push(&mut s, c);
    let bytes = s.as_str().as_bytes();
    assert(s@ =~= seq![c]);
    let mut out: Vec<u8> = Vec::new();
    let mut i: usize = 0;
    while i < bytes.len()
        invariant
            i <= bytes@.len(),
            out@ == bytes@.subrange(0, i as int),
        decreases bytes.len() - i,
    {
        out.push(bytes[i]);
        i = i + 1;
        assert(out@ =~= bytes@.subrange(0, i as int));
    }
    assert(out@ =~= bytes@);
    out
}

/// `c` is an ASCII decimal digit.
pub open spec fn is_digit_char(c: char) -> bool {
    '0' <= c && c <= '9'
}

/// The decimal value of a run of ASCII digits.
pub open spec fn decimal_value(s: Seq<char>) -> nat
    decreases s.len(),
{
    if s.len() == 0 {
        0
    } else {
        decimal_value(s.drop_last()) * 10 + ((s.last() as u32) - ('0' as u32)) as nat
    }
}

/// Every char of `s` is an ASCII decimal digit.
pub open spec fn all_digits(s: Seq<char>) -> bool {
    forall|k: int| 0 <= k < s.len() ==> is_digit_char(#[trigger] s[k])
}

/// `s` without its leading sign, if any.
pub open spec fn unsigned_part(s: Seq<char>) -> Seq<char> {
    if s.len() > 0 && (s[0] == '-' || s[0] == '+') {
        s.drop_first()
    } else {
        s
    }
}

/// What `str::parse::<i32>` makes of `s`: an optional `+` or `-`, then at
/// least one ASCII digit and nothing else, with the value in range.
pub open spec fn parse_i32_spec(s: Seq<char>) -> Option<i32> {
    let body = unsigned_part(s);
    let v: int = if s.len() > 0 && s[0] == '-' {
        -(decimal_value(body) as int)
    } else {
        decimal_value(body) as int
    };
    if body.len() > 0 && all_digits(body) && i32::MIN <= v <= i32::MAX {
        Some(v as i32)
    } else {
        None
    }
}

/// Parse `chars[from..to]` as an `i32` the way `str::parse::<i32>` does.
pub fn parse_i32(chars: &[char], from: usize, to: usize) -> (r: Option<i32>)
    requires
        from <= to <= chars@.len(),
    ensures
        r == parse_i32_spec(chars@.subrange(from as int, to as int)),
{
    let ghost s = chars@.subrange(from as int, to as int);
    let neg = from < to && chars[from] == '-';
    let start = if from < to && (chars[from] == '-' || chars[from] == '+') { from + 1 } else { from };
    let ghost body = chars@.subrange(start as int, to as int);
    proof {
        if from < to && (chars@[from as int] == '-' || chars@[from as int] == '+') {
            assert(body =~= s.drop_first());
        } else {
            assert(body =~= s);
        }
    }
    if start == to {
        return None;
    }
    // Accumulate the magnitude, saturating just above 2^31: anything larger
    // is out of range for either sign.
    let mut v: i64 = 0;
    let mut i = start;
    while i < to
        invariant
            from <= start <= i <= to <= chars@.len(),
            body == chars@.subrange(start as int, to as int),
            s == chars@.subrange(from as int, to as int),
            body == unsigned_part(s),
            neg == (s.len() > 0 && s[0] == '-'),
            forall|k: int| start <= k < i ==> is_digit_char(#[trigger] chars@[k]),
            0 <= v <= 0x8000_0001,
            v < 0x8000_0001 ==> v == decimal_value(chars@.subrange(start as int, i as int)),
            v == 0x8000_0001 ==> decimal_value(chars@.subrange(start as int, i as int)) >= 0x8000_0001,
        decreases to - i,
    {
        let c = chars[i];
        if !('0' <= c && c <= '9') {
            proof {
                assert(body[i - start] == c);
                assert(!is_digit_char(body[i - start]));
                assert(!all_digits(body));
            }
            return None;
        }
        let d = (c as u32 - '0' as u32) as i64;
        assert(chars@.subrange(start as int, i + 1).drop_last() =~= chars@.subrange(
            start as int,
            i as int,
        ));
        if v < 0x8000_0001 {
            let nv = v * 10 + d;
            v = if nv >= 0x8000_0001 { 0x8000_0001 } else { nv };
        }
        i = i + 1;
    }
    proof {
        assert forall|k: int| 0 <= k < body.len() implies is_digit_char(#[trigger] body[k]) by {
            assert(body[k] == chars@[start + k]);
        }
    }
    if neg {
        if v == 0x8000_0001 {
            None
        } else if v == 0x8000_0000 {
            Some(i32::MIN)
        } else {
            Some(-(v as i32))
        }
    } else if v >= 0x8000_0000 {
        None
    } else {
        Some(v as i32)
    }
}

/// The view of an optional string slice.
pub open spec fn opt_str_view(o: Option<&str>) -> Option<Seq<char>> {
    match o {
        Some(x) => Some(x@),
        None => None,
    }
}

/// Whether `c` has the Unicode `White_Space` property (`char::is_whitespace`):
/// tab through carriage return, space, next line, no-break space, ogham
/// space mark, the spaces U+2000 to U+200A, the line and paragraph
/// separators, narrow no-break space, medium mathematical space and
/// ideographic space.
pub open spec fn is_space(c: char) -> bool {
    let v = c as u32;
    ||| 0x09 <= v <= 0x0d
    ||| v == 0x20
    ||| v == 0x85
    ||| v == 0xa0
    ||| v == 0x1680
    ||| 0x2000 <= v <= 0x200a
    ||| v == 0x2028
    ||| v == 0x2029
    ||| v == 0x202f
    ||| v == 0x205f
    ||| v == 0x3000
}

/// Whether `c` is alphabetic or numeric in Unicode terms (`char::is_alphanumeric`).
pub uninterp spec fn is_alnum(c: char) -> bool;

/// `char::is_whitespace`, which the standard library documents as the
/// Unicode `White_Space` property ([`is_space`]).
#[verifier::external_body]
pub(crate) fn char_is_whitespace(c: char) -> (b: bool)
    ensures
        b == is_space(c),
{
    c.is_whitespace()
}

/// `char::is_alphanumeric`: documented as `is_alphabetic() || is_numeric()`,
/// which for ASCII holds exactly on the letters and the digits.
#[verifier::external_body]
pub(crate) fn char_is_alphanumeric(c: char) -> (b: bool)
    ensures
        b == is_alnum(c),
        (c as u32) < 128 ==> (b <==> (('a' <= c && c <= 'z') || ('A' <= c && c <= 'Z') || (
        '0' <= c && c <= '9'))),
{
    c.is_alphanumeric()
}

} // verus!
