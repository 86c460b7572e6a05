//! Text as sequences of characters: the string operations that the rest of the
//! crate is written in.

use vstd::prelude::*;
use vstd::utf8::*;

verus! {

/// `String::push` appends the character at the end of the string.
pub assume_specification[ String::push ](s: &mut String, c: char)
    ensures
        final(s)@ == old(s)@.push(c),
;

/// What `String::from_utf8_lossy` makes of a byte sequence.
pub uninterp spec fn lossy_text(bytes: Seq<u8>) -> Seq<char>;

/// Calls `String::from_utf8_lossy`. The text is a function of the bytes alone;
/// of valid UTF-8 it is the decoding, and elsewhere nothing is said of where the
/// replacement characters fall.
#[verifier::external_body]
pub(crate) fn decode_lossy(bytes: &Vec<u8>) -> (r: String)
    ensures
        r@ == lossy_text(bytes@),
        valid_utf8(bytes@) ==> r@ == decode_utf8(bytes@),
{
    String::from_utf8_lossy(bytes).into_owned()
}

// ---- whole strings ----

/// `a` and `b` hold the same characters.
pub fn same_text(a: &str, b: &str) -> (r: bool)
    ensures
        r == (a@ == b@),
{
    let x = a.as_bytes();
    let y = b.as_bytes();
    proof {
        encode_utf8_valid_utf8(a@);
        encode_utf8_valid_utf8(b@);
        encode_utf8_decode_utf8(a@);
        encode_utf8_decode_utf8(b@);
    }
    if x.len() != y.len() {
        return false;
    }
    let mut i: usize = 0;
    while i < x.len()
        invariant
            0 <= i <= x@.len(),
            x@.len() == y@.len(),
            x@ == encode_utf8(a@),
            y@ == encode_utf8(b@),
            forall|j: int| 0 <= j < i ==> x@[j] == y@[j],
        decreases x@.len() - i,
    {
        if x[i] != y[i] {
            return false;
        }
        i += 1;
    }
    assert(x@ =~= y@);
    true
}

/// The characters of `s`, one by one.
pub fn chars_of(s: &str) -> (r: Vec<char>)
    ensures
        r@ == s@,
{
    let mut out: Vec<char> = Vec::new();
    for c in it: s.chars()
        invariant
            out@.len() == it.index(),
            forall|i: int| 0 <= i < out@.len() ==> out@[i] == it.seq()[i],
    {
        out.push(c);
    }
    assert(out@ =~= s@);
    out
}

/// The string of the characters `v[from..to]`.
pub fn string_of(v: &Vec<char>, from: usize, to: usize) -> (r: String)
    requires
        from <= to <= v@.len(),
    ensures
        r@ == v@.subrange(from as int, to as int),
{
    let mut out = String::new();
    let mut i: usize = from;
    while i < to
        invariant
            from <= i <= to <= v@.len(),
            out@ == v@.subrange(from as int, i as int),
        decreases to - i,
    {
        out.push(v[i]);
        i += 1;
        assert(v@.subrange(from as int, i as int) =~= v@.subrange(from as int, i - 1).push(
            v@[i - 1],
        ));
    }
    out
}

/// `a` followed by `b`.
pub fn cat2(a: &str, b: &str) -> (r: String)
    ensures
        r@ == a@ + b@,
{
    let mut out = a.to_owned();
    out.append(b);
    out
}

/// `a`, `b` and `c`, one after the other.
pub fn cat3(a: &str, b: &str, c: &str) -> (r: String)
    ensures
        r@ == a@ + b@ + c@,
{
    let mut out = a.to_owned();
    out.append(b);
    out.append(c);
    out
}

/// `s` begins with `prefix`.
pub open spec fn starts_with(s: Seq<char>, prefix: Seq<char>) -> bool {
    prefix.len() <= s.len() && s.take(prefix.len() as int) == prefix
}

/// `s` ends with `suffix`.
pub open spec fn ends_with(s: Seq<char>, suffix: Seq<char>) -> bool {
    suffix.len() <= s.len() && s.skip(s.len() - suffix.len()) == suffix
}

/// A text begins with another where the whole is that one and something behind it.
pub proof fn a_prefix_is_followed(s: Seq<char>, prefix: Seq<char>)
    ensures
        starts_with(s, prefix) <==> exists|rest: Seq<char>| s == #[trigger] (prefix + rest),
{
    if starts_with(s, prefix) {
        assert(s =~= prefix + s.skip(prefix.len() as int));
    }
    if exists|rest: Seq<char>| s == #[trigger] (prefix + rest) {
        assert(s.take(prefix.len() as int) =~= prefix);
    }
}

/// A text ends with another where the whole is something and that one behind it.
pub proof fn a_suffix_follows(s: Seq<char>, suffix: Seq<char>)
    ensures
        ends_with(s, suffix) <==> exists|rest: Seq<char>| s == #[trigger] (rest + suffix),
{
    if ends_with(s, suffix) {
        assert(s =~= s.take(s.len() - suffix.len()) + suffix);
    }
    if exists|rest: Seq<char>| s == #[trigger] (rest + suffix) {
        assert(s.skip(s.len() - suffix.len()) =~= suffix);
    }
}

/// Whether `s` begins with `prefix`.
pub fn has_prefix(s: &str, prefix: &str) -> (r: bool)
    ensures
        r == starts_with(s@, prefix@),
        r <==> exists|rest: Seq<char>| s@ == #[trigger] (prefix@ + rest),
{
    proof {
        a_prefix_is_followed(s@, prefix@);
    }
    let v = chars_of(s);
    let p = chars_of(prefix);
    if p.len() > v.len() {
        return false;
    }
    let mut i: usize = 0;
    while i < p.len()
        invariant
            0 <= i <= p@.len() <= v@.len(),
            v@ == s@,
            p@ == prefix@,
            forall|j: int| 0 <= j < i ==> v@[j] == p@[j],
        decreases p@.len() - i,
    {
        if v[i] != p[i] {
            assert(s@.take(p@.len() as int)[i as int] != prefix@[i as int]);
            return false;
        }
        i += 1;
    }
    assert(s@.take(p@.len() as int) =~= prefix@);
    true
}

/// Whether `s` ends with `suffix`.
pub fn has_suffix(s: &str, suffix: &str) -> (r: bool)
    ensures
        r == ends_with(s@, suffix@),
        r <==> exists|rest: Seq<char>| s@ == #[trigger] (rest + suffix@),
{
    proof {
        a_suffix_follows(s@, suffix@);
    }
    let v = chars_of(s);
    let p = chars_of(suffix);
    if p.len() > v.len() {
        return false;
    }
    let off: usize = v.len() - p.len();
    let mut i: usize = 0;
    while i < p.len()
        invariant
            0 <= i <= p@.len() <= v@.len(),
            off + p.len() == v.len(),
            v@ == s@,
            p@ == suffix@,
            forall|j: int| 0 <= j < i ==> v@[off + j] == p@[j],
        decreases p@.len() - i,
    {
        if v[off + i] != p[i] {
            assert(s@.skip(off as int)[i as int] != suffix@[i as int]);
            return false;
        }
        i += 1;
    }
    assert(s@.skip(off as int) =~= suffix@);
    true
}

/// `part` stands somewhere in `s`.
pub open spec fn mentions(s: Seq<char>, part: Seq<char>) -> bool {
    exists|i: int|
        0 <= i <= s.len() - part.len() && #[trigger] s.subrange(i, i + part.len()) == part
}

/// A text mentions what stands between its start and its end.
pub proof fn lemma_mentions(before: Seq<char>, part: Seq<char>, after: Seq<char>)
    ensures
        mentions(before + part + after, part),
{
    let s = before + part + after;
    let i = before.len() as int;
    assert(s.subrange(i, i + part.len()) =~= part);
}

/// A text mentions what some part of it mentions.
pub proof fn lemma_mentions_within(
    before: Seq<char>,
    middle: Seq<char>,
    after: Seq<char>,
    part: Seq<char>,
)
    requires
        mentions(middle, part),
    ensures
        mentions(before + middle + after, part),
{
    let i = choose|i: int|
        0 <= i <= middle.len() - part.len() && #[trigger] middle.subrange(i, i + part.len())
            == part;
    let s = before + middle + after;
    let k = before.len() + i;
    assert(s.subrange(k, k + part.len()) =~= middle.subrange(i, i + part.len()));
}

/// A text without anything around it mentions itself.
pub proof fn lemma_mentions_itself(s: Seq<char>)
    ensures
        mentions(s, s),
{
    assert(s.subrange(0, 0int + s.len()) =~= s);
}

// ---- lists of strings ----

/// The texts of a list of strings.
pub open spec fn texts(v: Seq<String>) -> Seq<Seq<char>> {
    v.map_values(|s: String| s@)
}

/// The parts, with `sep` between each two neighbours.
pub open spec fn joined(parts: Seq<Seq<char>>, sep: Seq<char>) -> Seq<char>
    decreases parts.len(),
{
    if parts.len() == 0 {
        Seq::empty()
    } else if parts.len() == 1 {
        parts[0]
    } else {
        joined(parts.drop_last(), sep) + sep + parts.last()
    }
}

/// Joins strings with a separator.
pub fn join(parts: &Vec<String>, sep: &str) -> (r: String)
    ensures
        r@ == joined(texts(parts@), sep@),
{
    let mut out = String::new();
    let mut i: usize = 0;
    assert(texts(parts@).take(0) =~= Seq::empty());
    while i < parts.len()
        invariant
            0 <= i <= parts@.len(),
            out@ == joined(texts(parts@).take(i as int), sep@),
        decreases parts@.len() - i,
    {
        let ghost before = texts(parts@).take(i as int);
        if i > 0 {
            out.append(sep);
        }
        out.append(parts[i].as_str());
        i += 1;
        proof {
            let after = texts(parts@).take(i as int);
            assert(after.drop_last() =~= before);
            assert(after.last() == parts@[i - 1]@);
            if i == 1 {
                assert(out@ =~= after[0]);
            }
        }
    }
    assert(texts(parts@).take(i as int) =~= texts(parts@));
    out
}

/// A copy of an optional string.
pub fn clone_option(o: &Option<String>) -> (r: Option<String>)
    ensures
        r == *o,
{
    match o {
        Some(s) => Some(s.clone()),
        None => None,
    }
}

// ---- numbers ----

/// The decimal digit `d`, for `d < 10`.
pub open spec fn digit_char(d: int) -> char {
    (48 + d) as char
}

/// The decimal form of `n`, without leading zeros.
pub open spec fn decimal(n: nat) -> Seq<char>
    decreases n,
{
    if n < 10 {
        seq![digit_char(n as int)]
    } else {
        decimal(n / 10).push(digit_char((n % 10) as int))
    }
}

/// The decimal form of a signed integer, with `-` in front of a negative one.
pub open spec fn decimal_int(n: int) -> Seq<char> {
    if n < 0 {
        seq!['-'] + decimal((-n) as nat)
    } else {
        decimal(n as nat)
    }
}

/// Appends the decimal form of `n`.
pub fn push_decimal(out: &mut String, n: u64)
    ensures
        final(out)@ == old(out)@ + decimal(n as nat),
    decreases n,
{
    if n >= 10 {
        push_decimal(out, n / 10);
    }
    let d: u8 = (n % 10) as u8;
    out.push((48 + d) as char);
    assert(out@ =~= old(out)@ + decimal(n as nat));
}

/// Decimal text of a signed integer.
pub fn i64_text(n: i64) -> (r: String)
    ensures
        r@ == decimal_int(n as int),
{
    let mut out = String::new();
    if n < 0 {
        out.push('-');
        let m: u64 = if n == i64::MIN {
            9223372036854775808u64
        } else {
            (-n) as u64
        };
        push_decimal(&mut out, m);
    } else {
        push_decimal(&mut out, n as u64);
    }
    assert(out@ =~= decimal_int(n as int));
    out
}

/// The lower-case hexadecimal digit `d`, for `d < 16`.
pub open spec fn hex_char(d: int) -> char {
    if d < 10 {
        (48 + d) as char
    } else {
        (87 + d) as char
    }
}

/// The lower-case hexadecimal form of `n`, without leading zeros.
pub open spec fn hexadecimal(n: nat) -> Seq<char>
    decreases n,
{
    if n < 16 {
        seq![hex_char(n as int)]
    } else {
        hexadecimal(n / 16).push(hex_char((n % 16) as int))
    }
}

/// Appends the lower-case hexadecimal form of `n`.
pub fn push_hexadecimal(out: &mut String, n: u16)
    ensures
        final(out)@ == old(out)@ + hexadecimal(n as nat),
    decreases n,
{
    if n >= 16 {
        push_hexadecimal(out, n / 16);
    }
    let d: u8 = (n % 16) as u8;
    if d < 10 {
        out.push((48 + d) as char);
    } else {
        out.push((87 + d) as char);
    }
    assert(out@ =~= old(out)@ + hexadecimal(n as nat));
}

/// The value of a decimal digit.
pub open spec fn digit_value(c: char) -> Option<nat> {
    if '0' <= c && c <= '9' {
        Some((c as u32 - 48) as nat)
    } else {
        None
    }
}

/// The number that a run of decimal digits stands for; `None` where some
/// character is no digit.
pub open spec fn digits_value(s: Seq<char>) -> Option<nat>
    decreases s.len(),
{
    if s.len() == 0 {
        Some(0)
    } else {
        match (digits_value(s.drop_last()), digit_value(s.last())) {
            (Some(high), Some(low)) => Some(high * 10 + low),
            _ => None,
        }
    }
}

/// An unsigned 32-bit number in decimal, with an optional `+` in front: at least
/// one digit, nothing but digits, and a value that fits.
pub open spec fn u32_value(s: Seq<char>) -> Option<u32> {
    let digits = if s.len() > 0 && s[0] == '+' {
        s.skip(1)
    } else {
        s
    };
    if digits.len() == 0 {
        None
    } else {
        match digits_value(digits) {
            Some(n) => if n <= u32::MAX {
                Some(n as u32)
            } else {
                None
            },
            None => None,
        }
    }
}

proof fn lemma_digits_value_extends(s: Seq<char>, k: int)
    requires
        0 <= k <= s.len(),
    ensures
        digits_value(s.take(k)) is None ==> digits_value(s) is None,
        digits_value(s.take(k)) is Some && digits_value(s) is Some ==> digits_value(s.take(k))->0
            <= digits_value(s)->0,
    decreases s.len() - k,
{
    if k == s.len() {
        assert(s.take(k) =~= s);
    } else {
        lemma_digits_value_extends(s, k + 1);
        assert(s.take(k + 1).drop_last() =~= s.take(k));
    }
}

/// Reads an unsigned 32-bit decimal number out of `v[from..to]`.
pub fn parse_u32(v: &Vec<char>, from: usize, to: usize) -> (r: Option<u32>)
    requires
        from <= to <= v@.len(),
    ensures
        r == u32_value(v@.subrange(from as int, to as int)),
{
    let ghost whole = v@.subrange(from as int, to as int);
    let mut i: usize = from;
    if from < to && v[from] == '+' {
        i = from + 1;
    }
    let start: usize = i;
    let ghost digits = v@.subrange(start as int, to as int);
    assert(start > from ==> digits =~= whole.skip(1));
    if start == to {
        return None;
    }
    let mut value: u64 = 0;
    assert(digits.take(0) =~= Seq::empty());
    while i < to
        invariant
            from <= start <= i <= to <= v@.len(),
            start < to,
            digits == v@.subrange(start as int, to as int),
            whole == v@.subrange(from as int, to as int),
            digits == (if whole.len() > 0 && whole[0] == '+' {
                whole.skip(1)
            } else {
                whole
            }),
            digits_value(digits.take(i - start)) == Some(value as nat),
            value <= u32::MAX,
        decreases to - i,
    {
        let c: char = v[i];
        proof {
            let next = digits.take(i - start + 1);
            assert(next.drop_last() =~= digits.take(i - start));
            assert(next.last() == c);
            lemma_digits_value_extends(digits, i - start + 1);
        }
        if c < '0' || c > '9' {
            return None;
        }
        let d: u64 = (c as u32 - 48) as u64;
        value = value * 10 + d;
        if value > u32::MAX as u64 {
            return None;
        }
        i += 1;
    }
    assert(digits.take(to - start) =~= digits);
    Some(value as u32)
}

// ---- white space ----

/// The characters with the Unicode `White_Space` property.
pub open spec fn is_white_space(c: char) -> bool {
    let n = c as u32;
    ||| 0x9 <= n <= 0xd
    ||| n == 0x20
    ||| n == 0x85
    ||| n == 0xa0
    ||| n == 0x1680
    ||| 0x2000 <= n <= 0x200a
    ||| n == 0x2028
    ||| n == 0x2029
    ||| n == 0x202f
    ||| n == 0x205f
    ||| n == 0x3000
}

fn white_space(c: char) -> (r: bool)
    ensures
        r == is_white_space(c),
        (c as u32) < 0x80 ==> (r <==> c == ' ' || c == '\t' || c == '\n' || c == '\r'
            || c as u32 == 0xb || c as u32 == 0xc),
        (c as u32) >= 0x80 ==> (r <==> c == '\u{85}' || c == '\u{a0}' || c == '\u{1680}'
            || '\u{2000}' <= c <= '\u{200a}' || c == '\u{2028}' || c == '\u{2029}' || c
            == '\u{202f}' || c == '\u{205f}' || c == '\u{3000}'),
{
    let n: u32 = c as u32;
    (0x9 <= n && n <= 0xd) || n == 0x20 || n == 0x85 || n == 0xa0 || n == 0x1680 || (0x2000 <= n
        && n <= 0x200a) || n == 0x2028 || n == 0x2029 || n == 0x202f || n == 0x205f || n == 0x3000
}

/// `s` without the white space at its start.
pub open spec fn trim_start(s: Seq<char>) -> Seq<char>
    decreases s.len(),
{
    if s.len() > 0 && is_white_space(s[0]) {
        trim_start(s.skip(1))
    } else {
        s
    }
}

/// `s` without the white space at its end.
pub open spec fn trim_end(s: Seq<char>) -> Seq<char>
    decreases s.len(),
{
    if s.len() > 0 && is_white_space(s.last()) {
        trim_end(s.drop_last())
    } else {
        s
    }
}

/// `s` without the white space at either end.
pub open spec fn trimmed(s: Seq<char>) -> Seq<char> {
    trim_end(trim_start(s))
}

/// What is trimmed is white space at the ends, and all of it.
pub proof fn only_the_ends_are_trimmed(s: Seq<char>)
    ensures
        exists|from: int, to: int|
            {
                &&& 0 <= from <= to <= s.len()
                &&& trimmed(s) == #[trigger] s.subrange(from, to)
                &&& forall|i: int|
                    0 <= i < s.len() && !(from <= i < to) ==> is_white_space(#[trigger] s[i])
            },
        trimmed(s).len() > 0 ==> !is_white_space(trimmed(s)[0]) && !is_white_space(
            trimmed(s)[trimmed(s).len() - 1],
        ),
{
    let from = lemma_trim_start(s);
    let t = trim_start(s);
    let n = lemma_trim_end(t);
    let to = from + n;
    assert(trimmed(s) =~= s.subrange(from, to));
    assert forall|i: int| 0 <= i < s.len() && !(from <= i < to) implies is_white_space(
        #[trigger] s[i],
    ) by {
        if i >= to {
            assert(t[i - from] == s[i]);
        }
    }
}

proof fn lemma_trim_start(s: Seq<char>) -> (from: int)
    ensures
        0 <= from <= s.len(),
        trim_start(s) == s.skip(from),
        forall|i: int| 0 <= i < from ==> is_white_space(#[trigger] s[i]),
        from < s.len() ==> !is_white_space(s[from]),
    decreases s.len(),
{
    if s.len() > 0 && is_white_space(s[0]) {
        let rest = s.skip(1);
        let from = lemma_trim_start(rest);
        assert(rest.skip(from) =~= s.skip(from + 1));
        assert forall|i: int| 0 <= i < from + 1 implies is_white_space(#[trigger] s[i]) by {
            if i > 0 {
                assert(rest[i - 1] == s[i]);
            }
        }
        from + 1
    } else {
        assert(s.skip(0) =~= s);
        0
    }
}

proof fn lemma_trim_end(s: Seq<char>) -> (to: int)
    ensures
        0 <= to <= s.len(),
        trim_end(s) == s.take(to),
        forall|i: int| to <= i < s.len() ==> is_white_space(#[trigger] s[i]),
        to > 0 ==> !is_white_space(s[to - 1]),
    decreases s.len(),
{
    if s.len() > 0 && is_white_space(s.last()) {
        let rest = s.drop_last();
        let to = lemma_trim_end(rest);
        assert(rest.take(to) =~= s.take(to));
        assert forall|i: int| to <= i < s.len() implies is_white_space(#[trigger] s[i]) by {
            if i < rest.len() {
                assert(rest[i] == s[i]);
            }
        }
        to
    } else {
        assert(s.take(s.len() as int) =~= s);
        s.len() as int
    }
}

/// White space around a text that has none at its own ends is all that is trimmed.
pub proof fn surroundings_are_trimmed(before: Seq<char>, s: Seq<char>, after: Seq<char>)
    requires
        forall|i: int| 0 <= i < before.len() ==> is_white_space(#[trigger] before[i]),
        forall|i: int| 0 <= i < after.len() ==> is_white_space(#[trigger] after[i]),
        s.len() > 0,
        !is_white_space(s[0]),
        !is_white_space(s[s.len() - 1]),
    ensures
        trimmed(before + s + after) == s,
{
    let whole = before + s + after;
    let from = lemma_trim_start(whole);
    let b = before.len() as int;
    assert(from == b) by {
        if from < b {
            assert(whole[from] == before[from]);
        }
        if from > b {
            assert(whole[b] == s[0]);
        }
    }
    let t = trim_start(whole);
    assert(t =~= s + after);
    let to = lemma_trim_end(t);
    assert(to == s.len()) by {
        if to > s.len() {
            assert(t[to - 1] == after[to - 1 - s.len()]);
        }
        if to < s.len() {
            assert(t[s.len() - 1] == s[s.len() - 1]);
        }
    }
    assert(t.take(to) =~= s);
}

/// The bounds of `v[from..to]` without the white space at either end.
pub fn trim_bounds(v: &Vec<char>, from: usize, to: usize) -> (r: (usize, usize))
    requires
        from <= to <= v@.len(),
    ensures
        from <= r.0 <= r.1 <= to,
        v@.subrange(r.0 as int, r.1 as int) == trimmed(v@.subrange(from as int, to as int)),
{
    let mut a: usize = from;
    while a < to && white_space(v[a])
        invariant
            from <= a <= to <= v@.len(),
            trim_start(v@.subrange(a as int, to as int)) == trim_start(
                v@.subrange(from as int, to as int),
            ),
        decreases to - a,
    {
        assert(v@.subrange(a as int, to as int).skip(1) =~= v@.subrange(a + 1, to as int));
        a += 1;
    }
    let mut b: usize = to;
    while a < b && white_space(v[b - 1])
        invariant
            from <= a <= b <= to <= v@.len(),
            trim_end(v@.subrange(a as int, b as int)) == trim_end(
                v@.subrange(a as int, to as int),
            ),
        decreases b,
    {
        assert(v@.subrange(a as int, b as int).drop_last() =~= v@.subrange(a as int, b - 1));
        b -= 1;
    }
    (a, b)
}

/// The text without the white space at either end.
pub fn trim(s: &str) -> (r: String)
    ensures
        r@ == trimmed(s@),
        exists|from: int, to: int|
            {
                &&& 0 <= from <= to <= s@.len()
                &&& r@ == #[trigger] s@.subrange(from, to)
                &&& forall|i: int|
                    0 <= i < s@.len() && !(from <= i < to) ==> is_white_space(#[trigger] s@[i])
            },
        r@.len() > 0 ==> !is_white_space(r@[0]) && !is_white_space(r@[r@.len() - 1]),
{
    proof {
        only_the_ends_are_trimmed(s@);
    }
    let v = chars_of(s);
    let (a, b) = trim_bounds(&v, 0, v.len());
    assert(v@.subrange(0, v@.len() as int) =~= s@);
    string_of(&v, a, b)
}

// ---- columns ----

/// `n` spaces.
pub open spec fn spaces(n: nat) -> Seq<char> {
    Seq::new(n, |i: int| ' ')
}

/// `s`, filled up with spaces at its end to `width` characters.
pub open spec fn padded(s: Seq<char>, width: nat) -> Seq<char> {
    if s.len() < width {
        s + spaces((width - s.len()) as nat)
    } else {
        s
    }
}

/// Fills a string up with spaces at its end.
pub fn pad_right(s: &str, width: usize) -> (r: String)
    ensures
        r@ == padded(s@, width as nat),
        r@.len() == if s@.len() < width {
            width as nat
        } else {
            s@.len()
        },
        forall|i: int| 0 <= i < s@.len() ==> #[trigger] r@[i] == s@[i],
        forall|i: int| s@.len() <= i < r@.len() ==> #[trigger] r@[i] == ' ',
{
    let mut out = s.to_owned();
    let n: usize = s.unicode_len();
    let mut i: usize = n;
    assert(out@ =~= s@ + spaces(0));
    while i < width
        invariant
            n == s@.len(),
            n <= i,
            i <= width || i == n,
            out@ == s@ + spaces((i - n) as nat),
        decreases width - i,
    {
        out.push(' ');
        i += 1;
        assert(out@ =~= s@ + spaces((i - n) as nat));
    }
    assert(n >= width ==> out@ =~= s@);
    out
}

/// A list as text mentions each of its parts.
pub proof fn list_mentions_its_parts(parts: Seq<Seq<char>>, sep: Seq<char>, i: int)
    requires
        0 <= i < parts.len(),
    ensures
        mentions(joined(parts, sep), parts[i]),
    decreases parts.len(),
{
    let s = joined(parts, sep);
    if parts.len() == 1 {
        lemma_mentions_itself(parts[0]);
        assert(s =~= parts[0]);
    } else if i == parts.len() - 1 {
        lemma_mentions(joined(parts.drop_last(), sep) + sep, parts[i], Seq::empty());
        assert(s =~= joined(parts.drop_last(), sep) + sep + parts[i] + Seq::empty());
    } else {
        list_mentions_its_parts(parts.drop_last(), sep, i);
        lemma_mentions_within(
            Seq::empty(),
            joined(parts.drop_last(), sep),
            sep + parts.last(),
            parts[i],
        );
        assert(s =~= Seq::<char>::empty() + joined(parts.drop_last(), sep) + (sep + parts.last()));
    }
}

/// A list as text is its first part, then the separator, then the list of the
/// others.
pub proof fn list_begins_with_its_first(parts: Seq<Seq<char>>, sep: Seq<char>)
    ensures
        parts.len() == 0 ==> joined(parts, sep).len() == 0,
        parts.len() == 1 ==> joined(parts, sep) == parts[0],
        parts.len() > 1 ==> joined(parts, sep) == parts[0] + sep + joined(parts.skip(1), sep),
    decreases parts.len(),
{
    if parts.len() == 2 {
        assert(parts.drop_last().len() == 1);
        assert(joined(parts.drop_last(), sep) == parts[0]);
        assert(parts.skip(1).len() == 1);
        assert(joined(parts.skip(1), sep) == parts[1]);
    } else if parts.len() > 2 {
        list_begins_with_its_first(parts.drop_last(), sep);
        assert(parts.drop_last().skip(1) =~= parts.skip(1).drop_last());
        assert(joined(parts, sep) =~= parts[0] + sep + joined(parts.skip(1), sep));
    }
}

/// A number in decimal: its last digit is that of its ones, and what stands before
/// it is the number of its tens.
pub proof fn decimal_goes_by_tens(n: nat)
    ensures
        decimal(n).len() > 0,
        decimal(n)[decimal(n).len() - 1] as int == 48 + n % 10,
        n >= 10 ==> decimal(n).drop_last() == decimal(n / 10),
        n < 10 ==> decimal(n).len() == 1,
{
    if n >= 10 {
        assert(decimal(n).drop_last() =~= decimal(n / 10));
    }
}

/// A number in hexadecimal: its last digit is that of its ones, and what stands
/// before it is the number of its sixteens.
pub proof fn hexadecimal_goes_by_sixteens(n: nat)
    ensures
        hexadecimal(n).len() > 0,
        n % 16 < 10 ==> hexadecimal(n)[hexadecimal(n).len() - 1] as int == '0' as int + n % 16,
        n % 16 >= 10 ==> hexadecimal(n)[hexadecimal(n).len() - 1] as int == 'a' as int + n % 16
            - 10,
        n >= 16 ==> hexadecimal(n).drop_last() == hexadecimal(n / 16),
        n < 16 ==> hexadecimal(n).len() == 1,
{
    if n >= 16 {
        assert(hexadecimal(n).drop_last() =~= hexadecimal(n / 16));
    }
}

/// A negative number is written as its amount behind a minus.
pub proof fn negatives_have_a_minus(n: nat)
    requires
        n > 0,
    ensures
        decimal_int(-n) == "-"@ + decimal(n),
        decimal_int(n as int) == decimal(n),
{
    reveal_strlit("-");
    assert("-"@ =~= seq!['-']);
}

/// Decimal text is made of digits, without a zero in front of others, and reads
/// back as the number that it was made of.
pub proof fn decimal_reads_back(n: nat)
    ensures
        digits_value(decimal(n)) == Some(n),
        forall|i: int| 0 <= i < decimal(n).len() ==> '0' <= #[trigger] decimal(n)[i] <= '9',
        decimal(n).len() > 1 ==> decimal(n)[0] != '0',
        n == 0 ==> decimal(n)[0] == '0',
    decreases n,
{
    decimal_goes_by_tens(n);
    let s = decimal(n);
    if n >= 10 {
        decimal_reads_back(n / 10);
        let high = decimal(n / 10);
        assert(s.drop_last() == high);
        assert(digit_value(s.last()) == Some((n % 10) as nat));
        assert forall|i: int| 0 <= i < s.len() implies '0' <= #[trigger] s[i] <= '9' by {
            if i < s.len() - 1 {
                assert(s[i] == high[i]);
            }
        }
        assert(s[0] == high[0]);
        if high.len() == 1 {
            assert(n / 10 < 10) by {
                if n / 10 >= 10 {
                    decimal_goes_by_tens(n / 10);
                    decimal_goes_by_tens(n / 10 / 10);
                }
            }
            decimal_goes_by_tens(n / 10);
        }
    } else {
        assert(s.drop_last() =~= Seq::empty());
        assert(digits_value(s.drop_last()) == Some(0nat));
        assert(digit_value(s.last()) == Some(n));
    }
}

/// A 32-bit number in decimal is read as itself, with a plus in front or without;
/// what is not made of digits is not read.
pub proof fn numbers_are_read(n: u32, s: Seq<char>)
    ensures
        u32_value(decimal(n as nat)) == Some(n),
        u32_value("+"@ + decimal(n as nat)) == Some(n),
        u32_value(s) is Some ==> s.len() > 0 && forall|i: int|
            0 <= i < s.len() && !(i == 0 && s[0] == '+') ==> '0' <= #[trigger] s[i] <= '9',
{
    decimal_reads_back(n as nat);
    reveal_strlit("+");
    assert(("+"@ + decimal(n as nat)).skip(1) =~= decimal(n as nat));
    assert(decimal(n as nat)[0] != '+');
    let digits = if s.len() > 0 && s[0] == '+' {
        s.skip(1)
    } else {
        s
    };
    if u32_value(s) is Some {
        lemma_digits_are_digits(digits);
        assert forall|i: int| 0 <= i < s.len() && !(i == 0 && s[0] == '+') implies '0'
            <= #[trigger] s[i] <= '9' by {
            if s[0] == '+' {
                assert(digits[i - 1] == s[i]);
            }
        }
    }
}

proof fn lemma_digits_are_digits(s: Seq<char>)
    requires
        digits_value(s) is Some,
    ensures
        forall|i: int| 0 <= i < s.len() ==> '0' <= #[trigger] s[i] <= '9',
    decreases s.len(),
{
    if s.len() > 0 {
        lemma_digits_are_digits(s.drop_last());
        assert forall|i: int| 0 <= i < s.len() implies '0' <= #[trigger] s[i] <= '9' by {
            if i < s.len() - 1 {
                assert(s.drop_last()[i] == s[i]);
            }
        }
    }
}

} // verus!
