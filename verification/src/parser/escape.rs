use vstd::prelude::*;
use vstd::std_specs::iter::IteratorSpec;

verus! {

broadcast use vstd::string::group_string_axioms;

/// Why a string literal's escapes cannot be decoded; each variant stands
/// for one diagnostic of the parser.
#[derive(Debug, Clone, Copy, PartialEq, Eq, Structural)]
pub enum UnescapeError {
    /// "Invalid hex escape sequence": `\x` is not followed by two bytes.
    InvalidHexEscapeSequence,
    /// "Invalid hex escape: ..": the two characters after `\x` are no byte
    /// in hexadecimal.
    InvalidHexEscape,
    /// "Expected '{' after \u"
    ExpectedBraceAfterU,
    /// "Unterminated unicode escape"
    UnterminatedUnicodeEscape,
    /// "Invalid unicode scalar: ..": the text between the braces is no
    /// hexadecimal `u32`.
    InvalidUnicodeScalar,
    /// "Invalid unicode scalar value: ..": the number is no Unicode scalar
    /// value.
    InvalidUnicodeScalarValue(u32),
    /// "unknown escape sequence: `\c`"
    UnknownEscape(char),
    /// "Unterminated escape sequence": a backslash ends the text.
    UnterminatedEscape,
}

/// The value of a hexadecimal digit.
pub open spec fn hex_digit_value(c: char) -> Option<nat> {
    if '0' <= c && c <= '9' {
        Some((c as nat - '0' as nat) as nat)
    } else if 'a' <= c && c <= 'f' {
        Some((c as nat - 'a' as nat + 10) as nat)
    } else if 'A' <= c && c <= 'F' {
        Some((c as nat - 'A' as nat + 10) as nat)
    } else {
        None
    }
}

/// All characters are hexadecimal digits.
pub open spec fn all_hex_digits(ds: Seq<char>) -> bool {
    forall|i: int| 0 <= i < ds.len() ==> (#[trigger] hex_digit_value(ds[i])) is Some
}

/// The number that the hexadecimal digits `ds` spell (0 for no digits).
pub open spec fn hex_number(ds: Seq<char>) -> nat
    decreases ds.len(),
{
    if ds.len() == 0 {
        0
    } else {
        hex_number(ds.drop_last()) * 16 + match hex_digit_value(ds.last()) {
            Some(v) => v,
            None => 0,
        }
    }
}

/// What `from_str_radix(text, 16)` gives for an unsigned type whose largest
/// value is `max`: an optional `+`, then one or more hexadecimal digits
/// whose number does not exceed `max`.
pub open spec fn parse_hex_unsigned(text: Seq<char>, max: nat) -> Option<nat> {
    let digits = if text.len() > 0 && text[0] == '+' {
        text.drop_first()
    } else {
        text
    };
    if digits.len() == 0 || !all_hex_digits(digits) || hex_number(digits) > max {
        None
    } else {
        Some(hex_number(digits))
    }
}

/// Number of bytes of `c` in UTF-8.
pub open spec fn utf8_len(c: char) -> nat {
    if (c as u32) < 0x80 {
        1
    } else if (c as u32) < 0x800 {
        2
    } else if (c as u32) < 0x10000 {
        3
    } else {
        4
    }
}

/// Number of bytes of `s` in UTF-8.
pub open spec fn utf8_len_seq(s: Seq<char>) -> nat
    decreases s.len(),
{
    if s.len() == 0 {
        0
    } else {
        utf8_len(s[0]) + utf8_len_seq(s.drop_first())
    }
}

/// A Unicode scalar value: a code point that is no surrogate.
pub open spec fn is_scalar_value(n: nat) -> bool {
    n < 0xD800 || (0xE000 <= n && n <= 0x10FFFF)
}

/// Index of the first `c` in `s`.
pub open spec fn first_index_of(s: Seq<char>, c: char) -> Option<int>
    decreases s.len(),
{
    if s.len() == 0 {
        None
    } else if s[0] == c {
        Some(0)
    } else {
        match first_index_of(s.drop_first(), c) {
            Some(i) => Some(i + 1),
            None => None,
        }
    }
}

pub proof fn lemma_first_index_of(s: Seq<char>, c: char)
    ensures
        first_index_of(s, c) matches Some(i) ==> 0 <= i < s.len() && s[i] == c && forall|j: int|
            0 <= j < i ==> s[j] != c,
        first_index_of(s, c) is None ==> forall|j: int| 0 <= j < s.len() ==> s[j] != c,
    decreases s.len(),
{
    if s.len() > 0 {
        lemma_first_index_of(s.drop_first(), c);
        if s[0] != c {
            assert forall|j: int| 1 <= j < s.len() implies s[j] == s.drop_first()[j - 1] by {}
        }
    }
}

/// Prepend `c` to a decoded result.
pub open spec fn prepend(c: char, r: Result<Seq<char>, UnescapeError>) -> Result<Seq<char>, UnescapeError> {
    match r {
        Ok(t) => Ok(seq![c] + t),
        Err(e) => Err(e),
    }
}

/// The character that a simple escape `\c` stands for.
pub open spec fn simple_escape(c: char) -> Option<char> {
    if c == 'n' {
        Some('\n')
    } else if c == 'r' {
        Some('\r')
    } else if c == 't' {
        Some('\t')
    } else if c == '\\' {
        Some('\\')
    } else if c == '\'' {
        Some('\'')
    } else if c == '"' {
        Some('"')
    } else if c == '0' {
        Some('\0')
    } else {
        None
    }
}

/// The text of a string literal (without its quotes) with its escape
/// sequences decoded: `\n \r \t \\ \' \" \0`, `\xHH` for a byte (read as
/// the character of that number) and `\u{H..}` for any Unicode scalar value.
pub open spec fn spec_unescape(input: Seq<char>) -> Result<Seq<char>, UnescapeError>
    decreases input.len(),
{
    if input.len() == 0 {
        Ok(Seq::empty())
    } else if input[0] != '\\' {
        prepend(input[0], spec_unescape(input.drop_first()))
    } else if input.len() == 1 {
        Err(UnescapeError::UnterminatedEscape)
    } else {
        let c = input[1];
        let rest = input.skip(2);
        match simple_escape(c) {
            Some(d) => prepend(d, spec_unescape(rest)),
            None => if c == 'x' {
                let hex = rest.take(if rest.len() < 2 { rest.len() as int } else { 2 });
                if utf8_len_seq(hex) != 2 {
                    Err(UnescapeError::InvalidHexEscapeSequence)
                } else {
                    match parse_hex_unsigned(hex, 255) {
                        Some(b) => prepend(b as char, spec_unescape(rest.skip(hex.len() as int))),
                        None => Err(UnescapeError::InvalidHexEscape),
                    }
                }
            } else if c == 'u' {
                if rest.len() == 0 || rest[0] != '{' {
                    Err(UnescapeError::ExpectedBraceAfterU)
                } else {
                    let body = rest.drop_first();
                    match first_index_of(body, '}') {
                        None => Err(UnescapeError::UnterminatedUnicodeEscape),
                        Some(close) => {
                            proof {
                                lemma_first_index_of(body, '}');
                            }
                            match parse_hex_unsigned(body.take(close), 0xFFFF_FFFF) {
                            None => Err(UnescapeError::InvalidUnicodeScalar),
                            Some(n) => if is_scalar_value(n) {
                                prepend(n as char, spec_unescape(body.skip(close + 1)))
                            } else {
                                Err(UnescapeError::InvalidUnicodeScalarValue(n as u32))
                            },
                        }
                        },
                    }
                }
            } else {
                Err(UnescapeError::UnknownEscape(c))
            },
        }
    }
}

/// The characters of `s`.
pub fn chars_of(s: &str) -> (v: Vec<char>)
    ensures
        v@ == s@,
{
    let mut v: Vec<char> = Vec::new();
    for c in iter: s.chars()
        invariant
            v@ == iter.seq().take(iter.index() as int),
    {
        v.push(c);
    }
    assert(v@ =~= s@);
    v
}

/// The value of a hexadecimal digit.
fn hex_digit(c: char) -> (r: Option<u64>)
    ensures
        match hex_digit_value(c) {
            Some(v) => r == Some(v as u64),
            None => r is None,
        },
{
    if '0' <= c && c <= '9' {
        Some((c as u32 - '0' as u32) as u64)
    } else if 'a' <= c && c <= 'f' {
        Some((c as u32 - 'a' as u32 + 10) as u64)
    } else if 'A' <= c && c <= 'F' {
        Some((c as u32 - 'A' as u32 + 10) as u64)
    } else {
        None
    }
}

/// A number spelled by hexadecimal digits is at least that of any prefix.
proof fn lemma_hex_number_prefix(ds: Seq<char>, k: int)
    requires
        0 <= k <= ds.len(),
        all_hex_digits(ds),
    ensures
        hex_number(ds.take(k)) <= hex_number(ds),
    decreases ds.len() - k,
{
    if k < ds.len() {
        lemma_hex_number_prefix(ds, k + 1);
        assert(ds.take(k + 1).drop_last() =~= ds.take(k));
        assert(hex_number(ds.take(k + 1)) >= hex_number(ds.take(k)));
    } else {
        assert(ds.take(k) =~= ds);
    }
}

/// `from_str_radix(text, 16)` for an unsigned type whose largest value is
/// `max`, on `v[start..end]`.
fn parse_hex_range(v: &Vec<char>, start: usize, end: usize, max: u64) -> (r: Option<u64>)
    requires
        start <= end <= v.len(),
    ensures
        match parse_hex_unsigned(v@.subrange(start as int, end as int), max as nat) {
            Some(n) => r == Some(n as u64),
            None => r is None,
        },
{
    let ghost text = v@.subrange(start as int, end as int);
    let mut i = start;
    if i < end && v[i] == '+' {
        i = i + 1;
    }
    let ghost digits = v@.subrange(i as int, end as int);
    proof {
        if start < end && v@[start as int] == '+' {
            assert(text.drop_first() =~= digits);
        } else {
            assert(text =~= digits);
        }
    }
    if i == end {
        return None;
    }
    let first = i;
    assert(digits.len() > 0);
    let mut acc: u64 = 0;
    while i < end
        invariant
            first <= i <= end <= v.len(),
            digits == v@.subrange(first as int, end as int),
            parse_hex_unsigned(v@.subrange(start as int, end as int), max as nat) == (if digits.len()
                == 0 || !all_hex_digits(digits) || hex_number(digits) > max as nat {
                None
            } else {
                Some(hex_number(digits))
            }),
            acc <= max,
            all_hex_digits(v@.subrange(first as int, i as int)),
            acc == hex_number(v@.subrange(first as int, i as int)),
        decreases end - i,
    {
        let d = match hex_digit(v[i]) {
            Some(d) => d,
            None => {
                proof {
                    assert(digits[i - first] == v@[i as int]);
                    assert(hex_digit_value(digits[i - first]) is None);
                }
                return None;
            },
        };
        proof {
            let p = v@.subrange(first as int, i + 1);
            assert(p.drop_last() =~= v@.subrange(first as int, i as int));
            assert(p.last() == v@[i as int]);
            assert forall|k: int| 0 <= k < p.len() implies (#[trigger] hex_digit_value(p[k])) is Some by {
                if k < p.len() - 1 {
                    assert(p[k] == v@.subrange(first as int, i as int)[k]);
                }
            }
        }
        let next: u128 = (acc as u128) * 16 + (d as u128);
        if next > max as u128 {
            proof {
                let p = v@.subrange(first as int, i + 1);
                assert(hex_number(p) == acc * 16 + d);
                if all_hex_digits(digits) {
                    assert(digits.take(i + 1 - first) =~= p);
                    lemma_hex_number_prefix(digits, i + 1 - first);
                }
            }
            return None;
        }
        acc = next as u64;
        i = i + 1;
    }
    proof {
        assert(v@.subrange(first as int, i as int) =~= digits);
    }
    Some(acc)
}

/// Calls `std::char::from_u32`, which gives the character with the number
/// `n` exactly when `n` is a Unicode scalar value.
#[verifier::external_body]
fn char_from_u32(n: u32) -> (r: Option<char>)
    ensures
        is_scalar_value(n as nat) ==> r == Some(n as char),
        !is_scalar_value(n as nat) ==> r is None,
{
    std::char::from_u32(n)
}

/// Calls `String::push`, which appends `c`.
#[verifier::external_body]
pub(crate) fn push_char(s: &mut String, c: char)
    ensures
        final(s)@ == old(s)@.push(c),
{
    s.push(c)
}

/// The string of the characters `v`.
pub(crate) fn string_of(v: &Vec<char>) -> (s: String)
    ensures
        s@ == v@,
{
    let mut s = String::new();
    let mut i: usize = 0;
    while i < v.len()
        invariant
            0 <= i <= v.len(),
            s@ == v@.take(i as int),
        decreases v.len() - i,
    {
        push_char(&mut s, v[i]);
        i = i + 1;
        assert(s@ =~= v@.take(i as int));
    }
    assert(v@.take(v@.len() as int) =~= v@);
    s
}

/// Number of bytes of `c` in UTF-8.
fn char_utf8_len(c: char) -> (n: usize)
    ensures
        n == utf8_len(c),
{
    let u = c as u32;
    if u < 0x80 {
        1
    } else if u < 0x800 {
        2
    } else if u < 0x10000 {
        3
    } else {
        4
    }
}

fn simple_escape_of(c: char) -> (r: Option<char>)
    ensures
        r == simple_escape(c),
{
    if c == 'n' {
        Some('\n')
    } else if c == 'r' {
        Some('\r')
    } else if c == 't' {
        Some('\t')
    } else if c == '\\' {
        Some('\\')
    } else if c == '\'' {
        Some('\'')
    } else if c == '"' {
        Some('"')
    } else if c == '0' {
        Some('\0')
    } else {
        None
    }
}

/// The decoded text `prefix` followed by what the rest decodes to.
pub open spec fn after(prefix: Seq<char>, r: Result<Seq<char>, UnescapeError>) -> Result<Seq<char>, UnescapeError> {
    match r {
        Ok(t) => Ok(prefix + t),
        Err(e) => Err(e),
    }
}

proof fn lemma_first_index_is(s: Seq<char>, c: char, k: int)
    requires
        0 <= k < s.len(),
        s[k] == c,
        forall|j: int| 0 <= j < k ==> s[j] != c,
    ensures
        first_index_of(s, c) == Some(k),
{
    lemma_first_index_of(s, c);
}

/// One step of decoding at position `i`: the character found there and
/// where decoding goes on, or the error that ends it.
pub open spec fn decodes_step(v: Seq<char>, i: int, r: Result<(char, usize), UnescapeError>) -> bool {
    match r {
        Ok((ch, next)) => i < next <= v.len() && spec_unescape(v.skip(i)) == prepend(
            ch,
            spec_unescape(v.skip(next as int)),
        ),
        Err(e) => spec_unescape(v.skip(i)) == Err::<Seq<char>, UnescapeError>(e),
    }
}

/// Decode `\x..` where `v[i]` is the backslash.
fn decode_hex_escape(v: &Vec<char>, i: usize) -> (r: Result<(char, usize), UnescapeError>)
    requires
        i + 1 < v.len(),
        v@[i as int] == '\\',
        v@[i + 1] == 'x',
    ensures
        decodes_step(v@, i as int, r),
{
    let ghost rest = v@.skip(i as int);
    proof {
        assert(rest[0] == '\\');
        assert(rest[1] == 'x');
        assert(rest.skip(2) =~= v@.skip(i + 2));
        assert(simple_escape('x') is None);
    }
    let avail = v.len() - (i + 2);
    let k: usize = if avail < 2 { avail } else { 2 };
    let ghost hex = v@.subrange(i + 2, i + 2 + k);
    let mut blen: usize = 0;
    if k >= 1 {
        blen = blen + char_utf8_len(v[i + 2]);
    }
    if k >= 2 {
        blen = blen + char_utf8_len(v[i + 3]);
    }
    proof {
        assert(rest.skip(2).take(k as int) =~= hex);
        if k == 0 {
            assert(utf8_len_seq(hex) == 0);
        } else if k == 1 {
            assert(hex.drop_first() =~= Seq::<char>::empty());
            assert(utf8_len_seq(hex.drop_first()) == 0);
            assert(utf8_len_seq(hex) == utf8_len(v@[i + 2]));
        } else {
            assert(hex.drop_first().drop_first() =~= Seq::<char>::empty());
            assert(utf8_len_seq(hex.drop_first().drop_first()) == 0);
            assert(hex.drop_first()[0] == v@[i + 3]);
            assert(utf8_len_seq(hex.drop_first()) == utf8_len(v@[i + 3]));
            assert(utf8_len_seq(hex) == utf8_len(v@[i + 2]) + utf8_len(v@[i + 3]));
        }
    }
    if blen != 2 {
        return Err(UnescapeError::InvalidHexEscapeSequence);
    }
    match parse_hex_range(v, i + 2, i + 2 + k, 255) {
        Some(b) => {
            let ch = (b as u8) as char;
            proof {
                assert(rest.skip(2).skip(k as int) =~= v@.skip(i + 2 + k));
            }
            Ok((ch, i + 2 + k))
        },
        None => Err(UnescapeError::InvalidHexEscape),
    }
}

/// Decode `\u{..}` where `v[i]` is the backslash.
fn decode_unicode_escape(v: &Vec<char>, i: usize) -> (r: Result<(char, usize), UnescapeError>)
    requires
        i + 1 < v.len(),
        v@[i as int] == '\\',
        v@[i + 1] == 'u',
    ensures
        decodes_step(v@, i as int, r),
{
    let ghost rest = v@.skip(i as int);
    proof {
        assert(rest[0] == '\\');
        assert(rest[1] == 'u');
        assert(rest.skip(2) =~= v@.skip(i + 2));
        assert(simple_escape('u') is None);
    }
    if i + 2 >= v.len() || v[i + 2] != '{' {
        proof {
            if i + 2 < v.len() {
                assert(rest.skip(2)[0] == v@[i + 2]);
            }
        }
        return Err(UnescapeError::ExpectedBraceAfterU);
    }
    let ghost body = v@.skip(i + 3);
    proof {
        assert(rest.skip(2)[0] == v@[i + 2]);
        assert(rest.skip(2).drop_first() =~= body);
    }
    let mut j: usize = i + 3;
    while j < v.len() && v[j] != '}'
        invariant
            i + 3 <= j <= v.len(),
            body == v@.skip(i + 3),
            forall|m: int| 0 <= m < j - (i + 3) ==> body[m] != '}',
        decreases v.len() - j,
    {
        proof {
            assert(body[j - (i + 3)] == v@[j as int]);
        }
        j = j + 1;
    }
    if j == v.len() {
        proof {
            lemma_first_index_of(body, '}');
            if first_index_of(body, '}') is Some {
                let f = first_index_of(body, '}')->0;
                assert(body[f] == '}');
            }
        }
        return Err(UnescapeError::UnterminatedUnicodeEscape);
    }
    let ghost close = j - (i + 3);
    proof {
        assert(body[close] == v@[j as int]);
        lemma_first_index_is(body, '}', close);
        assert(body.take(close) =~= v@.subrange(i + 3, j as int));
        assert(body.skip(close + 1) =~= v@.skip(j + 1));
    }
    match parse_hex_range(v, i + 3, j, 0xFFFF_FFFF) {
        None => Err(UnescapeError::InvalidUnicodeScalar),
        Some(n) => match char_from_u32(n as u32) {
            None => Err(UnescapeError::InvalidUnicodeScalarValue(n as u32)),
            Some(ch) => Ok((ch, j + 1)),
        },
    }
}

/// Decode the character or escape sequence that starts at `v[i]`.
fn decode_one(v: &Vec<char>, i: usize) -> (r: Result<(char, usize), UnescapeError>)
    requires
        i < v.len(),
    ensures
        decodes_step(v@, i as int, r),
{
    let ghost rest = v@.skip(i as int);
    let c = v[i];
    proof {
        assert(rest[0] == c);
        assert(rest.drop_first() =~= v@.skip(i + 1));
    }
    if c != '\\' {
        return Ok((c, i + 1));
    }
    if i + 1 == v.len() {
        return Err(UnescapeError::UnterminatedEscape);
    }
    let c2 = v[i + 1];
    proof {
        assert(rest[1] == c2);
        assert(rest.skip(2) =~= v@.skip(i + 2));
    }
    match simple_escape_of(c2) {
        Some(d) => Ok((d, i + 2)),
        None => {
            if c2 == 'x' {
                decode_hex_escape(v, i)
            } else if c2 == 'u' {
                decode_unicode_escape(v, i)
            } else {
                Err(UnescapeError::UnknownEscape(c2))
            }
        },
    }
}

/// Decode the escape sequences of the text of a string literal.
pub fn unescape_string(input: &str) -> (r: Result<String, UnescapeError>)
    ensures
        match spec_unescape(input@) {
            Ok(t) => r matches Ok(s) && s@ == t,
            Err(e) => r matches Err(e2) && e2 == e,
        },
{
    let v = chars_of(input);
    let mut out: Vec<char> = Vec::new();
    let mut i: usize = 0;
    proof {
        assert(v@.skip(0) =~= v@);
        assert forall|t: Seq<char>| out@ + t =~= t by {}
    }
    while i < v.len()
        invariant
            0 <= i <= v.len(),
            v@ == input@,
            spec_unescape(v@) == after(out@, spec_unescape(v@.skip(i as int))),
        decreases v.len() - i,
    {
        match decode_one(&v, i) {
            Ok((ch, next)) => {
                proof {
                    match spec_unescape(v@.skip(next as int)) {
                        Ok(t) => assert(out@ + (seq![ch] + t) =~= out@.push(ch) + t),
                        Err(_) => {},
                    }
                }
                out.push(ch);
                i = next;
            },
            Err(e) => {
                return Err(e);
            },
        }
    }
    proof {
        assert(v@.skip(i as int) =~= Seq::<char>::empty());
        assert(out@ + Seq::<char>::empty() =~= out@);
    }
    Ok(string_of(&out))
}

/// Text without a backslash has nothing to decode: it is its own value.
pub proof fn law_unescape_plain(s: Seq<char>)
    requires
        !s.contains('\\'),
    ensures
        spec_unescape(s) == Ok::<Seq<char>, UnescapeError>(s),
    decreases s.len(),
{
    if s.len() > 0 {
        assert(s[0] != '\\') by {
            if s[0] == '\\' {
                assert(s.contains('\\'));
            }
        }
        let rest = s.drop_first();
        assert(!rest.contains('\\')) by {
            if rest.contains('\\') {
                let i = choose|i: int| 0 <= i < rest.len() && rest[i] == '\\';
                assert(s[i + 1] == '\\');
            }
        }
        law_unescape_plain(rest);
        assert(seq![s[0]] + rest =~= s);
    } else {
        assert(s =~= Seq::<char>::empty());
    }
}

/// The simple escapes decode to the characters they name, whatever
/// follows them: `\n` is line feed (10), `\r` carriage return (13), `\t`
/// tab (9), `\\` backslash (92), `\'` quote (39), `\"` double quote (34)
/// and `\0` the zero character; a backslash before another letter is an
/// unknown escape, and a lone backslash at the end is unterminated.
pub proof fn law_simple_escapes(rest: Seq<char>)
    ensures
        spec_unescape(seq!['\\', 'n'] + rest) == prepend(10u32 as char, spec_unescape(rest)),
        spec_unescape(seq!['\\', 'r'] + rest) == prepend(13u32 as char, spec_unescape(rest)),
        spec_unescape(seq!['\\', 't'] + rest) == prepend(9u32 as char, spec_unescape(rest)),
        spec_unescape(seq!['\\', '\\'] + rest) == prepend(92u32 as char, spec_unescape(rest)),
        spec_unescape(seq!['\\', '\''] + rest) == prepend(39u32 as char, spec_unescape(rest)),
        spec_unescape(seq!['\\', '"'] + rest) == prepend(34u32 as char, spec_unescape(rest)),
        spec_unescape(seq!['\\', '0'] + rest) == prepend(0u32 as char, spec_unescape(rest)),
        spec_unescape(seq!['\\', 'q'] + rest) == Err::<Seq<char>, UnescapeError>(UnescapeError::UnknownEscape('q')),
        spec_unescape(seq!['\\']) == Err::<Seq<char>, UnescapeError>(UnescapeError::UnterminatedEscape),
{
    let cs = seq!['n', 'r', 't', '\\', '\'', '"', '0', 'q'];
    assert forall|i: int| 0 <= i < cs.len() implies (seq!['\\', #[trigger] cs[i]] + rest).skip(2) =~= rest by {}
    assert((seq!['\\', 'n'] + rest).skip(2) =~= rest);
    assert((seq!['\\', 'r'] + rest).skip(2) =~= rest);
    assert((seq!['\\', 't'] + rest).skip(2) =~= rest);
    assert((seq!['\\', '\\'] + rest).skip(2) =~= rest);
    assert((seq!['\\', '\''] + rest).skip(2) =~= rest);
    assert((seq!['\\', '"'] + rest).skip(2) =~= rest);
    assert((seq!['\\', '0'] + rest).skip(2) =~= rest);
    assert(10u32 as char == '\n');
    assert(13u32 as char == '\r');
    assert(9u32 as char == '\t');
    assert(92u32 as char == '\\');
    assert(39u32 as char == '\'');
    assert(34u32 as char == '"');
    assert(0u32 as char == '\0');
}

/// `\xHH` decodes to the character whose number the two hexadecimal digits
/// spell, `16 * H + H`, with the digits `0`-`9`, `a`-`f` and `A`-`F`
/// standing for 0 to 15.
pub proof fn law_hex_escape(h1: char, h2: char, rest: Seq<char>)
    requires
        0 <= crate::parser::literal::hex_digit_value(h1) < 16,
        0 <= crate::parser::literal::hex_digit_value(h2) < 16,
    ensures
        spec_unescape(seq!['\\', 'x', h1, h2] + rest) == prepend(
            (16 * crate::parser::literal::hex_digit_value(h1) + crate::parser::literal::hex_digit_value(h2)) as u32
                as char,
            spec_unescape(rest),
        ),
{
    let input = seq!['\\', 'x', h1, h2] + rest;
    let r = input.skip(2);
    assert(r =~= seq![h1, h2] + rest);
    let hex = r.take(2);
    assert(hex =~= seq![h1, h2]);
    assert(hex.drop_first() =~= seq![h2]);
    assert(seq![h2].drop_first() =~= Seq::<char>::empty());
    assert(utf8_len(h1) == 1 && utf8_len(h2) == 1);
    assert(utf8_len_seq(Seq::<char>::empty()) == 0);
    assert(seq![h2][0] == h2);
    assert(utf8_len_seq(seq![h2]) == 1);
    assert(utf8_len_seq(hex) == 2);
    assert(hex[0] != '+');
    assert(all_hex_digits(hex));
    assert(hex.drop_last() =~= seq![h1]);
    assert(seq![h1].drop_last() =~= Seq::<char>::empty());
    assert(hex_digit_value(h1) == Some(crate::parser::literal::hex_digit_value(h1) as nat));
    assert(hex_digit_value(h2) == Some(crate::parser::literal::hex_digit_value(h2) as nat));
    assert(hex_number(Seq::<char>::empty()) == 0);
    assert(seq![h1].last() == h1);
    assert(hex_number(seq![h1]) == crate::parser::literal::hex_digit_value(h1));
    assert(hex_number(hex) == 16 * crate::parser::literal::hex_digit_value(h1) + crate::parser::literal::hex_digit_value(h2));
    assert(r.skip(2) =~= rest);
    assert(simple_escape('x') is None);
}

} // verus!
