use super::escape::{chars_of, spec_unescape, unescape_string, UnescapeError};
use vstd::prelude::*;

verus! {

// The text of literal tokens: integers, strings and characters.

/// `s` without its `_` separators.
pub open spec fn drop_underscores(s: Seq<char>) -> Seq<char>
    decreases s.len(),
{
    if s.len() == 0 {
        s
    } else if s.last() == '_' {
        drop_underscores(s.drop_last())
    } else {
        drop_underscores(s.drop_last()).push(s.last())
    }
}

/// The value of `c` as a digit in base `radix` (`0-9`, then `a-z` or
/// `A-Z` for 10 and up), if it is one.
pub open spec fn digit_in_radix(c: char, radix: nat) -> Option<nat> {
    let v: Option<nat> = if '0' <= c && c <= '9' {
        Some((c as nat - '0' as nat) as nat)
    } else if 'a' <= c && c <= 'z' {
        Some((c as nat - 'a' as nat + 10) as nat)
    } else if 'A' <= c && c <= 'Z' {
        Some((c as nat - 'A' as nat + 10) as nat)
    } else {
        None
    };
    match v {
        Some(d) => if d < radix {
            Some(d)
        } else {
            None
        },
        None => None,
    }
}

/// All characters are digits in base `radix`.
pub open spec fn all_digits(ds: Seq<char>, radix: nat) -> bool {
    forall|i: int| 0 <= i < ds.len() ==> (#[trigger] digit_in_radix(ds[i], radix)) is Some
}

/// The number that the digits `ds` spell in base `radix`.
pub open spec fn digits_value(ds: Seq<char>, radix: nat) -> nat
    decreases ds.len(),
{
    if ds.len() == 0 {
        0
    } else {
        digits_value(ds.drop_last(), radix) * radix + match digit_in_radix(ds.last(), radix) {
            Some(d) => d,
            None => 0,
        }
    }
}

/// What an unsigned `from_str_radix` reads: an optional `+`, then one or
/// more digits of the radix.
pub open spec fn parse_radix(text: Seq<char>, radix: nat) -> Option<nat> {
    let ds = if text.len() > 0 && text[0] == '+' {
        text.drop_first()
    } else {
        text
    };
    if ds.len() == 0 || !all_digits(ds, radix) {
        None
    } else {
        Some(digits_value(ds, radix))
    }
}

/// The radix that the prefix `0x`, `0b` or `0o` selects (10 without one),
/// and the text after the prefix.
pub open spec fn literal_radix(s: Seq<char>) -> (nat, Seq<char>) {
    if s.len() >= 2 && s[0] == '0' && s[1] == 'x' {
        (16, s.skip(2))
    } else if s.len() >= 2 && s[0] == '0' && s[1] == 'b' {
        (2, s.skip(2))
    } else if s.len() >= 2 && s[0] == '0' && s[1] == 'o' {
        (8, s.skip(2))
    } else {
        (10, s)
    }
}

/// The value of an integer literal: its digits in the radix of its prefix,
/// with `_` separators left out, if they spell a number that fits in a
/// `u128`.
pub open spec fn spec_int_literal(text: Seq<char>) -> Option<u128> {
    let (radix, ds) = literal_radix(drop_underscores(text));
    match parse_radix(ds, radix) {
        Some(n) => if n <= u128::MAX {
            Some(n as u128)
        } else {
            None
        },
        None => None,
    }
}

fn digit_of(c: char, radix: u32) -> (r: Option<u32>)
    requires
        radix <= 36,
    ensures
        match (r, digit_in_radix(c, radix as nat)) {
            (Some(a), Some(b)) => a == b,
            (None, None) => true,
            _ => false,
        },
{
    let v: u32 = if '0' <= c && c <= '9' {
        (c as u32) - ('0' as u32)
    } else if 'a' <= c && c <= 'z' {
        (c as u32) - ('a' as u32) + 10
    } else if 'A' <= c && c <= 'Z' {
        (c as u32) - ('A' as u32) + 10
    } else {
        return None;
    };
    if v < radix {
        Some(v)
    } else {
        None
    }
}

proof fn lemma_digits_value_grows(ds: Seq<char>, radix: nat, d: char)
    requires
        radix >= 1,
    ensures
        digits_value(ds.push(d), radix) >= digits_value(ds, radix),
{
    assert(ds.push(d).drop_last() =~= ds);
    let v = digits_value(ds, radix);
    assert(v * radix >= v) by (nonlinear_arith)
        requires
            radix >= 1,
    ;
}

/// The value of the text of an integer literal token, such as `1_000`,
/// `0xFF`, `0b1010` or `0o17`; `None` where it spells no number or one too
/// large for a `u128`.
pub fn parse_int_literal(text: &str) -> (r: Option<u128>)
    ensures
        r == spec_int_literal(text@),
{
    let cs = chars_of(text);
    let mut clean: Vec<char> = Vec::new();
    let mut i: usize = 0;
    while i < cs.len()
        invariant
            cs@ == text@,
            0 <= i <= cs.len(),
            clean@ == drop_underscores(cs@.take(i as int)),
        decreases cs.len() - i,
    {
        proof {
            assert(cs@.take(i + 1).drop_last() =~= cs@.take(i as int));
        }
        if cs[i] != '_' {
            clean.push(cs[i]);
        }
        i = i + 1;
    }
    proof {
        assert(cs@.take(cs@.len() as int) =~= cs@);
    }
    let n = clean.len();
    let (radix, start): (u32, usize) = if n >= 2 && clean[0] == '0' && clean[1] == 'x' {
        (16, 2)
    } else if n >= 2 && clean[0] == '0' && clean[1] == 'b' {
        (2, 2)
    } else if n >= 2 && clean[0] == '0' && clean[1] == 'o' {
        (8, 2)
    } else {
        (10, 0)
    };
    let ghost rest = clean@.skip(start as int);
    assert(literal_radix(clean@) == (radix as nat, rest));
    let mut k: usize = start;
    if k < n && clean[k] == '+' {
        k = k + 1;
    }
    let ghost ds = clean@.skip(k as int);
    assert(ds =~= if rest.len() > 0 && rest[0] == '+' {
        rest.drop_first()
    } else {
        rest
    });
    if k == n {
        return None;
    }
    let mut acc: u128 = 0;
    let mut overflow = false;
    let mut j: usize = k;
    assert(ds.take(0) =~= Seq::<char>::empty());
    while j < n
        invariant
            n == clean.len(),
            k <= j <= n,
            radix == 2 || radix == 8 || radix == 10 || radix == 16,
            ds == clean@.skip(k as int),
            ds.len() > 0,
            clean@ == drop_underscores(text@),
            literal_radix(clean@) == (radix as nat, rest),
            ds == (if rest.len() > 0 && rest[0] == '+' {
                rest.drop_first()
            } else {
                rest
            }),
            all_digits(ds.take(j - k), radix as nat),
            !overflow ==> acc == digits_value(ds.take(j - k), radix as nat),
            overflow ==> digits_value(ds.take(j - k), radix as nat) > u128::MAX,
        decreases n - j,
    {
        let d = match digit_of(clean[j], radix) {
            Some(d) => d,
            None => {
                proof {
                    assert(ds[j - k] == clean@[j as int]);
                    assert(digit_in_radix(ds[j - k], radix as nat) is None);
                    assert(!all_digits(ds, radix as nat));
                }
                return None;
            },
        };
        let ghost prefix = ds.take(j - k);
        proof {
            assert(ds[j - k] == clean@[j as int]);
            assert(ds.take(j - k + 1) =~= prefix.push(ds[j - k]));
            assert(prefix.push(ds[j - k]).drop_last() =~= prefix);
            lemma_digits_value_grows(prefix, radix as nat, ds[j - k]);
            assert forall|t: int| 0 <= t < j - k + 1 implies (#[trigger] digit_in_radix(
                ds.take(j - k + 1)[t],
                radix as nat,
            )) is Some by {
                if t < j - k {
                    assert(ds.take(j - k + 1)[t] == prefix[t]);
                }
            }
        }
        if !overflow {
            match acc.checked_mul(radix as u128) {
                Some(m) => match m.checked_add(d as u128) {
                    Some(v) => {
                        acc = v;
                    },
                    None => {
                        overflow = true;
                    },
                },
                None => {
                    overflow = true;
                },
            }
        }
        j = j + 1;
    }
    proof {
        assert(ds.take(n - k) =~= ds);
    }
    if overflow {
        None
    } else {
        Some(acc)
    }
}

/// Why the text of a string literal token was refused.
#[derive(Debug, Clone, Copy, PartialEq, Eq, Structural)]
pub enum StringLiteralError {
    /// "invalid or unterminated string literal": the text is not enclosed
    /// in double quotes.
    Unterminated,
    /// An escape sequence inside the quotes is invalid.
    Escape(UnescapeError),
}

/// The value of a string literal token: its text between the quotes with
/// the escapes decoded.
pub open spec fn spec_string_literal(raw: Seq<char>) -> Result<Seq<char>, StringLiteralError> {
    if raw.len() < 2 || raw[0] != '"' || raw.last() != '"' {
        Err(StringLiteralError::Unterminated)
    } else {
        match spec_unescape(raw.subrange(1, raw.len() - 1)) {
            Ok(s) => Ok(s),
            Err(e) => Err(StringLiteralError::Escape(e)),
        }
    }
}

/// Decode the text of a string literal token, quotes included.
pub fn string_literal_value(raw: &str) -> (r: Result<String, StringLiteralError>)
    ensures
        match (r, spec_string_literal(raw@)) {
            (Ok(s), Ok(t)) => s@ == t,
            (Err(e), Err(f)) => e == f,
            _ => false,
        },
{
    let cs = chars_of(raw);
    let n = cs.len();
    if n < 2 || cs[0] != '"' || cs[n - 1] != '"' {
        return Err(StringLiteralError::Unterminated);
    }
    let mut inner: Vec<char> = Vec::new();
    let mut i: usize = 1;
    while i < n - 1
        invariant
            n == cs.len(),
            n >= 2,
            1 <= i <= n - 1,
            inner@ == cs@.subrange(1, i as int),
        decreases n - 1 - i,
    {
        inner.push(cs[i]);
        i = i + 1;
        assert(inner@ =~= cs@.subrange(1, i as int));
    }
    let text = crate::parser::escape::string_of(&inner);
    match unescape_string(text.as_str()) {
        Ok(s) => Ok(s),
        Err(e) => Err(StringLiteralError::Escape(e)),
    }
}

/// The value of a character literal token: the first character between
/// the quotes; `None` for the empty literal `''`, which is reported.
pub open spec fn spec_char_literal(raw: Seq<char>) -> Option<char> {
    if raw.len() > 2 {
        Some(raw[1])
    } else {
        None
    }
}

/// The character of a character literal token, quotes included: the lexer
/// gives such a token only with its opening and closing quote.
pub fn char_literal_value(raw: &str) -> (r: Option<char>)
    requires
        raw@.len() >= 2,
        raw@[0] == '\'',
        raw@.last() == '\'',
    ensures
        r == spec_char_literal(raw@),
{
    let cs = chars_of(raw);
    if cs.len() > 2 {
        Some(cs[1])
    } else {
        None
    }
}

/// Taking out the separators twice is taking them out once.
proof fn lemma_drop_underscores_idempotent(s: Seq<char>)
    ensures
        drop_underscores(drop_underscores(s)) == drop_underscores(s),
    decreases s.len(),
{
    if s.len() > 0 {
        lemma_drop_underscores_idempotent(s.drop_last());
        let p = drop_underscores(s.drop_last());
        if s.last() != '_' {
            assert(p.push(s.last()).drop_last() =~= p);
            assert(p.push(s.last()).last() == s.last());
        }
    }
}

/// Separators do not change an integer literal: its value is that of the
/// same text with every `_` taken out.
pub proof fn law_underscores_ignored(text: Seq<char>)
    ensures
        spec_int_literal(text) == spec_int_literal(drop_underscores(text)),
{
    lemma_drop_underscores_idempotent(text);
}

/// The value of a digit character, written out: `0`-`9` are 0-9 and the
/// letters `a`-`f` and `A`-`F` are 10-15.
pub open spec fn hex_digit_value(c: char) -> int {
    if '0' <= c && c <= '9' {
        c as int - 48
    } else if 'a' <= c && c <= 'f' {
        c as int - 87
    } else if 'A' <= c && c <= 'F' {
        c as int - 55
    } else {
        -1
    }
}

/// The prefix that selects `radix`: `0x` for 16, `0b` for 2, `0o` for 8,
/// none for 10.
pub open spec fn radix_prefix(radix: nat) -> Seq<char> {
    if radix == 16 {
        seq!['0', 'x']
    } else if radix == 2 {
        seq!['0', 'b']
    } else if radix == 8 {
        seq!['0', 'o']
    } else {
        Seq::empty()
    }
}

/// The characters of `ds` are digits below `radix`.
pub open spec fn digits_below(ds: Seq<char>, radix: nat) -> bool {
    forall|i: int| 0 <= i < ds.len() ==> 0 <= #[trigger] hex_digit_value(ds[i]) < radix
}

proof fn lemma_no_underscores(s: Seq<char>)
    requires
        forall|i: int| 0 <= i < s.len() ==> s[i] != '_',
    ensures
        drop_underscores(s) == s,
    decreases s.len(),
{
    if s.len() > 0 {
        lemma_no_underscores(s.drop_last());
        assert(drop_underscores(s.drop_last()).push(s.last()) =~= s);
    }
}

proof fn lemma_digit_agrees(c: char, radix: nat)
    requires
        radix == 2 || radix == 8 || radix == 10 || radix == 16,
        0 <= hex_digit_value(c) < radix,
    ensures
        digit_in_radix(c, radix) == Some(hex_digit_value(c) as nat),
        c != '_' && c != '+' && c != 'x' && c != 'o',
        radix != 16 ==> c != 'b',
{
}

proof fn lemma_value_of_digits(ds: Seq<char>, radix: nat)
    requires
        radix == 2 || radix == 8 || radix == 10 || radix == 16,
        digits_below(ds, radix),
    ensures
        all_digits(ds, radix),
        ds.len() > 0 ==> digits_value(ds, radix) == digits_value(ds.drop_last(), radix) * radix + hex_digit_value(
            ds.last(),
        ),
{
    assert forall|i: int| 0 <= i < ds.len() implies (#[trigger] digit_in_radix(ds[i], radix)) is Some by {
        assert(0 <= hex_digit_value(ds[i]) < radix);
        lemma_digit_agrees(ds[i], radix);
    }
    if ds.len() > 0 {
        assert(0 <= hex_digit_value(ds[ds.len() - 1]) < radix);
        lemma_digit_agrees(ds.last(), radix);
    }
}

proof fn lemma_prefixed_digits_plain(radix: nat, ds: Seq<char>)
    requires
        radix == 2 || radix == 8 || radix == 10 || radix == 16,
        digits_below(ds, radix),
    ensures
        forall|i: int| 0 <= i < (radix_prefix(radix) + ds).len() ==> (radix_prefix(radix) + ds)[i] != '_',
{
    let p = radix_prefix(radix);
    let t = p + ds;
    assert forall|i: int| 0 <= i < t.len() implies t[i] != '_' by {
        if i >= p.len() {
            assert(t[i] == ds[i - p.len()]);
            assert(0 <= hex_digit_value(ds[i - p.len()]) < radix);
            lemma_digit_agrees(ds[i - p.len()], radix);
        }
    }
}

/// An integer literal is read digit by digit in the radix its prefix
/// selects (`0x` hexadecimal, `0b` binary, `0o` octal, none decimal): a
/// single digit is its own value, and one more digit `c` after the digits
/// `ds` multiplies the value by the radix and adds the value of `c`, as
/// long as the result fits in 128 bits.
#[verifier::rlimit(40)]
pub proof fn law_literal_digits(radix: nat, ds: Seq<char>, c: char)
    requires
        radix == 2 || radix == 8 || radix == 10 || radix == 16,
        digits_below(ds, radix),
        0 <= hex_digit_value(c) < radix,
    ensures
        spec_int_literal(radix_prefix(radix).push(c)) == Some(hex_digit_value(c) as u128),
        ds.len() > 0 ==> (spec_int_literal(radix_prefix(radix) + ds) matches Some(v) ==> (v * radix
            + hex_digit_value(c) <= u128::MAX ==> spec_int_literal(radix_prefix(radix) + ds.push(c)) == Some(
            (v * radix + hex_digit_value(c)) as u128,
        ))),
{
    let p = radix_prefix(radix);
    lemma_digit_agrees(c, radix);
    let one = seq![c];
    assert(digits_below(one, radix));
    let ds2 = ds.push(c);
    assert(digits_below(ds2, radix)) by {
        assert forall|i: int| 0 <= i < ds2.len() implies 0 <= #[trigger] hex_digit_value(ds2[i]) < radix by {
            if i < ds.len() {
                assert(ds2[i] == ds[i]);
            }
        }
    }
    // the texts hold no separators
    lemma_prefixed_digits_plain(radix, one);
    lemma_prefixed_digits_plain(radix, ds);
    lemma_prefixed_digits_plain(radix, ds2);
    assert(p.push(c) =~= p + one);
    lemma_no_underscores(p.push(c));
    lemma_no_underscores(p + ds);
    lemma_no_underscores(p + ds2);
    // the prefix selects the radix
    assert(p.push(c) =~= p + one);
    assert((p + one).skip(p.len() as int) =~= one);
    assert((p + ds).skip(p.len() as int) =~= ds);
    assert((p + ds2).skip(p.len() as int) =~= ds2);
    if radix == 10 {
        assert(p + one =~= one);
        assert(p + ds =~= ds);
        assert(p + ds2 =~= ds2);
        if ds.len() > 0 {
            assert(0 <= hex_digit_value(ds[0]) < radix);
            lemma_digit_agrees(ds[0], radix);
        }
        if ds2.len() > 1 {
            assert(0 <= hex_digit_value(ds2[1]) < radix);
            lemma_digit_agrees(ds2[1], radix);
        }
        if ds.len() > 1 {
            assert(0 <= hex_digit_value(ds[1]) < radix);
            lemma_digit_agrees(ds[1], radix);
        }
        assert(0 <= hex_digit_value(ds2[0]) < radix);
        lemma_digit_agrees(ds2[0], radix);
    }
    assert(literal_radix(p + one) == (radix, one));
    lemma_value_of_digits(one, radix);
    assert(one.drop_last() =~= Seq::<char>::empty());
    if ds.len() > 0 {
        assert(literal_radix(p + ds) == (radix, ds));
        assert(literal_radix(p + ds2) == (radix, ds2));
        lemma_value_of_digits(ds, radix);
        lemma_value_of_digits(ds2, radix);
        assert(ds2.drop_last() =~= ds);
        assert(0 <= hex_digit_value(ds[0]) < radix);
        lemma_digit_agrees(ds[0], radix);
        assert(ds2[0] == ds[0]);
    }
}

} // verus!
