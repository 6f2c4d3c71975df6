//! Secrets that are shown in part, numbers in texts, and encoding for addresses.

use vstd::prelude::*;

use crate::text::{chars_of, decimal, digit_char, string_of};

verus! {

/// How many bytes a character takes in UTF-8.
pub open spec fn utf8_width(c: char) -> int {
    if (c as u32) < 0x80 {
        1
    } else if (c as u32) < 0x800 {
        2
    } else if (c as u32) < 0x10000 {
        3
    } else {
        4
    }
}

/// How many bytes a text takes in UTF-8.
pub open spec fn byte_len(s: Seq<char>) -> int
    decreases s.len(),
{
    if s.len() == 0 {
        0
    } else {
        byte_len(s.drop_last()) + utf8_width(s.last())
    }
}

/// How many characters take the first `n` bytes of a text, where these end with a character.
pub open spec fn chars_in_bytes(s: Seq<char>, n: int) -> Option<int>
    decreases s.len(),
{
    if byte_len(s) == n {
        Some(s.len() as int)
    } else if s.len() == 0 {
        None
    } else {
        chars_in_bytes(s.drop_last(), n)
    }
}

/// The length of a text in bytes.
pub fn count_bytes(cs: &Vec<char>, to: usize) -> (n: u128)
    requires
        to <= cs.len(),
    ensures
        n == byte_len(cs@.take(to as int)),
        n <= 4 * to,
{
    let mut n: u128 = 0;
    let mut i: usize = 0;
    while i < to
        invariant
            i <= to <= cs.len(),
            n == byte_len(cs@.take(i as int)),
            n <= 4 * i,
        decreases to - i,
    {
        let c: u32 = cs[i] as u32;
        let width: u128 = if c < 0x80 {
            1
        } else if c < 0x800 {
            2
        } else if c < 0x10000 {
            3
        } else {
            4
        };
        assert(cs@.take(i + 1).drop_last() =~= cs@.take(i as int));
        n = n + width;
        i += 1;
    }
    n
}

/// How many characters take the first `n` bytes.
fn find_boundary(cs: &Vec<char>, n: u128) -> (r: Option<usize>)
    ensures
        match r {
            Some(k) => k <= cs.len() && chars_in_bytes(cs@, n as int) == Some(k as int),
            None => chars_in_bytes(cs@, n as int) is None,
        },
{
    let mut k: usize = cs.len();
    assert(cs@.take(k as int) =~= cs@);
    while count_bytes(cs, k) != n
        invariant
            k <= cs.len(),
            chars_in_bytes(cs@, n as int) == chars_in_bytes(cs@.take(k as int), n as int),
        decreases k,
    {
        if k == 0 {
            return None;
        }
        assert(cs@.take(k as int).drop_last() =~= cs@.take(k - 1));
        k -= 1;
    }
    Some(k)
}

/// Whether the first and the last four bytes of a text end with a character.
pub open spec fn cuts_fit(s: Seq<char>) -> bool {
    chars_in_bytes(s, 4) is Some && chars_in_bytes(s, byte_len(s) - 4) is Some
}

/// The first and the last four bytes of a text, with dots between them.
pub open spec fn ends_shown(s: Seq<char>) -> Seq<char> {
    s.take(chars_in_bytes(s, 4)->0) + "..."@ + s.skip(chars_in_bytes(s, byte_len(s) - 4)->0)
}

/// The first and the last four bytes of a text, with dots between them.
fn show_ends(cs: &Vec<char>) -> (out: String)
    requires
        byte_len(cs@) > 4,
        cuts_fit(cs@),
    ensures
        out@ == ends_shown(cs@),
{
    let n = count_bytes(cs, cs.len());
    assert(cs@.take(cs@.len() as int) =~= cs@);
    let mut out = String::new();
    if let Some(a) = find_boundary(cs, 4) {
        if let Some(b) = find_boundary(cs, n - 4) {
            out = string_of(cs, 0, a);
            assert(out@ =~= cs@.take(a as int));
            out.append("...");
            let tail = string_of(cs, b, cs.len());
            assert(tail@ =~= cs@.skip(b as int));
            out.append(tail.as_str());
        }
    }
    out
}

/// A token as it is logged: the first four and the last four characters with dots between them,
/// and of one that is shorter than twelve characters only the first four and dots.
pub open spec fn token_redacted(token: Seq<char>) -> Seq<char> {
    if token.len() >= 12 {
        token.take(4) + "..."@ + token.skip(token.len() - 4)
    } else if token.len() >= 4 {
        token.take(4) + "..."@
    } else {
        token + "..."@
    }
}

/// A token as it is logged.
pub fn redact_token(token: &str) -> (out: String)
    ensures
        out@ == token_redacted(token@),
{
    let cs = chars_of(token);
    let n: usize = if cs.len() >= 4 {
        4
    } else {
        cs.len()
    };
    let mut out = string_of(&cs, 0, n);
    assert(out@ =~= token@.take(n as int));
    out.append("...");
    if cs.len() >= 12 {
        let tail = string_of(&cs, cs.len() - 4, cs.len());
        assert(tail@ =~= token@.skip(token@.len() - 4));
        out.append(tail.as_str());
    }
    assert(token@.take(token@.len() as int) =~= token@);
    out
}

/// Of a token that is logged at most eight characters are told.
pub proof fn law_redacted_token_is_short(token: Seq<char>)
    ensures
        token_redacted(token).len() <= 8 + "..."@.len(),
{
}

/// An access token as it is shown to the user: the first four and the last four bytes of a long
/// one, nothing of a short one.
pub open spec fn token_displayed(token: Seq<char>) -> Seq<char> {
    if byte_len(token) > 8 {
        ends_shown(token)
    } else {
        "***"@
    }
}

/// An access token as it is shown to the user.
pub fn display_token(token: &str) -> (out: String)
    requires
        byte_len(token@) > 8 ==> cuts_fit(token@),
    ensures
        out@ == token_displayed(token@),
{
    let cs = chars_of(token);
    let n = count_bytes(&cs, cs.len());
    assert(cs@.take(cs@.len() as int) =~= cs@);
    if n > 8 {
        show_ends(&cs)
    } else {
        "***".to_string()
    }
}

/// A text of ASCII characters takes one byte for each of them.
proof fn lemma_ascii_bytes(s: Seq<char>)
    requires
        crate::text::all_ascii(s),
    ensures
        byte_len(s) == s.len(),
    decreases s.len(),
{
    if s.len() > 0 {
        assert(crate::text::all_ascii(s.drop_last())) by {
            assert forall|i: int| 0 <= i < s.drop_last().len() implies (#[trigger] s.drop_last()[i]
                as u32) < 128 by {
                assert((s[i] as u32) < 128);
            }
        }
        lemma_ascii_bytes(s.drop_last());
        assert((s[s.len() - 1] as u32) < 128);
    }
}

/// In a text of ASCII characters every cut fits.
proof fn lemma_ascii_cut(s: Seq<char>, n: int)
    requires
        crate::text::all_ascii(s),
        0 <= n <= s.len(),
    ensures
        chars_in_bytes(s, n) == Some(n),
    decreases s.len(),
{
    lemma_ascii_bytes(s);
    if s.len() != n {
        assert forall|i: int| 0 <= i < s.drop_last().len() implies (#[trigger] s.drop_last()[i]
            as u32) < 128 by {
            assert((s[i] as u32) < 128);
        }
        lemma_ascii_cut(s.drop_last(), n);
    }
}

/// Every token of ASCII characters can be cut, and a long one is shown by its first four and last
/// four characters.
pub proof fn law_ascii_token(token: Seq<char>)
    requires
        crate::text::all_ascii(token),
    ensures
        byte_len(token) > 8 ==> cuts_fit(token),
        token_displayed(token) == if token.len() > 8 {
            token.take(4) + "..."@ + token.skip(token.len() - 4)
        } else {
            "***"@
        },
{
    lemma_ascii_bytes(token);
    if token.len() > 8 {
        lemma_ascii_cut(token, 4);
        lemma_ascii_cut(token, token.len() - 4);
    }
}

/// Whether the character is a decimal digit.
pub open spec fn is_digit(c: char) -> bool {
    '0' <= c <= '9'
}

/// Whether the text is made of digits, at least one.
pub open spec fn all_digits(s: Seq<char>) -> bool {
    s.len() > 0 && forall|i: int| 0 <= i < s.len() ==> is_digit(#[trigger] s[i])
}

/// The number that digits stand for.
pub open spec fn digits_value(s: Seq<char>) -> nat
    decreases s.len(),
{
    if s.len() == 0 {
        0
    } else {
        digits_value(s.drop_last()) * 10 + (s.last() as nat - '0' as nat) as nat
    }
}

/// The digits of a number, without the plus sign that may stand before them.
pub open spec fn unsigned_digits(s: Seq<char>) -> Seq<char> {
    if s.len() > 0 && s[0] == '+' {
        s.skip(1)
    } else {
        s
    }
}

/// The number in a text, where it is one that fits.
pub open spec fn number_in(s: Seq<char>) -> Option<u64> {
    let d = unsigned_digits(s);
    if all_digits(d) && digits_value(d) <= u64::MAX {
        Some(digits_value(d) as u64)
    } else {
        None
    }
}

/// More digits make no smaller number.
proof fn lemma_digits_grow(s: Seq<char>, k: int)
    requires
        0 <= k <= s.len(),
    ensures
        digits_value(s.take(k)) <= digits_value(s),
    decreases s.len() - k,
{
    if k < s.len() {
        lemma_digits_grow(s, k + 1);
        assert(s.take(k + 1).drop_last() =~= s.take(k));
    } else {
        assert(s.take(k) =~= s);
    }
}

/// Reads a number.
pub fn parse_number(text: &str) -> (r: Option<u64>)
    ensures
        r == number_in(text@),
{
    let cs = chars_of(text);
    let start: usize = if cs.len() > 0 && cs[0] == '+' {
        1
    } else {
        0
    };
    let ghost d = cs@.skip(start as int);
    assert(cs@.skip(0) =~= cs@);
    assert(d == unsigned_digits(text@));
    if start == cs.len() {
        return None;
    }
    let mut n: u64 = 0;
    let mut i: usize = start;
    while i < cs.len()
        invariant
            start <= i <= cs.len(),
            d == cs@.skip(start as int),
            d == unsigned_digits(text@),
            forall|j: int| 0 <= j < i - start ==> is_digit(#[trigger] d[j]),
            n == digits_value(d.take(i - start)),
        decreases cs.len() - i,
    {
        let c = cs[i];
        assert(d[i - start] == c);
        if !('0' <= c && c <= '9') {
            assert(!is_digit(d[i - start]));
            return None;
        }
        let digit: u64 = (c as u32 - '0' as u32) as u64;
        proof {
            assert(d.take(i - start + 1).drop_last() =~= d.take(i - start));
            lemma_digits_grow(d, i - start + 1);
        }
        match n.checked_mul(10) {
            Some(m) => match m.checked_add(digit) {
                Some(v) => {
                    n = v;
                },
                None => {
                    return None;
                },
            },
            None => {
                return None;
            },
        }
        i += 1;
    }
    assert(d.take(d.len() as int) =~= d);
    Some(n)
}

/// The bytes that stay as they are in an address.
pub open spec fn is_unreserved(b: u8) -> bool {
    48 <= b <= 57 || 65 <= b <= 90 || 97 <= b <= 122 || b == 45 || b == 46 || b == 95 || b == 126
}

/// The hexadecimal digit of a value below 16.
pub open spec fn hex_digit(d: int) -> char {
    if d < 10 {
        (48 + d) as char
    } else {
        (55 + d) as char
    }
}

/// Bytes encoded for an address: unreserved ones stay, others become a percent sign and two
/// hexadecimal digits.
pub open spec fn percent_encoded(bytes: Seq<u8>) -> Seq<char>
    decreases bytes.len(),
{
    if bytes.len() == 0 {
        Seq::empty()
    } else {
        let b = bytes.last();
        percent_encoded(bytes.drop_last()) + (if is_unreserved(b) {
            seq![b as char]
        } else {
            seq!['%', hex_digit(b as int / 16), hex_digit(b as int % 16)]
        })
    }
}

/// Calls `urlencoding::encode`: of the bytes of the text in UTF-8 the letters, digits, hyphens,
/// dots, underscores and tildes of ASCII stay, and the others are written in hexadecimal behind a
/// percent sign.
#[verifier::external_body]
pub(crate) fn url_encode(text: &str) -> (out: String)
    ensures
        out@ == percent_encoded(vstd::utf8::encode_utf8(text@)),
{
    urlencoding::encode(text).to_string()
}

/// The decimal notation of a number is made of digits that stand for it.
proof fn lemma_decimal(n: nat)
    ensures
        all_digits(decimal(n)),
        digits_value(decimal(n)) == n,
    decreases n,
{
    reveal_with_fuel(digits_value, 2);
    let d = decimal(n);
    if n < 10 {
        assert(d.drop_last() =~= Seq::<char>::empty());
        assert(is_digit(d[0]));
    } else {
        lemma_decimal(n / 10);
        assert(d.drop_last() =~= decimal(n / 10));
        assert(is_digit(digit_char(n % 10)));
        assert forall|i: int| 0 <= i < d.len() implies is_digit(#[trigger] d[i]) by {
            if i < d.len() - 1 {
                assert(d[i] == decimal(n / 10)[i]);
            }
        }
    }
}

/// A number that was written in decimal notation is read back.
pub proof fn law_number_reads_back(n: u64)
    ensures
        number_in(decimal(n as nat)) == Some(n),
{
    lemma_decimal(n as nat);
    let d = decimal(n as nat);
    assert(is_digit(d[0]));
    assert(unsigned_digits(d) == d);
}

/// The bytes of a text are those of its parts; a character takes at least one, an ASCII character
/// no more, and none more than four.
pub proof fn law_bytes_in_pieces(a: Seq<char>, b: Seq<char>, c: char)
    ensures
        byte_len(a + b) == byte_len(a) + byte_len(b),
        1 <= byte_len(seq![c]) <= 4,
        byte_len(seq![c]) == 1 <==> (c as u32) < 128,
    decreases b.len(),
{
    assert(seq![c].drop_last() =~= Seq::<char>::empty());
    assert(byte_len(Seq::<char>::empty()) == 0);
    if b.len() == 0 {
        assert(a + b =~= a);
    } else {
        law_bytes_in_pieces(a, b.drop_last(), c);
        assert((a + b).drop_last() =~= a + b.drop_last());
        assert((a + b).last() == b.last());
    }
}

/// Of a token that is logged the first four characters are told, the last four where it is long
/// enough, and no other; two tokens that differ only between these are logged alike.
pub proof fn law_redacted_token_tells_the_ends(token: Seq<char>)
    ensures
        token.len() >= 4 ==> token_redacted(token).take(4) == token.take(4),
        token.len() < 4 ==> token_redacted(token) == token + "..."@,
        4 <= token.len() < 12 ==> token_redacted(token).skip(4) == "..."@,
        token.len() >= 12 ==> token_redacted(token).len() == 11 && token_redacted(token).skip(7)
            == token.skip(token.len() - 4) && token_redacted(token).subrange(4, 7) == "..."@,
{
    reveal_strlit("...");
    let out = token_redacted(token);
    if token.len() >= 4 {
        assert(out.take(4) =~= token.take(4));
    }
    if 4 <= token.len() < 12 {
        assert(out.skip(4) =~= "..."@);
    }
    if token.len() >= 12 {
        assert(out.skip(7) =~= token.skip(token.len() - 4));
        assert(out.subrange(4, 7) =~= "..."@);
    }
}

/// An access token of no more than eight bytes is not shown at all.
pub proof fn law_short_token_is_hidden(a: Seq<char>, b: Seq<char>)
    requires
        byte_len(a) <= 8,
        byte_len(b) <= 8,
    ensures
        token_displayed(a) == token_displayed(b),
        token_displayed(a) == "***"@,
{
}

/// A number may have a plus sign before it; what holds another character, or nothing, is no
/// number, and neither is one that is too great.
pub proof fn law_what_is_a_number(n: nat, s: Seq<char>, i: int)
    ensures
        n <= u64::MAX ==> number_in(seq!['+'] + decimal(n)) == Some(n as u64),
        n > u64::MAX ==> number_in(decimal(n)) is None,
        number_in(Seq::empty()) is None,
        0 <= i < s.len() && !('0' <= s[i] <= '9') && !(i == 0 && s[0] == '+') ==> number_in(
            s,
        ) is None,
{
    lemma_decimal(n);
    let d = decimal(n);
    assert(is_digit(d[0]));
    assert(unsigned_digits(d) == d);
    let plus = seq!['+'] + d;
    assert(plus.skip(1) =~= d);
    if 0 <= i < s.len() && !('0' <= s[i] <= '9') && !(i == 0 && s[0] == '+') {
        let u = unsigned_digits(s);
        if s[0] == '+' {
            assert(u[i - 1] == s[i]);
        } else {
            assert(u[i] == s[i]);
        }
    }
}

/// The value of a hexadecimal digit.
pub open spec fn hex_value(c: char) -> int {
    if '0' <= c <= '9' {
        c as int - '0' as int
    } else {
        c as int - 'A' as int + 10
    }
}

/// Bytes are encoded each by itself. Letters, digits, hyphens, dots, underscores and tildes stay,
/// and any other byte can be read back from the two hexadecimal digits behind its percent sign.
pub proof fn law_bytes_are_encoded_each(a: Seq<u8>, b: Seq<u8>, byte: u8)
    ensures
        percent_encoded(a + b) == percent_encoded(a) + percent_encoded(b),
        ({
            let c = byte as char;
            let out = percent_encoded(seq![byte]);
            if 'a' <= c <= 'z' || 'A' <= c <= 'Z' || '0' <= c <= '9' || c == '-' || c == '.' || c
                == '_' || c == '~' {
                out == seq![c]
            } else {
                &&& out.len() == 3
                &&& out[0] == '%'
                &&& '0' <= out[1] <= '9' || 'A' <= out[1] <= 'F'
                &&& '0' <= out[2] <= '9' || 'A' <= out[2] <= 'F'
                &&& hex_value(out[1]) * 16 + hex_value(out[2]) == byte
            }
        }),
    decreases b.len(),
{
    let none = Seq::<u8>::empty();
    assert(seq![byte].drop_last() =~= none);
    assert(percent_encoded(none) =~= Seq::empty());
    let one = if is_unreserved(byte) {
        seq![byte as char]
    } else {
        seq!['%', hex_digit(byte as int / 16), hex_digit(byte as int % 16)]
    };
    assert(percent_encoded(seq![byte]) =~= one);
    if b.len() == 0 {
        assert(a + b =~= a);
        assert(percent_encoded(a) + percent_encoded(b) =~= percent_encoded(a));
    } else {
        law_bytes_are_encoded_each(a, b.drop_last(), byte);
        assert((a + b).drop_last() =~= a + b.drop_last());
        assert((a + b).last() == b.last());
        assert(percent_encoded(a + b) =~= percent_encoded(a) + percent_encoded(b));
    }
}

} // verus!
