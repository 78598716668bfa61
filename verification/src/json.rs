//! The JSON wire format of a proving request.
//!
//! A request crosses the foreign boundary as one JSON object with a fixed
//! field order, so that the same request always yields the same text. The
//! encoder below produces exactly the text described by [`json_of`]; the
//! decoder recovers the fields from any text the encoder can emit.

use vstd::prelude::*;

use crate::hexout::hex_digit_char;
use crate::request::{null_free, InvocationError, ProofRequest};

verus! {

/// JSON escape of one character: quote and backslash take a backslash
/// escape, control characters a `\u00XX` escape, everything else stands as
/// itself.
pub open spec fn escape_char(c: char) -> Seq<char> {
    if c == '"' {
        seq!['\\', '"']
    } else if c == '\\' {
        seq!['\\', '\\']
    } else if (c as int) < 32 {
        seq!['\\', 'u', '0', '0', hex_digit_char(c as int / 16), hex_digit_char(c as int % 16)]
    } else {
        seq![c]
    }
}

/// JSON escape of a whole string body.
pub open spec fn escape(s: Seq<char>) -> Seq<char>
    decreases s.len(),
{
    if s.len() == 0 {
        Seq::<char>::empty()
    } else {
        escape_char(s[0]) + escape(s.skip(1))
    }
}

/// A quoted JSON string literal.
pub open spec fn quoted(s: Seq<char>) -> Seq<char> {
    seq!['"'] + escape(s) + seq!['"']
}

/// An object key followed by its colon. Keys are fixed ASCII names that need
/// no escaping.
pub open spec fn key(name: Seq<char>) -> Seq<char> {
    seq!['"'] + name + seq!['"', ':']
}

/// Decimal text of a non-negative number, most significant digit first, no
/// leading zeros.
pub open spec fn dec_of(n: int) -> Seq<char>
    recommends
        n >= 0,
    decreases n,
{
    if n < 10 {
        seq![hex_digit_char(n)]
    } else {
        dec_of(n / 10).push(hex_digit_char(n % 10))
    }
}

/// The canonical JSON text of a request: one object, the three indices first
/// and the five string fields after, always in the same order.
pub open spec fn json_of(r: ProofRequest) -> Seq<char> {
    seq!['{'] + key("idx1"@) + dec_of(r.idx1 as int) + seq![','] + key("idx2"@) + dec_of(
        r.idx2 as int,
    ) + seq![','] + key("idx3"@) + dec_of(r.idx3 as int) + seq![','] + key("sig1"@) + quoted(
        r.sig1@,
    ) + seq![','] + key("sig2"@) + quoted(r.sig2@) + seq![','] + key("sig3"@) + quoted(r.sig3@)
        + seq![','] + key("cblk"@) + quoted(r.cblk@) + seq![','] + key("blk"@) + quoted(r.blk@)
        + seq!['}']
}

/// No escape ever produces a null character, so the canonical text of any
/// request is itself null-free and fit for a null-terminated foreign string.
pub proof fn lemma_escape_null_free(s: Seq<char>)
    ensures
        null_free(escape(s)),
    decreases s.len(),
{
    if s.len() > 0 {
        lemma_escape_null_free(s.skip(1));
    }
}

/// Decimal text holds digit characters only, never a null character.
pub proof fn lemma_dec_of_digits(n: int)
    requires
        n >= 0,
    ensures
        dec_of(n).len() >= 1,
        forall|i: int| 0 <= i < dec_of(n).len() ==> is_dec_digit(#[trigger] dec_of(n)[i]),
    decreases n,
{
    if n >= 10 {
        lemma_dec_of_digits(n / 10);
    }
}

/// The canonical JSON text of a request never holds a null character,
/// whatever the fields hold.
pub proof fn lemma_json_of_null_free(r: ProofRequest)
    ensures
        null_free(json_of(r)),
{
    lemma_escape_null_free(r.sig1@);
    lemma_escape_null_free(r.sig2@);
    lemma_escape_null_free(r.sig3@);
    lemma_escape_null_free(r.cblk@);
    lemma_escape_null_free(r.blk@);
    lemma_dec_of_digits(r.idx1 as int);
    lemma_dec_of_digits(r.idx2 as int);
    lemma_dec_of_digits(r.idx3 as int);
    reveal_strlit("idx1");
    reveal_strlit("idx2");
    reveal_strlit("idx3");
    reveal_strlit("sig1");
    reveal_strlit("sig2");
    reveal_strlit("sig3");
    reveal_strlit("cblk");
    reveal_strlit("blk");
}

/// Serialization is deterministic: two requests with the same field values
/// have the same canonical JSON text.
pub proof fn lemma_encode_deterministic(a: ProofRequest, b: ProofRequest)
    requires
        a.idx1 == b.idx1,
        a.idx2 == b.idx2,
        a.idx3 == b.idx3,
        a.sig1@ == b.sig1@,
        a.sig2@ == b.sig2@,
        a.sig3@ == b.sig3@,
        a.cblk@ == b.cblk@,
        a.blk@ == b.blk@,
    ensures
        json_of(a) == json_of(b),
{
}

/// True of the ten decimal digit characters.
pub open spec fn is_dec_digit(c: char) -> bool {
    '0' <= c <= '9'
}

/// The numeric value of a decimal digit character.
pub open spec fn dec_val(c: char) -> int {
    c as int - '0' as int
}

/// True of the characters the encoder uses as hexadecimal digits.
pub open spec fn is_hex_digit_char(c: char) -> bool {
    is_dec_digit(c) || 'a' <= c <= 'f'
}

/// The numeric value of a lowercase hexadecimal digit character.
pub open spec fn hex_val(c: char) -> int {
    if is_dec_digit(c) {
        dec_val(c)
    } else {
        c as int - 'a' as int + 10
    }
}

/// The lowercase hexadecimal digit for a value below sixteen, as executable
/// code.
fn hex_digit(n: u8) -> (c: char)
    requires
        n < 16,
    ensures
        c == hex_digit_char(n as int),
{
    if n == 0 {
        '0'
    } else if n == 1 {
        '1'
    } else if n == 2 {
        '2'
    } else if n == 3 {
        '3'
    } else if n == 4 {
        '4'
    } else if n == 5 {
        '5'
    } else if n == 6 {
        '6'
    } else if n == 7 {
        '7'
    } else if n == 8 {
        '8'
    } else if n == 9 {
        '9'
    } else if n == 10 {
        'a'
    } else if n == 11 {
        'b'
    } else if n == 12 {
        'c'
    } else if n == 13 {
        'd'
    } else if n == 14 {
        'e'
    } else {
        'f'
    }
}

/// Appends the escape of one character.
fn push_escaped_char(out: &mut Vec<char>, c: char)
    ensures
        final(out)@ == old(out)@ + escape_char(c),
{
    if c == '"' {
        out.push('\\');
        out.push('"');
    } else if c == '\\' {
        out.push('\\');
        out.push('\\');
    } else if (c as u32) < 32 {
        out.push('\\');
        out.push('u');
        out.push('0');
        out.push('0');
        out.push(hex_digit((c as u32 / 16) as u8));
        out.push(hex_digit((c as u32 % 16) as u8));
    } else {
        out.push(c);
    }
    assert(out@ =~= old(out)@ + escape_char(c));
}

/// Appends the escape of the tail of `s` that starts at `i`.
fn push_escaped_from(out: &mut Vec<char>, s: &str, i: usize, len: usize)
    requires
        len == s@.len(),
        i <= len,
    ensures
        final(out)@ == old(out)@ + escape(s@.skip(i as int)),
    decreases len - i,
{
    if i < len {
        let c = s.get_char(i);
        push_escaped_char(out, c);
        push_escaped_from(out, s, i + 1, len);
        proof {
            assert(s@.skip(i as int).skip(1) =~= s@.skip(i + 1));
            assert(s@.skip(i as int)[0] == s@[i as int]);
            assert(out@ =~= old(out)@ + escape(s@.skip(i as int)));
        }
    } else {
        assert(out@ =~= old(out)@ + escape(s@.skip(i as int)));
    }
}

/// Appends a quoted, escaped string value.
fn push_quoted(out: &mut Vec<char>, s: &str)
    ensures
        final(out)@ == old(out)@ + quoted(s@),
{
    out.push('"');
    let len = s.unicode_len();
    push_escaped_from(out, s, 0, len);
    out.push('"');
    proof {
        assert(s@.skip(0) =~= s@);
        assert(out@ =~= old(out)@ + quoted(s@));
    }
}

/// Appends the characters of `s` unchanged, starting at `i`.
fn push_raw_from(out: &mut Vec<char>, s: &str, i: usize, len: usize)
    requires
        len == s@.len(),
        i <= len,
    ensures
        final(out)@ == old(out)@ + s@.skip(i as int),
    decreases len - i,
{
    if i < len {
        out.push(s.get_char(i));
        push_raw_from(out, s, i + 1, len);
        proof {
            assert(out@ =~= old(out)@ + s@.skip(i as int));
        }
    } else {
        assert(out@ =~= old(out)@ + s@.skip(i as int));
    }
}

/// Appends a quoted object key and its colon.
fn push_key(out: &mut Vec<char>, name: &str)
    ensures
        final(out)@ == old(out)@ + key(name@),
{
    out.push('"');
    let len = name.unicode_len();
    push_raw_from(out, name, 0, len);
    out.push('"');
    out.push(':');
    proof {
        assert(name@.skip(0) =~= name@);
        assert(out@ =~= old(out)@ + key(name@));
    }
}

/// Appends the decimal text of `n`.
fn push_dec(out: &mut Vec<char>, n: u32)
    ensures
        final(out)@ == old(out)@ + dec_of(n as int),
    decreases n,
{
    if n >= 10 {
        push_dec(out, n / 10);
    }
    out.push(hex_digit((n % 10) as u8));
}

/// Relies on String's FromIterator over characters: collecting characters
/// yields the string holding exactly those characters in order.
#[verifier::external_body]
fn chars_to_string(v: &Vec<char>) -> (s: String)
    ensures
        s@ == v@,
{
    v.iter().collect()
}

/// Encodes a request as its canonical JSON text. A request with an embedded
/// null character in a string field is rejected before any encoding, since
/// such a request cannot cross the boundary as a null-terminated string;
/// every other request is encoded, and always to the same text.
pub fn encode_request(r: &ProofRequest) -> (res: Result<String, InvocationError>)
    ensures
        res is Ok <==> r.encodable(),
        res matches Ok(t) ==> t@ == json_of(*r) && null_free(t@),
        res matches Err(e) ==> e == InvocationError::Encoding,
{
    if !r.is_encodable() {
        return Err(InvocationError::Encoding);
    }
    let mut out: Vec<char> = Vec::new();
    out.push('{');
    push_key(&mut out, "idx1");
    push_dec(&mut out, r.idx1);
    out.push(',');
    push_key(&mut out, "idx2");
    push_dec(&mut out, r.idx2);
    out.push(',');
    push_key(&mut out, "idx3");
    push_dec(&mut out, r.idx3);
    out.push(',');
    push_key(&mut out, "sig1");
    push_quoted(&mut out, r.sig1.as_str());
    out.push(',');
    push_key(&mut out, "sig2");
    push_quoted(&mut out, r.sig2.as_str());
    out.push(',');
    push_key(&mut out, "sig3");
    push_quoted(&mut out, r.sig3.as_str());
    out.push(',');
    push_key(&mut out, "cblk");
    push_quoted(&mut out, r.cblk.as_str());
    out.push(',');
    push_key(&mut out, "blk");
    push_quoted(&mut out, r.blk.as_str());
    out.push('}');
    proof {
        assert(out@ =~= json_of(*r));
        lemma_json_of_null_free(*r);
    }
    Ok(chars_to_string(&out))
}

/// The field values recovered from a JSON text.
pub struct RequestFields {
    pub idx1: u32,
    pub idx2: u32,
    pub idx3: u32,
    pub sig1: Seq<char>,
    pub sig2: Seq<char>,
    pub sig3: Seq<char>,
    pub cblk: Seq<char>,
    pub blk: Seq<char>,
}

/// Consumes an expected literal prefix, yielding the remainder.
pub open spec fn expect(s: Seq<char>, lit: Seq<char>) -> Option<Seq<char>> {
    if lit.is_prefix_of(s) {
        Some(s.skip(lit.len() as int))
    } else {
        None
    }
}

/// The length of the leading run of decimal digits.
pub open spec fn digit_prefix_len(s: Seq<char>) -> int
    decreases s.len(),
{
    if s.len() > 0 && is_dec_digit(s[0]) {
        1 + digit_prefix_len(s.skip(1))
    } else {
        0
    }
}

/// The value of a digit string, most significant digit first.
pub open spec fn digits_val(d: Seq<char>) -> int
    decreases d.len(),
{
    if d.len() == 0 {
        0
    } else {
        digits_val(d.drop_last()) * 10 + dec_val(d.last())
    }
}

/// Consumes a decimal number that fits in 32 bits, yielding it and the
/// remainder.
pub open spec fn parse_u32(s: Seq<char>) -> Option<(u32, Seq<char>)> {
    let k = digit_prefix_len(s);
    if k == 0 || digits_val(s.take(k)) > u32::MAX as int {
        None
    } else {
        Some((digits_val(s.take(k)) as u32, s.skip(k)))
    }
}

/// Consumes a string body up to its closing quote, undoing the escapes the
/// encoder applies, and yields the field value and the remainder.
pub open spec fn parse_str_body(s: Seq<char>) -> Option<(Seq<char>, Seq<char>)>
    decreases s.len(),
{
    if s.len() == 0 {
        None
    } else if s[0] == '"' {
        Some((Seq::<char>::empty(), s.skip(1)))
    } else if s[0] == '\\' {
        if s.len() >= 2 && (s[1] == '"' || s[1] == '\\') {
            match parse_str_body(s.skip(2)) {
                Some(p) => Some((seq![s[1]] + p.0, p.1)),
                None => None,
            }
        } else if s.len() >= 6 && s[1] == 'u' && s[2] == '0' && s[3] == '0' && is_hex_digit_char(
            s[4],
        ) && is_hex_digit_char(s[5]) && hex_val(s[4]) * 16 + hex_val(s[5]) < 32 {
            match parse_str_body(s.skip(6)) {
                Some(p) => Some((seq![(hex_val(s[4]) * 16 + hex_val(s[5])) as char] + p.0, p.1)),
                None => None,
            }
        } else {
            None
        }
    } else {
        match parse_str_body(s.skip(1)) {
            Some(p) => Some((seq![s[0]] + p.0, p.1)),
            None => None,
        }
    }
}

/// Consumes a numeric object field: the leading punctuation, the key, the
/// number.
pub open spec fn parse_num_field(s: Seq<char>, lead: Seq<char>, name: Seq<char>) -> Option<
    (u32, Seq<char>),
> {
    match expect(s, lead + key(name)) {
        Some(s1) => parse_u32(s1),
        None => None,
    }
}

/// Consumes a string object field: a comma, the key, the quoted value.
pub open spec fn parse_str_field(s: Seq<char>, name: Seq<char>) -> Option<(Seq<char>, Seq<char>)> {
    match expect(s, seq![','] + key(name) + seq!['"']) {
        Some(s1) => parse_str_body(s1),
        None => None,
    }
}

/// Decodes a full canonical request text: the fixed fields in their fixed
/// order, then the closing brace and nothing after it.
pub open spec fn parse_request(s: Seq<char>) -> Option<RequestFields> {
    match parse_num_field(s, seq!['{'], "idx1"@) {
        None => None,
        Some((idx1, s1)) => match parse_num_field(s1, seq![','], "idx2"@) {
            None => None,
            Some((idx2, s2)) => match parse_num_field(s2, seq![','], "idx3"@) {
                None => None,
                Some((idx3, s3)) => match parse_str_field(s3, "sig1"@) {
                    None => None,
                    Some((sig1, s4)) => match parse_str_field(s4, "sig2"@) {
                        None => None,
                        Some((sig2, s5)) => match parse_str_field(s5, "sig3"@) {
                            None => None,
                            Some((sig3, s6)) => match parse_str_field(s6, "cblk"@) {
                                None => None,
                                Some((cblk, s7)) => match parse_str_field(s7, "blk"@) {
                                    None => None,
                                    Some((blk, s8)) => if s8.len() == 1 && s8[0] == '}' {
                                        Some(
                                            RequestFields {
                                                idx1,
                                                idx2,
                                                idx3,
                                                sig1,
                                                sig2,
                                                sig3,
                                                cblk,
                                                blk,
                                            },
                                        )
                                    } else {
                                        None
                                    },
                                },
                            },
                        },
                    },
                },
            },
        },
    }
}

/// Every character value lies in the Unicode scalar range; in particular it
/// is never negative.
proof fn lemma_char_in_range(c: char)
    ensures
        0 <= c as int <= 0x10FFFF,
{
}

/// Consuming an expected literal from a text that starts with it yields the
/// rest of the text.
pub proof fn lemma_expect(lit: Seq<char>, rest: Seq<char>)
    ensures
        expect(lit + rest, lit) == Some(rest),
{
    assert((lit + rest).subrange(0, lit.len() as int) =~= lit);
    assert((lit + rest).skip(lit.len() as int) =~= rest);
}

/// The hexadecimal digit characters decode back to their values.
pub proof fn lemma_hex_val_inverse(k: int)
    requires
        0 <= k < 16,
    ensures
        is_hex_digit_char(hex_digit_char(k)),
        hex_val(hex_digit_char(k)) == k,
{
}

/// The digit run of a digit string followed by a non-digit is the digit
/// string itself.
pub proof fn lemma_digit_prefix_len(d: Seq<char>, rest: Seq<char>)
    requires
        forall|i: int| 0 <= i < d.len() ==> is_dec_digit(#[trigger] d[i]),
        rest.len() > 0,
        !is_dec_digit(rest[0]),
    ensures
        digit_prefix_len(d + rest) == d.len(),
    decreases d.len(),
{
    if d.len() == 0 {
        assert(d + rest =~= rest);
    } else {
        assert((d + rest).skip(1) =~= d.skip(1) + rest);
        lemma_digit_prefix_len(d.skip(1), rest);
    }
}

/// The value of the decimal text of a number is the number again.
pub proof fn lemma_digits_val_dec_of(n: int)
    requires
        n >= 0,
    ensures
        digits_val(dec_of(n)) == n,
    decreases n,
{
    if n < 10 {
        assert(digits_val(Seq::<char>::empty()) == 0);
        assert(dec_of(n).drop_last() =~= Seq::<char>::empty());
        assert(dec_val(hex_digit_char(n)) == n);
    } else {
        vstd::arithmetic::div_mod::lemma_fundamental_div_mod(n, 10);
        vstd::arithmetic::div_mod::lemma_mod_division_less_than_divisor(n, 10);
        vstd::arithmetic::div_mod::lemma_div_pos_is_pos(n, 10);
        lemma_digits_val_dec_of(n / 10);
        let d = dec_of(n / 10).push(hex_digit_char(n % 10));
        assert(dec_of(n) == d);
        assert(d.drop_last() =~= dec_of(n / 10));
        assert(d.last() == hex_digit_char(n % 10));
        assert(dec_val(hex_digit_char(n % 10)) == n % 10);
        assert(digits_val(d) == digits_val(dec_of(n / 10)) * 10 + dec_val(hex_digit_char(n % 10)));
    }
}

/// Parsing a number out of its decimal text followed by a non-digit yields
/// the number and the rest.
pub proof fn lemma_parse_u32_inverse(n: u32, rest: Seq<char>)
    requires
        rest.len() > 0,
        !is_dec_digit(rest[0]),
    ensures
        parse_u32(dec_of(n as int) + rest) == Some((n, rest)),
{
    let d = dec_of(n as int);
    lemma_dec_of_digits(n as int);
    lemma_digit_prefix_len(d, rest);
    let s = d + rest;
    assert(s.take(d.len() as int) =~= d);
    assert(s.skip(d.len() as int) =~= rest);
    lemma_digits_val_dec_of(n as int);
}

/// Parsing a string body out of an escaped field, its closing quote and a
/// rest yields the field and the rest: escaping round-trips.
pub proof fn lemma_parse_str_body_inverse(f: Seq<char>, rest: Seq<char>)
    ensures
        parse_str_body(escape(f) + seq!['"'] + rest) == Some((f, rest)),
    decreases f.len(),
{
    let s = escape(f) + seq!['"'] + rest;
    if f.len() == 0 {
        assert(s =~= seq!['"'] + rest);
        assert(s.skip(1) =~= rest);
    } else {
        let c = f[0];
        let tail = escape(f.skip(1)) + seq!['"'] + rest;
        lemma_parse_str_body_inverse(f.skip(1), rest);
        assert(s =~= escape_char(c) + tail);
        if c == '"' || c == '\\' {
            assert(s.skip(2) =~= tail);
            assert(seq![c] + f.skip(1) =~= f);
        } else if (c as int) < 32 {
            assert(s.skip(6) =~= tail);
            lemma_char_in_range(c);
            vstd::arithmetic::div_mod::lemma_fundamental_div_mod(c as int, 16);
            vstd::arithmetic::div_mod::lemma_mod_division_less_than_divisor(c as int, 16);
            vstd::arithmetic::div_mod::lemma_div_pos_is_pos(c as int, 16);
            assert(0 <= (c as int) / 16 < 2);
            assert(0 <= (c as int) % 16 < 16);
            lemma_hex_val_inverse((c as int) / 16);
            lemma_hex_val_inverse((c as int) % 16);
            assert((c as int) / 16 * 16 + (c as int) % 16 == c as int);
            assert(((c as int) as char) == c);
            assert(seq![c] + f.skip(1) =~= f);
        } else {
            assert(s.skip(1) =~= tail);
            assert(seq![c] + f.skip(1) =~= f);
        }
    }
}

/// Parsing a numeric field out of its canonical text yields the number and
/// the rest.
pub proof fn lemma_parse_num_field_inverse(lead: Seq<char>, name: Seq<char>, n: u32, rest: Seq<char>)
    requires
        rest.len() > 0,
        !is_dec_digit(rest[0]),
    ensures
        parse_num_field(lead + key(name) + dec_of(n as int) + rest, lead, name) == Some((n, rest)),
{
    let s = lead + key(name) + dec_of(n as int) + rest;
    assert(s =~= (lead + key(name)) + (dec_of(n as int) + rest));
    lemma_expect(lead + key(name), dec_of(n as int) + rest);
    lemma_parse_u32_inverse(n, rest);
}

/// Parsing a string field out of its canonical text yields the field value
/// and the rest.
pub proof fn lemma_parse_str_field_inverse(name: Seq<char>, f: Seq<char>, rest: Seq<char>)
    ensures
        parse_str_field(seq![','] + key(name) + quoted(f) + rest, name) == Some((f, rest)),
{
    let s = seq![','] + key(name) + quoted(f) + rest;
    assert(s =~= (seq![','] + key(name) + seq!['"']) + (escape(f) + seq!['"'] + rest));
    lemma_expect(seq![','] + key(name) + seq!['"'], escape(f) + seq!['"'] + rest);
    lemma_parse_str_body_inverse(f, rest);
}

/// A digit string has a non-negative value.
proof fn lemma_digits_val_nonneg(d: Seq<char>)
    requires
        forall|i: int| 0 <= i < d.len() ==> is_dec_digit(#[trigger] d[i]),
    ensures
        digits_val(d) >= 0,
    decreases d.len(),
{
    if d.len() > 0 {
        lemma_digits_val_nonneg(d.drop_last());
    }
}

/// Extending a digit string never shrinks its value.
proof fn lemma_digits_val_prefix(d: Seq<char>, m: int)
    requires
        forall|i: int| 0 <= i < d.len() ==> is_dec_digit(#[trigger] d[i]),
        0 <= m <= d.len(),
    ensures
        digits_val(d.take(m)) <= digits_val(d),
    decreases d.len() - m,
{
    if m < d.len() {
        lemma_digits_val_prefix(d.drop_last(), m);
        assert(d.drop_last().take(m) =~= d.take(m));
        lemma_digits_val_nonneg(d.drop_last());
    } else {
        assert(d.take(m) =~= d);
    }
}

/// Reads the characters of a string into a vector.
fn str_chars(s: &str) -> (v: Vec<char>)
    ensures
        v@ == s@,
{
    let len = s.unicode_len();
    let mut v: Vec<char> = Vec::new();
    for i in 0..len
        invariant
            len == s@.len(),
            v@ =~= s@.take(i as int),
    {
        v.push(s.get_char(i));
        proof {
            assert(v@ =~= s@.take(i + 1));
        }
    }
    proof {
        assert(s@.take(len as int) =~= s@);
    }
    v
}

/// Consumes an expected literal at position `i`, yielding the position after
/// it.
fn expect_lit(v: &Vec<char>, i: usize, lit: &str) -> (r: Option<usize>)
    requires
        i <= v@.len(),
    ensures
        r matches Some(j) ==> i <= j <= v@.len() && expect(v@.skip(i as int), lit@) == Some(
            v@.skip(j as int),
        ),
        r is None ==> expect(v@.skip(i as int), lit@) is None,
{
    let n = lit.unicode_len();
    if v.len() - i < n {
        return None;
    }
    for k in 0..n
        invariant
            n == lit@.len(),
            i + n <= v@.len(),
            i + n <= usize::MAX,
            forall|m: int| 0 <= m < k ==> v@[i + m] == lit@[m],
    {
        if v[i + k] != lit.get_char(k) {
            proof {
                if lit@.is_prefix_of(v@.skip(i as int)) {
                    assert(v@.skip(i as int)[k as int] == lit@[k as int]);
                }
            }
            return None;
        }
    }
    proof {
        assert(lit@ =~= v@.skip(i as int).subrange(0, n as int));
        assert(v@.skip(i as int).skip(n as int) =~= v@.skip(i + n));
    }
    Some(i + n)
}

/// The end of the run of decimal digits that starts at `i`.
fn digit_run(v: &Vec<char>, i: usize) -> (j: usize)
    requires
        i <= v@.len(),
    ensures
        i <= j <= v@.len(),
        j - i == digit_prefix_len(v@.skip(i as int)),
        forall|m: int| i <= m < j ==> is_dec_digit(#[trigger] v@[m]),
        j < v@.len() ==> !is_dec_digit(v@[j as int]),
    decreases v@.len() - i,
{
    if i < v.len() {
        let c = v[i];
        let is_digit = {
            proof {
                lemma_char_in_range(c);
            }
            let u = c as u32;
            ('0' as u32) <= u && u <= ('9' as u32)
        };
        assert(is_digit == is_dec_digit(v@.skip(i as int)[0]));
        if is_digit {
            let j = digit_run(v, i + 1);
            proof {
                assert(v@.skip(i as int).skip(1) =~= v@.skip(i + 1));
            }
            return j;
        }
    }
    i
}

/// The numeric value of a decimal digit character, as executable code.
fn dec_digit_val(c: char) -> (d: u32)
    requires
        is_dec_digit(c),
    ensures
        d as int == dec_val(c),
        d < 10,
{
    proof {
        lemma_char_in_range(c);
    }
    (c as u32) - ('0' as u32)
}

/// Consumes a decimal number at position `i`, yielding it and the position
/// after it.
fn parse_num_at(v: &Vec<char>, i: usize) -> (r: Option<(u32, usize)>)
    requires
        i <= v@.len(),
    ensures
        r matches Some(p) ==> i <= p.1 <= v@.len() && parse_u32(v@.skip(i as int)) == Some(
            (p.0, v@.skip(p.1 as int)),
        ),
        r is None ==> parse_u32(v@.skip(i as int)) is None,
{
    let j = digit_run(v, i);
    if j == i {
        return None;
    }
    let ghost d = v@.skip(i as int).take((j - i) as int);
    proof {
        assert(d =~= v@.subrange(i as int, j as int));
    }
    let mut acc: u64 = 0;
    let mut k = i;
    while k < j
        invariant
            i <= k <= j <= v@.len(),
            j - i == digit_prefix_len(v@.skip(i as int)),
            d == v@.skip(i as int).take((j - i) as int),
            d =~= v@.subrange(i as int, j as int),
            forall|m: int| i <= m < j ==> is_dec_digit(#[trigger] v@[m]),
            acc as int == digits_val(v@.subrange(i as int, k as int)),
            acc <= u32::MAX,
        decreases j - k,
    {
        let step = dec_digit_val(v[k]);
        let next: u64 = acc * 10 + (step as u64);
        proof {
            assert(v@.subrange(i as int, k + 1).drop_last() =~= v@.subrange(i as int, k as int));
            assert(v@.subrange(i as int, k + 1).last() == v@[k as int]);
            assert(next as int == digits_val(v@.subrange(i as int, k + 1)));
        }
        if next > (u32::MAX as u64) {
            proof {
                assert(forall|m: int| 0 <= m < d.len() ==> is_dec_digit(#[trigger] d[m]));
                assert(d.take(k + 1 - i) =~= v@.subrange(i as int, k + 1));
                lemma_digits_val_prefix(d, k + 1 - i);
                assert(digits_val(d) >= digits_val(d.take(k + 1 - i)));
                assert(digits_val(d) > u32::MAX as int);
                assert(digit_prefix_len(v@.skip(i as int)) == j - i);
                assert(parse_u32(v@.skip(i as int)) is None);
            }
            return None;
        }
        acc = next;
        k = k + 1;
    }
    proof {
        assert(v@.subrange(i as int, j as int) =~= d);
        assert(v@.skip(i as int).skip((j - i) as int) =~= v@.skip(j as int));
    }
    Some((acc as u32, j))
}

/// Reports whether `c` is a lowercase hexadecimal digit character, as
/// executable code.
fn is_hex_digit(c: char) -> (r: bool)
    ensures
        r == is_hex_digit_char(c),
{
    proof {
        lemma_char_in_range(c);
    }
    let u = c as u32;
    (('0' as u32) <= u && u <= ('9' as u32)) || (('a' as u32) <= u && u <= ('f' as u32))
}

/// The numeric value of a lowercase hexadecimal digit character, as
/// executable code.
fn hex_digit_val(c: char) -> (d: u32)
    requires
        is_hex_digit_char(c),
    ensures
        d as int == hex_val(c),
        d < 16,
{
    proof {
        lemma_char_in_range(c);
    }
    let u = c as u32;
    if u <= ('9' as u32) {
        u - ('0' as u32)
    } else {
        u - ('a' as u32) + 10
    }
}

/// Consumes a string body at position `i` up to its closing quote, undoing
/// the encoder's escapes.
fn parse_string_at(v: &Vec<char>, i: usize) -> (r: Option<(Vec<char>, usize)>)
    requires
        i <= v@.len(),
    ensures
        r matches Some(p) ==> i <= p.1 <= v@.len() && parse_str_body(v@.skip(i as int)) == Some(
            (p.0@, v@.skip(p.1 as int)),
        ),
        r is None ==> parse_str_body(v@.skip(i as int)) is None,
    decreases v@.len() - i,
{
    if i >= v.len() {
        return None;
    }
    let c = v[i];
    assert(c == v@.skip(i as int)[0]);
    if c == '"' {
        proof {
            assert(v@.skip(i as int).skip(1) =~= v@.skip(i + 1));
        }
        return Some((Vec::new(), i + 1));
    }
    if c == '\\' {
        if i + 1 < v.len() && (v[i + 1] == '"' || v[i + 1] == '\\') {
            assert(v@.skip(i as int).len() >= 2 && v@.skip(i as int)[1] == v@[i + 1]);
            let esc = v[i + 1];
            match parse_string_at(v, i + 2) {
                Some((mut f, j)) => {
                    proof {
                        assert(v@.skip(i as int).skip(2) =~= v@.skip(i + 2));
                    }
                    f.insert(0, esc);
                    proof {
                        assert(f@ =~= seq![v@.skip(i as int)[1]] + f@.skip(1));
                    }
                    return Some((f, j));
                },
                None => {
                    proof {
                        assert(v@.skip(i as int).skip(2) =~= v@.skip(i + 2));
                    }
                    return None;
                },
            }
        }
        let long_enough = v.len() - i >= 6;
        if long_enough && v[i + 1] == 'u' && v[i + 2] == '0' && v[i + 3] == '0' && is_hex_digit(
            v[i + 4],
        ) && is_hex_digit(v[i + 5]) {
            let hi = hex_digit_val(v[i + 4]);
            let lo = hex_digit_val(v[i + 5]);
            let code = hi * 16 + lo;
            assert(code as int == hex_val(v@.skip(i as int)[4]) * 16 + hex_val(
                v@.skip(i as int)[5],
            ));
            if code >= 32 {
                return None;
            }
            let decoded = (code as u8) as char;
            assert(decoded as int == code as int);
            match parse_string_at(v, i + 6) {
                Some((mut f, j)) => {
                    proof {
                        assert(v@.skip(i as int).skip(6) =~= v@.skip(i + 6));
                    }
                    f.insert(0, decoded);
                    proof {
                        assert(f@ =~= seq![decoded] + f@.skip(1));
                    }
                    return Some((f, j));
                },
                None => {
                    proof {
                        assert(v@.skip(i as int).skip(6) =~= v@.skip(i + 6));
                    }
                    return None;
                },
            }
        }
        return None;
    }
    match parse_string_at(v, i + 1) {
        Some((mut f, j)) => {
            proof {
                assert(v@.skip(i as int).skip(1) =~= v@.skip(i + 1));
            }
            f.insert(0, c);
            proof {
                assert(f@ =~= seq![c] + f@.skip(1));
            }
            Some((f, j))
        },
        None => {
            proof {
                assert(v@.skip(i as int).skip(1) =~= v@.skip(i + 1));
            }
            None
        },
    }
}

/// Round trip: decoding the canonical JSON text of any request recovers the
/// request's field values exactly.
#[verifier::rlimit(100)]
pub proof fn lemma_round_trip(r: ProofRequest)
    ensures
        parse_request(json_of(r)) == Some(
            RequestFields {
                idx1: r.idx1,
                idx2: r.idx2,
                idx3: r.idx3,
                sig1: r.sig1@,
                sig2: r.sig2@,
                sig3: r.sig3@,
                cblk: r.cblk@,
                blk: r.blk@,
            },
        ),
{
    let t8 = seq!['}'];
    let t7 = seq![','] + key("blk"@) + quoted(r.blk@) + t8;
    let t6 = seq![','] + key("cblk"@) + quoted(r.cblk@) + t7;
    let t5 = seq![','] + key("sig3"@) + quoted(r.sig3@) + t6;
    let t4 = seq![','] + key("sig2"@) + quoted(r.sig2@) + t5;
    let t3 = seq![','] + key("sig1"@) + quoted(r.sig1@) + t4;
    let t2 = seq![','] + key("idx3"@) + dec_of(r.idx3 as int) + t3;
    let t1 = seq![','] + key("idx2"@) + dec_of(r.idx2 as int) + t2;
    let t0 = seq!['{'] + key("idx1"@) + dec_of(r.idx1 as int) + t1;
    assert(json_of(r) =~= t0);
    lemma_parse_num_field_inverse(seq!['{'], "idx1"@, r.idx1, t1);
    assert(parse_num_field(json_of(r), seq!['{'], "idx1"@) == Some((r.idx1, t1)));
    lemma_parse_num_field_inverse(seq![','], "idx2"@, r.idx2, t2);
    assert(parse_num_field(t1, seq![','], "idx2"@) == Some((r.idx2, t2)));
    lemma_parse_num_field_inverse(seq![','], "idx3"@, r.idx3, t3);
    assert(parse_num_field(t2, seq![','], "idx3"@) == Some((r.idx3, t3)));
    lemma_parse_str_field_inverse("sig1"@, r.sig1@, t4);
    assert(parse_str_field(t3, "sig1"@) == Some((r.sig1@, t4)));
    lemma_parse_str_field_inverse("sig2"@, r.sig2@, t5);
    assert(parse_str_field(t4, "sig2"@) == Some((r.sig2@, t5)));
    lemma_parse_str_field_inverse("sig3"@, r.sig3@, t6);
    assert(parse_str_field(t5, "sig3"@) == Some((r.sig3@, t6)));
    lemma_parse_str_field_inverse("cblk"@, r.cblk@, t7);
    assert(parse_str_field(t6, "cblk"@) == Some((r.cblk@, t7)));
    lemma_parse_str_field_inverse("blk"@, r.blk@, t8);
    assert(parse_str_field(t7, "blk"@) == Some((r.blk@, t8)));
}

/// Decodes a canonical JSON text back into a request. Exactly the texts the
/// encoder emits are accepted: on them the original field values are
/// recovered; every other text is rejected.
pub fn decode_request(text: &str) -> (res: Option<ProofRequest>)
    ensures
        parse_request(text@) matches Some(f) ==> res matches Some(q) && q.idx1 == f.idx1
            && q.idx2 == f.idx2 && q.idx3 == f.idx3 && q.sig1@ == f.sig1 && q.sig2@ == f.sig2
            && q.sig3@ == f.sig3 && q.cblk@ == f.cblk && q.blk@ == f.blk,
        parse_request(text@) is None ==> res is None,
{
    let v = str_chars(text);
    proof {
        reveal_strlit("{\"idx1\":");
        reveal_strlit(",\"idx2\":");
        reveal_strlit(",\"idx3\":");
        reveal_strlit(",\"sig1\":\"");
        reveal_strlit(",\"sig2\":\"");
        reveal_strlit(",\"sig3\":\"");
        reveal_strlit(",\"cblk\":\"");
        reveal_strlit(",\"blk\":\"");
        reveal_strlit("idx1");
        reveal_strlit("idx2");
        reveal_strlit("idx3");
        reveal_strlit("sig1");
        reveal_strlit("sig2");
        reveal_strlit("sig3");
        reveal_strlit("cblk");
        reveal_strlit("blk");
        assert("{\"idx1\":"@ =~= seq!['{'] + key("idx1"@));
        assert(",\"idx2\":"@ =~= seq![','] + key("idx2"@));
        assert(",\"idx3\":"@ =~= seq![','] + key("idx3"@));
        assert(",\"sig1\":\""@ =~= seq![','] + key("sig1"@) + seq!['"']);
        assert(",\"sig2\":\""@ =~= seq![','] + key("sig2"@) + seq!['"']);
        assert(",\"sig3\":\""@ =~= seq![','] + key("sig3"@) + seq!['"']);
        assert(",\"cblk\":\""@ =~= seq![','] + key("cblk"@) + seq!['"']);
        assert(",\"blk\":\""@ =~= seq![','] + key("blk"@) + seq!['"']);
        assert(v@.skip(0) =~= v@);
    }
    let i = match expect_lit(&v, 0, "{\"idx1\":") {
        Some(i) => i,
        None => {
            return None;
        },
    };
    let (idx1, i) = match parse_num_at(&v, i) {
        Some(p) => p,
        None => {
            return None;
        },
    };
    let i = match expect_lit(&v, i, ",\"idx2\":") {
        Some(i) => i,
        None => {
            return None;
        },
    };
    let (idx2, i) = match parse_num_at(&v, i) {
        Some(p) => p,
        None => {
            return None;
        },
    };
    let i = match expect_lit(&v, i, ",\"idx3\":") {
        Some(i) => i,
        None => {
            return None;
        },
    };
    let (idx3, i) = match parse_num_at(&v, i) {
        Some(p) => p,
        None => {
            return None;
        },
    };
    let i = match expect_lit(&v, i, ",\"sig1\":\"") {
        Some(i) => i,
        None => {
            return None;
        },
    };
    let (sig1, i) = match parse_string_at(&v, i) {
        Some(p) => p,
        None => {
            return None;
        },
    };
    let i = match expect_lit(&v, i, ",\"sig2\":\"") {
        Some(i) => i,
        None => {
            return None;
        },
    };
    let (sig2, i) = match parse_string_at(&v, i) {
        Some(p) => p,
        None => {
            return None;
        },
    };
    let i = match expect_lit(&v, i, ",\"sig3\":\"") {
        Some(i) => i,
        None => {
            return None;
        },
    };
    let (sig3, i) = match parse_string_at(&v, i) {
        Some(p) => p,
        None => {
            return None;
        },
    };
    let i = match expect_lit(&v, i, ",\"cblk\":\"") {
        Some(i) => i,
        None => {
            return None;
        },
    };
    let (cblk, i) = match parse_string_at(&v, i) {
        Some(p) => p,
        None => {
            return None;
        },
    };
    let i = match expect_lit(&v, i, ",\"blk\":\"") {
        Some(i) => i,
        None => {
            return None;
        },
    };
    let (blk, i) = match parse_string_at(&v, i) {
        Some(p) => p,
        None => {
            return None;
        },
    };
    if !(i < v.len() && v.len() - i == 1) {
        return None;
    }
    if v[i] != '}' {
        return None;
    }
    Some(
        ProofRequest {
            idx1,
            idx2,
            idx3,
            sig1: chars_to_string(&sig1),
            sig2: chars_to_string(&sig2),
            sig3: chars_to_string(&sig3),
            cblk: chars_to_string(&cblk),
            blk: chars_to_string(&blk),
        },
    )
}

} // verus!
