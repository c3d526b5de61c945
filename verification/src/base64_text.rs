//! Base64, as JSON web tokens use it.

use vstd::prelude::*;
use vstd::string::*;
use base64::Engine;
use crate::text;

verus! {

/// The symbol of a six-bit value, with the last two symbols given.
pub open spec fn symbol(n: int, c62: char, c63: char) -> char {
    if n < 26 {
        (65 + n) as char
    } else if n < 52 {
        (71 + n) as char
    } else if n < 62 {
        (n - 4) as char
    } else if n == 62 {
        c62
    } else {
        c63
    }
}

/// The symbols of a run of bytes, without padding.
pub open spec fn symbols(b: Seq<u8>, c62: char, c63: char) -> Seq<char>
    decreases b.len(),
{
    if b.len() == 0 {
        Seq::empty()
    } else if b.len() == 1 {
        seq![symbol(b[0] as int / 4, c62, c63), symbol((b[0] as int % 4) * 16, c62, c63)]
    } else if b.len() == 2 {
        seq![
            symbol(b[0] as int / 4, c62, c63),
            symbol((b[0] as int % 4) * 16 + b[1] as int / 16, c62, c63),
            symbol((b[1] as int % 16) * 4, c62, c63),
        ]
    } else {
        seq![
            symbol(b[0] as int / 4, c62, c63),
            symbol((b[0] as int % 4) * 16 + b[1] as int / 16, c62, c63),
            symbol((b[1] as int % 16) * 4 + b[2] as int / 64, c62, c63),
            symbol(b[2] as int % 64, c62, c63),
        ] + symbols(b.skip(3), c62, c63)
    }
}

/// So many `=`.
pub open spec fn pads(n: nat) -> Seq<char> {
    Seq::new(n, |i: int| '=')
}

/// The standard notation of a run of bytes, padded to a multiple of four.
pub open spec fn standard_text(b: Seq<u8>) -> Seq<char> {
    symbols(b, '+', '/') + pads(((3 - b.len() % 3) % 3) as nat)
}

/// The notation of a run of bytes in a token: the alphabet that is safe in
/// addresses, without padding.
pub open spec fn token_text(b: Seq<u8>) -> Seq<char> {
    symbols(b, '-', '_')
}

/// The bytes that the standard engine of `base64` decodes a text to, or its
/// complaint.
pub uninterp spec fn standard_bytes(s: Seq<char>) -> Result<Seq<u8>, Seq<char>>;

/// Decodes with `base64::engine::general_purpose::STANDARD`. The result is named
/// [`standard_bytes`] of the text. The engine accepts nothing but the standard
/// notation, canonically padded and without stray bits: it decodes a text to
/// bytes exactly where the text is the notation of those bytes.
#[verifier::external_body]
fn standard_decode(s: &str) -> (r: Result<Vec<u8>, String>)
    ensures
        match r {
            Ok(b) => standard_bytes(s@) == Ok::<Seq<u8>, Seq<char>>(b@) && s@ == standard_text(b@),
            Err(e) => {
                &&& standard_bytes(s@) == Err::<Seq<u8>, Seq<char>>(e@)
                &&& forall|b: Seq<u8>| #[trigger] standard_text(b) != s@
            },
        },
{
    base64::engine::general_purpose::STANDARD.decode(s).map_err(|e| e.to_string())
}

/// The alphabet of tokens turned into the standard one.
pub open spec fn standard_alphabet(s: Seq<char>) -> Seq<char> {
    s.map_values(
        |c: char|
            if c == '-' {
                '+'
            } else if c == '_' {
                '/'
            } else {
                c
            },
    )
}

/// The padding that brings a text to a multiple of four bytes.
pub open spec fn padding_of(s: Seq<char>) -> Seq<char> {
    pads(((4 - vstd::utf8::encode_utf8(s).len() % 4) % 4) as nat)
}

/// A part of a token in standard notation.
pub open spec fn standardized(s: Seq<char>) -> Seq<char> {
    standard_alphabet(s) + padding_of(standard_alphabet(s))
}

/// Turns a part of a token into standard notation.
pub fn standardize(s: &str) -> (r: String)
    ensures
        r@ == standardized(s@),
{
    let v = text::chars_of(s);
    let mut out = String::new();
    let mut i: usize = 0;
    while i < v.len()
        invariant
            i <= v.len(),
            out@ == standard_alphabet(v@.take(i as int)),
        decreases v.len() - i,
    {
        let c: char = if v[i] == '-' {
            '+'
        } else if v[i] == '_' {
            '/'
        } else {
            v[i]
        };
        out.push(c);
        assert(out@ =~= standard_alphabet(v@.take(i + 1)));
        i = i + 1;
    }
    assert(v@.take(v@.len() as int) =~= v@);
    let over: usize = out.as_str().as_bytes().len() % 4;
    let missing: usize = (4 - over) % 4;
    let ghost bare = out@;
    let mut k: usize = 0;
    while k < missing
        invariant
            k <= missing,
            out@ == bare + pads(k as nat),
        decreases missing - k,
    {
        out.push('=');
        k = k + 1;
        assert(out@ =~= bare + pads(k as nat));
    }
    out
}

/// Decodes a part of a token, whose padding may be missing.
pub fn base64_url_decode(s: &str) -> (r: Result<Vec<u8>, String>)
    ensures
        match r {
            Ok(b) => standard_bytes(standardized(s@)) == Ok::<Seq<u8>, Seq<char>>(b@)
                && standardized(s@) == standard_text(b@),
            Err(e) => {
                &&& standard_bytes(standardized(s@)) matches Err(cause) && e@ == "base64 decode: "@
                    + cause
                &&& forall|b: Seq<u8>| #[trigger] standard_text(b) != standardized(s@)
            },
        },
{
    let standard = standardize(s);
    match standard_decode(standard.as_str()) {
        Ok(b) => Ok(b),
        Err(e) => Err(text::labelled("base64 decode: ", e.as_str())),
    }
}

// ---- what holds of the notation ---------------------------------------

proof fn lemma_symbol(n: int)
    requires
        0 <= n < 64,
    ensures
        ({
            let c = symbol(n, '-', '_');
            symbol(n, '+', '/') == if c == '-' {
                '+'
            } else if c == '_' {
                '/'
            } else {
                c
            }
        }),
        symbol(n, '+', '/') != '=',
        '\0' <= symbol(n, '+', '/') <= '\u{7f}',
{
}

proof fn lemma_symbol_distinct(n: int, m: int)
    requires
        0 <= n < 64,
        0 <= m < 64,
        symbol(n, '+', '/') == symbol(m, '+', '/'),
    ensures
        n == m,
{
}

proof fn lemma_token_symbols(b: Seq<u8>)
    ensures
        standard_alphabet(symbols(b, '-', '_')) == symbols(b, '+', '/'),
        forall|i: int|
            0 <= i < symbols(b, '+', '/').len() ==> '\0' <= #[trigger] symbols(b, '+', '/')[i]
                <= '\u{7f}',
        forall|i: int|
            0 <= i < symbols(b, '+', '/').len() ==> #[trigger] symbols(b, '+', '/')[i] != '=',
        symbols(b, '+', '/').len() % 4 == if b.len() % 3 == 0 {
            0nat
        } else {
            b.len() % 3 + 1
        },
        symbols(b, '+', '/').len() == (b.len() / 3) * 4 + if b.len() % 3 == 0 {
            0nat
        } else {
            b.len() % 3 + 1
        },
    decreases b.len(),
{
    if b.len() > 0 {
        let x = b[0] as int;
        lemma_symbol(x / 4);
        lemma_symbol((x % 4) * 16);
        if b.len() > 1 {
            let y = b[1] as int;
            lemma_symbol((x % 4) * 16 + y / 16);
            lemma_symbol((y % 16) * 4);
            if b.len() > 2 {
                let z = b[2] as int;
                lemma_symbol((y % 16) * 4 + z / 64);
                lemma_symbol(z % 64);
                lemma_token_symbols(b.skip(3));
            }
        }
    }
    assert(standard_alphabet(symbols(b, '-', '_')) =~= symbols(b, '+', '/'));
}

/// The notation of any bytes in a token, turned into standard notation, is their
/// standard notation, so that it is decoded.
pub proof fn law_token_text_is_decoded(b: Seq<u8>)
    ensures
        standardized(token_text(b)) == standard_text(b),
{
    lemma_token_symbols(b);
    let s = symbols(b, '+', '/');
    assert(vstd::utf8::is_ascii_chars(s));
    vstd::utf8::is_ascii_chars_encode_utf8(s);
}

/// No two runs of bytes have the same standard notation.
pub proof fn law_notation_is_unambiguous(a: Seq<u8>, b: Seq<u8>)
    requires
        standard_text(a) == standard_text(b),
    ensures
        a == b,
    decreases a.len(),
{
    lemma_token_symbols(a);
    lemma_token_symbols(b);
    let s = standard_text(a);
    let t = standard_text(b);
    assert(s.len() == t.len());
    if a.len() == 0 || b.len() == 0 {
        assert(a =~= b);
    } else {
        let i = s.len() - 1;
        lemma_ends(a);
        lemma_ends(b);
        lemma_quad(a);
        lemma_quad(b);
        if a.len() >= 3 && b.len() >= 3 {
            let p = a.skip(3);
            let q = b.skip(3);
            assert(standard_text(a).skip(4) =~= standard_text(p)) by {
                assert(symbols(a, '+', '/').skip(4) =~= symbols(p, '+', '/'));
                assert(p.len() % 3 == a.len() % 3);
            }
            assert(standard_text(b).skip(4) =~= standard_text(q)) by {
                assert(symbols(b, '+', '/').skip(4) =~= symbols(q, '+', '/'));
                assert(q.len() % 3 == b.len() % 3);
            }
            law_notation_is_unambiguous(p, q);
            lemma_three(a, b);
            assert(a =~= a.take(3) + p);
            assert(b =~= b.take(3) + q);
            assert(a.take(3) =~= b.take(3));
        } else {
            assert(a.len() <= 3 && b.len() <= 3);
            assert(a.len() == b.len());
            lemma_short(a, b);
            assert(a =~= b);
        }
    }
}

proof fn lemma_ends(b: Seq<u8>)
    requires
        b.len() > 0,
    ensures
        ({
            let t = standard_text(b);
            &&& t.len() == ((b.len() + 2) / 3) * 4
            &&& (t[t.len() - 1] == '=') == (b.len() % 3 != 0)
            &&& (t[t.len() - 2] == '=') == (b.len() % 3 == 1)
        }),
{
    lemma_token_symbols(b);
    let t = standard_text(b);
    let s = symbols(b, '+', '/');
    assert(t.len() == s.len() + pads(((3 - b.len() % 3) % 3) as nat).len());
    if b.len() % 3 == 0 {
        assert(s[s.len() - 1] != '=');
        assert(s[s.len() - 2] != '=');
    } else if b.len() % 3 == 1 {
        assert(t[t.len() - 1] == '=');
        assert(t[t.len() - 2] == '=');
    } else {
        assert(t[t.len() - 1] == '=');
        assert(s[s.len() - 1] != '=');
        assert(t[t.len() - 2] == s[s.len() - 1]);
    }
}

/// The first symbols of a notation tell the first bytes.
proof fn lemma_quad(b: Seq<u8>)
    requires
        b.len() > 0,
    ensures
        ({
            let t = standard_text(b);
            let y: int = if b.len() > 1 {
                b[1] as int
            } else {
                0
            };
            &&& t[0] == symbol(b[0] as int / 4, '+', '/')
            &&& t[1] == symbol((b[0] as int % 4) * 16 + y / 16, '+', '/')
            &&& b.len() == 2 ==> t[2] == symbol((y % 16) * 4, '+', '/')
            &&& b.len() > 2 ==> t[2] == symbol((y % 16) * 4 + b[2] as int / 64, '+', '/')
            &&& b.len() > 2 ==> t[3] == symbol(b[2] as int % 64, '+', '/')
        }),
{
}

proof fn lemma_three(a: Seq<u8>, b: Seq<u8>)
    requires
        a.len() >= 3,
        b.len() >= 3,
        standard_text(a) == standard_text(b),
    ensures
        a[0] == b[0],
        a[1] == b[1],
        a[2] == b[2],
{
    lemma_quad(a);
    lemma_quad(b);
    let (x, y, z) = (a[0] as int, a[1] as int, a[2] as int);
    let (u, v, w) = (b[0] as int, b[1] as int, b[2] as int);
    lemma_symbol_distinct(x / 4, u / 4);
    lemma_symbol_distinct((x % 4) * 16 + y / 16, (u % 4) * 16 + v / 16);
    lemma_symbol_distinct((y % 16) * 4 + z / 64, (v % 16) * 4 + w / 64);
    lemma_symbol_distinct(z % 64, w % 64);
}

proof fn lemma_short(a: Seq<u8>, b: Seq<u8>)
    requires
        0 < a.len() < 3,
        a.len() == b.len(),
        standard_text(a) == standard_text(b),
    ensures
        a[0] == b[0],
        a.len() == 2 ==> a[1] == b[1],
{
    lemma_quad(a);
    lemma_quad(b);
    let (x, u) = (a[0] as int, b[0] as int);
    lemma_symbol_distinct(x / 4, u / 4);
    if a.len() == 1 {
        lemma_symbol_distinct((x % 4) * 16 + 0int / 16, (u % 4) * 16 + 0int / 16);
    } else {
        let (y, v) = (a[1] as int, b[1] as int);
        lemma_symbol_distinct((x % 4) * 16 + y / 16, (u % 4) * 16 + v / 16);
        lemma_symbol_distinct((y % 16) * 4, (v % 16) * 4);
    }
}

/// What the notation of bytes in a token is decoded to is those bytes.
pub proof fn law_decoding_gives_the_bytes_back(b: Seq<u8>, decoded: Seq<u8>)
    requires
        standardized(token_text(b)) == standard_text(decoded),
    ensures
        decoded == b,
{
    law_token_text_is_decoded(b);
    law_notation_is_unambiguous(decoded, b);
}

/// A part of a token keeps its characters in standard notation, but for the two that
/// the alphabets write differently, and is padded to a multiple of four bytes with at
/// most three equals signs.
pub proof fn law_standard_notation_keeps_the_symbols(s: &str, r: String)
    requires
        call_ensures(standardize, (s,), r),
    ensures
        s@.len() <= r@.len() <= s@.len() + 3,
        forall|i: int|
            0 <= i < s@.len() ==> #[trigger] r@[i] == (if s@[i] == '-' {
                '+'
            } else if s@[i] == '_' {
                '/'
            } else {
                s@[i]
            }),
        forall|i: int| s@.len() <= i < r@.len() ==> #[trigger] r@[i] == '=',
        (vstd::utf8::encode_utf8(r@.take(s@.len() as int)).len() + (r@.len() - s@.len())) % 4 == 0,
{
    let a = standard_alphabet(s@);
    assert(r@.take(s@.len() as int) =~= a);
    assert(r@.skip(s@.len() as int) =~= padding_of(a));
    assert forall|i: int| s@.len() <= i < r@.len() implies #[trigger] r@[i] == '=' by {
        assert(r@[i] == padding_of(a)[i - s@.len()]);
    }
}

} // verus!
