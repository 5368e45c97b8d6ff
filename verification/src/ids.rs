//! 128-bit identifiers (UUIDs) and their text form.
//!
//! A `Uuid` is held as its 128-bit value, most significant byte first (as
//! `uuid::Uuid::from_u128` reads it). Generation, parsing and formatting
//! come from the `uuid` crate through the trusted items at the end of this
//! file; the contracts of parsing and formatting state the text formats.

use vstd::prelude::*;

verus! {

/// A 128-bit identifier.
#[derive(Clone, Copy, Debug, PartialEq, Eq, Hash, Structural)]
pub struct Uuid {
    pub value: u128,
}

// ---------------------------------------------------------------------------
// Text forms
// ---------------------------------------------------------------------------

pub open spec fn is_hex_digit(c: char) -> bool {
    ('0' <= c && c <= '9') || ('a' <= c && c <= 'f') || ('A' <= c && c <= 'F')
}

pub open spec fn hex_digit_value(c: char) -> int {
    if '0' <= c && c <= '9' {
        c as int - '0' as int
    } else if 'a' <= c && c <= 'f' {
        c as int - 'a' as int + 10
    } else {
        c as int - 'A' as int + 10
    }
}

/// Lower-case hexadecimal digit for `0 <= d < 16`.
pub open spec fn hex_char(d: int) -> char {
    if d < 10 {
        (d + '0' as int) as char
    } else {
        (d - 10 + 'a' as int) as char
    }
}

/// The value of a run of hexadecimal digits (most significant first).
pub open spec fn hex_value(s: Seq<char>) -> nat
    decreases s.len(),
{
    if s.len() == 0 {
        0
    } else {
        (hex_value(s.drop_last()) * 16 + hex_digit_value(s.last())) as nat
    }
}

/// The `n` low hexadecimal digits of `v`, most significant first.
pub open spec fn hex_digits(v: nat, n: nat) -> Seq<char>
    decreases n,
{
    if n == 0 {
        seq![]
    } else {
        hex_digits(v / 16, (n - 1) as nat).push(hex_char((v % 16) as int))
    }
}

/// The hyphenated form `xxxxxxxx-xxxx-xxxx-xxxx-xxxxxxxxxxxx` (lower case),
/// which is how `uuid::Uuid` displays.
pub open spec fn uuid_text(v: u128) -> Seq<char> {
    let h = hex_digits(v as nat, 32);
    h.subrange(0, 8) + seq!['-'] + h.subrange(8, 12) + seq!['-'] + h.subrange(12, 16) + seq!['-']
        + h.subrange(16, 20) + seq!['-'] + h.subrange(20, 32)
}

pub open spec fn all_hex(s: Seq<char>) -> bool {
    forall|i: int| 0 <= i < s.len() ==> is_hex_digit(#[trigger] s[i])
}

/// The 32 digits of a hyphenated UUID text, when the hyphens are in place.
pub open spec fn hyphenated_digits(s: Seq<char>) -> Option<Seq<char>> {
    if s.len() == 36 && s[8] == '-' && s[13] == '-' && s[18] == '-' && s[23] == '-' {
        Some(
            s.subrange(0, 8) + s.subrange(9, 13) + s.subrange(14, 18) + s.subrange(19, 23)
                + s.subrange(24, 36),
        )
    } else {
        None
    }
}

pub open spec fn ascii_lower(c: char) -> char {
    if 'A' <= c && c <= 'Z' {
        ((c as int) + 32) as char
    } else {
        c
    }
}

/// What `uuid::Uuid::parse_str` accepts: 32 hex digits; the hyphenated form;
/// the hyphenated form in braces; or the hyphenated form after a
/// `urn:uuid:` prefix in any case. Hex digits may be of either case.
pub open spec fn uuid_parse_spec(s: Seq<char>) -> Option<u128> {
    let digits: Option<Seq<char>> = if s.len() == 32 {
        Some(s)
    } else if s.len() == 36 {
        hyphenated_digits(s)
    } else if s.len() == 38 && s[0] == '{' && s[37] == '}' {
        hyphenated_digits(s.subrange(1, 37))
    } else if s.len() == 45 && s.subrange(0, 9).map_values(|c: char| ascii_lower(c))
        == "urn:uuid:"@ {
        hyphenated_digits(s.subrange(9, 45))
    } else {
        None
    };
    match digits {
        Some(d) => if all_hex(d) {
            Some(hex_value(d) as u128)
        } else {
            None
        },
        None => None,
    }
}

pub proof fn lemma_hex_digits(v: nat, n: nat)
    ensures
        hex_digits(v, n).len() == n,
        all_hex(hex_digits(v, n)),
        hex_value(hex_digits(v, n)) == v % pow16(n),
        forall|i: int|
            0 <= i < n ==> (#[trigger] hex_digits(v, n)[i]) != '-' && hex_digits(v, n)[i] != ':',
    decreases n,
{
    if n > 0 {
        lemma_hex_digits(v / 16, (n - 1) as nat);
        let s = hex_digits(v, n);
        assert(s.drop_last() =~= hex_digits(v / 16, (n - 1) as nat));
        let d = (v % 16) as int;
        assert(hex_digit_value(hex_char(d)) == d);
        lemma_pow16_pos((n - 1) as nat);
        let p = pow16((n - 1) as nat);
        assert(pow16(n) == 16 * p);
        lemma_mod_split(v, p);
        assert forall|i: int| 0 <= i < s.len() implies is_hex_digit(#[trigger] s[i]) by {
            if i < s.len() - 1 {
                assert(s[i] == hex_digits(v / 16, (n - 1) as nat)[i]);
            }
        }
    } else {
        assert(v % 1 == 0);
    }
}

pub open spec fn pow16(n: nat) -> nat
    decreases n,
{
    if n == 0 {
        1
    } else {
        16 * pow16((n - 1) as nat)
    }
}

pub proof fn lemma_pow16_pos(n: nat)
    ensures
        pow16(n) >= 1,
    decreases n,
{
    if n > 0 {
        lemma_pow16_pos((n - 1) as nat);
    }
}

/// `(v / 16) % p * 16 + v % 16 == v % (16 * p)`.
proof fn lemma_mod_split(v: nat, p: nat)
    requires
        p >= 1,
    ensures
        ((v / 16) % p) * 16 + v % 16 == v % (16 * p),
{
    let q = v / 16;
    let r = v % 16;
    assert(v == q * 16 + r);
    let a = q / p;
    let b = q % p;
    assert(q == a * p + b) by (nonlinear_arith)
        requires
            p >= 1,
            a == q / p,
            b == q % p,
    ;
    assert(v == a * (16 * p) + (b * 16 + r)) by (nonlinear_arith)
        requires
            v == q * 16 + r,
            q == a * p + b,
    ;
    assert(0 <= b * 16 + r < 16 * p) by (nonlinear_arith)
        requires
            0 <= b < p,
            0 <= r < 16,
    ;
    vstd::arithmetic::div_mod::lemma_fundamental_div_mod_converse(
        v as int,
        (16 * p) as int,
        a as int,
        (b * 16 + r) as int,
    );
}

proof fn lemma_pow16_32()
    ensures
        pow16(32) == 0x1_0000_0000_0000_0000_0000_0000_0000_0000,
{
    reveal_with_fuel(pow16, 33);
}

/// Parsing the displayed form gives back the identifier.
pub proof fn lemma_uuid_text_roundtrip(v: u128)
    ensures
        uuid_parse_spec(uuid_text(v)) == Some(v),
        uuid_text(v).len() == 36,
        !uuid_text(v).contains(':'),
        !uuid_text(v).contains(' '),
        forall|i: int| 0 <= i < uuid_text(v).len() ==> !crate::text::is_ws(#[trigger] uuid_text(v)[i]),
{
    let h = hex_digits(v as nat, 32);
    lemma_hex_digits(v as nat, 32);
    lemma_pow16_32();
    let t = uuid_text(v);
    assert(t.len() == 36);
    assert(t[8] == '-' && t[13] == '-' && t[18] == '-' && t[23] == '-');
    assert(hyphenated_digits(t) == Some(h)) by {
        assert(t.subrange(0, 8) + t.subrange(9, 13) + t.subrange(14, 18) + t.subrange(19, 23)
            + t.subrange(24, 36) =~= h);
    }
    assert(v as nat % pow16(32) == v as nat);
    assert forall|i: int| 0 <= i < t.len() implies t[i] != ':' && t[i] != ' ' && !crate::text::is_ws(t[i]) by {
        if i < 8 {
            assert(t[i] == h[i]);
        } else if 8 < i < 13 {
            assert(t[i] == h[i - 1]);
        } else if 13 < i < 18 {
            assert(t[i] == h[i - 2]);
        } else if 18 < i < 23 {
            assert(t[i] == h[i - 3]);
        } else if 23 < i {
            assert(t[i] == h[i - 4]);
        }
        assert(is_hex_digit(h[0]));
    }
}

// ---------------------------------------------------------------------------
// Operations
// ---------------------------------------------------------------------------

impl Uuid {
    /// A fresh random (version 4) identifier: its version field is 4 and
    /// its variant field is that of RFC 4122.
    pub fn new_v4() -> (r: Uuid)
        ensures
            (r.value >> 76u128) & 0xfu128 == 4,
            (r.value >> 62u128) & 0x3u128 == 2,
    {
        uuid_new_v4()
    }

    /// The name-based (version 5, SHA-1) identifier of `name` in `namespace`.
    pub fn new_v5(namespace: &Uuid, name: &str) -> (r: Uuid)
        ensures
            r.value == uuid_v5(namespace.value, name@),
    {
        Uuid { value: uuid_new_v5(namespace.value, name) }
    }

    /// Parses any of the forms `uuid::Uuid::parse_str` accepts.
    pub fn parse_str(s: &str) -> (r: Option<Uuid>)
        ensures
            r == (match uuid_parse_spec(s@) {
                Some(v) => Some(Uuid { value: v }),
                None => None,
            }),
    {
        match uuid_parse(s) {
            Some(v) => Some(Uuid { value: v }),
            None => None,
        }
    }

    /// The hyphenated lower-case form.
    pub fn to_string(&self) -> (r: String)
        ensures
            r@ == uuid_text(self.value),
    {
        uuid_to_string(self.value)
    }
}

// ---------------------------------------------------------------------------
// Trusted items: uuid
// ---------------------------------------------------------------------------

/// The SHA-1 name-based identifier `uuid::Uuid::new_v5` computes for a
/// namespace and the UTF-8 bytes of a name.
pub uninterp spec fn uuid_v5(namespace: u128, name: Seq<char>) -> u128;

/// `uuid::Uuid::new_v4`: random bits, with the version field (bits 76 to
/// 79) set to 4 and the variant field (bits 62 and 63) to `10`, as its
/// source masks them; nothing else is stated of the value.
#[verifier::external_body]
fn uuid_new_v4() -> (r: Uuid)
    ensures
        (r.value >> 76u128) & 0xfu128 == 4,
        (r.value >> 62u128) & 0x3u128 == 2,
{
    Uuid { value: uuid::Uuid::new_v4().as_u128() }
}

/// `uuid::Uuid::new_v5` on the UTF-8 bytes of `name`; its value is named
/// `uuid_v5`, a function of the namespace and the name alone.
#[verifier::external_body]
fn uuid_new_v5(namespace: u128, name: &str) -> (r: u128)
    ensures
        r == uuid_v5(namespace, name@),
{
    uuid::Uuid::new_v5(&uuid::Uuid::from_u128(namespace), name.as_bytes()).as_u128()
}

/// `uuid::Uuid::parse_str`: the accepted forms and the value are those of
/// `uuid_parse_spec` (length dispatch, hyphen positions, brace and `urn:uuid:`
/// wrappers, case-insensitive hex digits).
#[verifier::external_body]
fn uuid_parse(s: &str) -> (r: Option<u128>)
    ensures
        r == uuid_parse_spec(s@),
{
    uuid::Uuid::parse_str(s).ok().map(|u| u.as_u128())
}

/// `Display` of `uuid::Uuid`: the hyphenated lower-case form.
#[verifier::external_body]
fn uuid_to_string(v: u128) -> (r: String)
    ensures
        r@ == uuid_text(v),
{
    uuid::Uuid::from_u128(v).to_string()
}

} // verus!
