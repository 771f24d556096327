//! Document identifiers.
//!
//! The store assigns every document a 12-byte identifier, rendered externally
//! as a string of 24 hexadecimal digits. A path parameter must match that
//! format exactly before any database access is attempted; this module holds
//! the strict parser and the renderer.

use vstd::prelude::*;

verus! {

/// Exclusive upper bound of an identifier's numeric value: `16^24 == 2^96`.
pub const OBJECT_ID_LIMIT: u128 = 0x1000000000000000000000000;

/// A document identifier: the numeric value of its 12 bytes.
#[derive(Clone, Copy, PartialEq, Eq, Structural, Debug)]
pub struct ObjectId {
    pub value: u128,
}

impl ObjectId {
    /// The value fits in 12 bytes.
    pub open spec fn wf(self) -> bool {
        self.value < OBJECT_ID_LIMIT
    }
}

/// An ASCII hexadecimal digit, either case.
pub open spec fn is_hex_digit(c: u8) -> bool {
    (48 <= c && c <= 57) || (97 <= c && c <= 102) || (65 <= c && c <= 70)
}

/// The numeric value of one hexadecimal digit.
pub open spec fn hex_digit_value(c: u8) -> int {
    if 48 <= c && c <= 57 {
        c - 48
    } else if 97 <= c && c <= 102 {
        c - 87
    } else {
        c - 55
    }
}

/// The store's native identifier format: exactly 24 hexadecimal digits.
pub open spec fn valid_object_id_hex(s: Seq<u8>) -> bool {
    s.len() == 24 && forall|i: int| 0 <= i < s.len() ==> is_hex_digit(#[trigger] s[i])
}

/// The numeric value of a big-endian string of hexadecimal digits.
pub open spec fn hex_value(s: Seq<u8>) -> int
    decreases s.len(),
{
    if s.len() == 0 {
        0
    } else {
        hex_value(s.drop_last()) * 16 + hex_digit_value(s.last())
    }
}

/// `16^n`.
pub open spec fn pow16(n: nat) -> int
    decreases n,
{
    if n == 0 {
        1
    } else {
        16 * pow16((n - 1) as nat)
    }
}

/// The identifier parsed from a hex string, as a spec value.
pub open spec fn oid_of(s: Seq<u8>) -> ObjectId {
    ObjectId { value: hex_value(s) as u128 }
}

proof fn lemma_pow16_pos(n: nat)
    ensures
        1 <= pow16(n),
    decreases n,
{
    if n > 0 {
        lemma_pow16_pos((n - 1) as nat);
    }
}

proof fn lemma_pow16_bounds(a: nat, b: nat)
    requires
        a <= b,
    ensures
        1 <= pow16(a) <= pow16(b),
    decreases b,
{
    if a == b {
        lemma_pow16_pos(a);
    } else {
        lemma_pow16_bounds(a, (b - 1) as nat);
    }
}

proof fn lemma_pow16_limit()
    ensures
        pow16(24) == OBJECT_ID_LIMIT,
{
    reveal_with_fuel(pow16, 25);
}

proof fn lemma_hex_value_nonneg(s: Seq<u8>)
    requires
        forall|i: int| 0 <= i < s.len() ==> is_hex_digit(#[trigger] s[i]),
    ensures
        0 <= hex_value(s),
    decreases s.len(),
{
    if s.len() > 0 {
        lemma_hex_value_nonneg(s.drop_last());
    }
}

/// Parse a path parameter as a document identifier. Returns the identifier
/// exactly when the input is 24 hexadecimal digits; any other input is
/// rejected without touching the value further.
pub fn parse_object_id(s: &[u8]) -> (r: Option<ObjectId>)
    ensures
        match r {
            Some(o) => valid_object_id_hex(s@) && o.wf() && o == oid_of(s@),
            None => !valid_object_id_hex(s@),
        },
{
    if s.len() != 24 {
        return None;
    }
    let mut value: u128 = 0;
    let mut i: usize = 0;
    while i < 24
        invariant
            s@.len() == 24,
            i <= 24,
            forall|j: int| 0 <= j < i ==> is_hex_digit(#[trigger] s@[j]),
            value == hex_value(s@.subrange(0, i as int)),
            value < pow16(i as nat),
        decreases 24 - i,
    {
        let c = s[i];
        let d: u8;
        if 48 <= c && c <= 57 {
            d = c - 48;
        } else if 97 <= c && c <= 102 {
            d = c - 87;
        } else if 65 <= c && c <= 70 {
            d = c - 55;
        } else {
            assert(!is_hex_digit(s@[i as int]));
            return None;
        }
        proof {
            lemma_pow16_bounds((i + 1) as nat, 24);
            lemma_pow16_limit();
            assert(s@.subrange(0, i + 1).drop_last() =~= s@.subrange(0, i as int));
            assert(s@.subrange(0, i + 1).last() == s@[i as int]);
        }
        value = value * 16 + (d as u128);
        i += 1;
    }
    proof {
        assert(s@.subrange(0, 24) =~= s@);
        lemma_pow16_limit();
    }
    Some(ObjectId { value })
}

fn hex_digits(value: u128, n: usize) -> (r: Vec<u8>)
    requires
        n <= 24,
        value < pow16(n as nat),
    ensures
        r@.len() == n,
        forall|i: int|
            0 <= i < n ==> ((48 <= #[trigger] r@[i] && r@[i] <= 57) || (97 <= r@[i] && r@[i]
                <= 102)),
        hex_value(r@) == value,
    decreases n,
{
    if n == 0 {
        let r: Vec<u8> = Vec::new();
        assert(r@ =~= Seq::<u8>::empty());
        r
    } else {
        let d: u8 = (value % 16) as u8;
        proof {
            lemma_pow16_bounds((n - 1) as nat, 24);
            assert(value / 16 < pow16((n - 1) as nat)) by {
                assert(pow16(n as nat) == 16 * pow16((n - 1) as nat));
            };
        }
        let mut r = hex_digits(value / 16, n - 1);
        let c: u8 = if d < 10 {
            d + 48
        } else {
            d + 87
        };
        proof {
            assert(r@.push(c).drop_last() =~= r@);
            vstd::arithmetic::div_mod::lemma_fundamental_div_mod(value as int, 16);
        }
        r.push(c);
        r
    }
}

/// Render an identifier in the store's native external format: 24 lowercase
/// hexadecimal digits whose numeric value is the identifier's.
pub fn object_id_hex(o: &ObjectId) -> (r: Vec<u8>)
    requires
        o.wf(),
    ensures
        valid_object_id_hex(r@),
        hex_value(r@) == o.value,
        oid_of(r@) == *o,
{
    proof {
        lemma_pow16_limit();
    }
    let r = hex_digits(o.value, 24);
    r
}

} // verus!
