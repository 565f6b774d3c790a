//! The keys of the value store: the document identifier in decimal, a
//! hyphen, and the name of the field.

use vstd::prelude::*;

verus! {

/// An indexed field of a product.
#[derive(Clone, Copy, Debug, PartialEq, Eq, Structural)]
pub enum Field {
    Title,
    Description,
}

impl Field {
    /// The tag under which the field's words are indexed.
    pub open spec fn tag(self) -> u8 {
        match self {
            Field::Title => 0,
            Field::Description => 1,
        }
    }

    /// The name of the field in a store key: `title` or `description`, in
    /// ASCII.
    pub open spec fn name(self) -> Seq<u8> {
        match self {
            Field::Title => seq![116u8, 105u8, 116u8, 108u8, 101u8],
            Field::Description => seq![
                100u8,
                101u8,
                115u8,
                99u8,
                114u8,
                105u8,
                112u8,
                116u8,
                105u8,
                111u8,
                110u8,
            ],
        }
    }

    /// The tag under which the field's words are indexed.
    pub fn attribute(self) -> (tag: u8)
        ensures
            tag == self.tag(),
    {
        match self {
            Field::Title => 0,
            Field::Description => 1,
        }
    }

    /// The name of the field in a store key.
    pub fn name_bytes(self) -> (name: Vec<u8>)
        ensures
            name@ == self.name(),
    {
        let name = match self {
            Field::Title => vec![116u8, 105u8, 116u8, 108u8, 101u8],
            Field::Description => vec![
                100u8,
                101u8,
                115u8,
                99u8,
                114u8,
                105u8,
                112u8,
                116u8,
                105u8,
                111u8,
                110u8,
            ],
        };
        assert(name@ =~= self.name());
        name
    }
}

/// The ASCII code of `0`.
pub const ZERO: u8 = 48;

/// The ASCII code of `-`.
pub const HYPHEN: u8 = 45;

/// The decimal digits of `n` in ASCII, most significant first, without
/// leading zeros.
pub open spec fn decimal(n: nat) -> Seq<u8>
    decreases n,
{
    if n < 10 {
        seq![(ZERO + n) as u8]
    } else {
        decimal(n / 10).push((ZERO + n % 10) as u8)
    }
}

/// The store key of a field of a document.
pub open spec fn field_key(group_id: u64, field: Field) -> Seq<u8> {
    decimal(group_id as nat).push(HYPHEN) + field.name()
}

/// Writes `n` in decimal.
pub fn decimal_bytes(n: u64) -> (digits: Vec<u8>)
    ensures
        digits@ == decimal(n as nat),
{
    let mut digits: Vec<u8> = Vec::new();
    let mut rest = n;
    while rest >= 10
        invariant
            decimal(n as nat) == decimal(rest as nat) + digits@,
        decreases rest,
    {
        let ghost lower = digits@;
        let digit = ZERO + (rest % 10) as u8;
        digits.insert(0, digit);
        assert(decimal((rest / 10) as nat).push(digit) + lower =~= decimal((rest / 10) as nat)
            + digits@);
        rest = rest / 10;
    }
    let ghost lower = digits@;
    digits.insert(0, ZERO + rest as u8);
    assert(digits@ =~= decimal(rest as nat) + lower);
    digits
}

/// Builds the store key of a field of a document.
pub fn make_field_key(group_id: u64, field: Field) -> (key: Vec<u8>)
    ensures
        key@ == field_key(group_id, field),
{
    let mut key = decimal_bytes(group_id);
    key.push(HYPHEN);
    let mut name = field.name_bytes();
    key.append(&mut name);
    key
}

/// The decimal form of a number is made of digits, at least one.
pub proof fn lemma_decimal_digits(n: nat)
    ensures
        decimal(n).len() >= 1,
        forall|i: int| 0 <= i < decimal(n).len() ==> ZERO <= #[trigger] decimal(n)[i] <= ZERO + 9,
    decreases n,
{
    if n >= 10 {
        lemma_decimal_digits(n / 10);
    }
}

/// Two numbers with one decimal form are one number.
pub proof fn lemma_decimal_injective(n: nat, m: nat)
    requires
        decimal(n) == decimal(m),
    ensures
        n == m,
    decreases n,
{
    lemma_decimal_digits(n / 10);
    lemma_decimal_digits(m / 10);
    if n < 10 && m < 10 {
        assert(decimal(n)[0] == (ZERO + n) as u8);
        assert(decimal(m)[0] == (ZERO + m) as u8);
    } else if n < 10 {
        // One digit on one side, more on the other.
        assert(decimal(n).len() == 1);
        assert(decimal(m).len() == decimal(m / 10).len() + 1);
    } else if m < 10 {
        assert(decimal(m).len() == 1);
        assert(decimal(n).len() == decimal(n / 10).len() + 1);
    } else {
        let high_n = decimal(n / 10);
        let high_m = decimal(m / 10);
        let low_n = (ZERO + n % 10) as u8;
        let low_m = (ZERO + m % 10) as u8;
        assert(high_n.push(low_n).drop_last() =~= high_n);
        assert(high_m.push(low_m).drop_last() =~= high_m);
        assert(high_n.push(low_n).last() == low_n);
        assert(high_m.push(low_m).last() == low_m);
        lemma_decimal_injective(n / 10, m / 10);
    }
}

/// Two fields with one store key are the same field of the same document.
pub proof fn lemma_field_key_injective(
    group_id: u64,
    field: Field,
    other_id: u64,
    other_field: Field,
)
    requires
        field_key(group_id, field) == field_key(other_id, other_field),
    ensures
        group_id == other_id,
        field == other_field,
{
    let digits = decimal(group_id as nat);
    let other_digits = decimal(other_id as nat);
    let key = field_key(group_id, field);
    let other_key = field_key(other_id, other_field);
    lemma_decimal_digits(group_id as nat);
    lemma_decimal_digits(other_id as nat);
    // The hyphen is the first byte that is no digit.
    assert(key[digits.len() as int] == HYPHEN);
    assert(other_key[other_digits.len() as int] == HYPHEN);
    if digits.len() < other_digits.len() {
        assert(other_key[digits.len() as int] == other_digits[digits.len() as int]);
    } else if other_digits.len() < digits.len() {
        assert(key[other_digits.len() as int] == digits[other_digits.len() as int]);
    }
    assert(digits.len() == other_digits.len());
    assert forall|i: int| 0 <= i < digits.len() implies digits[i] == other_digits[i] by {
        assert(key[i] == digits[i]);
        assert(other_key[i] == other_digits[i]);
    }
    assert(digits =~= other_digits);
    lemma_decimal_injective(group_id as nat, other_id as nat);
    assert(key[digits.len() as int + 1] == field.name()[0]);
    assert(other_key[digits.len() as int + 1] == other_field.name()[0]);
}

} // verus!
