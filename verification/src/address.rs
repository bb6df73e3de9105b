//! Addresses as bytes, for the exchange with the host.
use crate::types::{Address, AddressKind};
use vstd::arithmetic::div_mod::lemma_div_denominator;
use vstd::arithmetic::power::{lemma_pow0, lemma_pow_positive, pow};
use vstd::prelude::*;

verus! {

/// 256 to the power of `n`.
pub open spec fn power256(n: nat) -> nat
    decreases n,
{
    if n == 0 {
        1
    } else {
        256 * power256((n - 1) as nat)
    }
}

/// The last `n` base-256 digits of `x`, most significant first.
pub open spec fn be_digits(x: nat, n: nat) -> Seq<u8>
    decreases n,
{
    if n == 0 {
        seq![]
    } else {
        be_digits(x / 256, (n - 1) as nat).push((x % 256) as u8)
    }
}

/// The number that the base-256 digits stand for, most significant first.
pub open spec fn be_value(digits: Seq<u8>) -> nat
    decreases digits.len(),
{
    if digits.len() == 0 {
        0
    } else {
        be_value(digits.drop_last()) * 256 + digits.last() as nat
    }
}

/// Digits are as many as asked for.
proof fn lemma_be_digits_len(x: nat, n: nat)
    ensures
        be_digits(x, n).len() == n,
    decreases n,
{
    if n > 0 {
        lemma_be_digits_len(x / 256, (n - 1) as nat);
    }
}

/// A number with at most `n` digits is what its digits stand for.
proof fn lemma_value_of_digits(x: nat, n: nat)
    requires
        x < power256(n),
    ensures
        be_value(be_digits(x, n)) == x,
    decreases n,
{
    if n > 0 {
        lemma_value_of_digits(x / 256, (n - 1) as nat);
        assert(be_digits(x, n).drop_last() =~= be_digits(x / 256, (n - 1) as nat));
    }
}

/// Digits are the digits of what they stand for.
proof fn lemma_digits_of_value(digits: Seq<u8>)
    ensures
        be_digits(be_value(digits), digits.len()) == digits,
        be_value(digits) < power256(digits.len()),
    decreases digits.len(),
{
    if digits.len() > 0 {
        lemma_digits_of_value(digits.drop_last());
        assert(digits =~= digits.drop_last().push(digits.last()));
    }
}

/// 128 bits are sixteen digits.
proof fn lemma_power256_16()
    ensures
        power256(16) == u128::MAX + 1,
{
    reveal_with_fuel(power256, 17);
}

/// What precedes the bits of an address: that the value is an address, and of which kind.
pub open spec fn prefix(kind: AddressKind) -> Seq<u8> {
    match kind {
        AddressKind::Account => seq![0, 0, 0, 18, 0, 0, 0, 0, 0, 0, 0, 0],
        AddressKind::Contract => seq![0, 0, 0, 18, 0, 0, 0, 1],
    }
}

/// The bytes that stand for an address: the XDR of the address as a contract value.
pub open spec fn xdr_of(address: Address) -> Seq<u8> {
    prefix(address.kind) + be_digits(address.hi as nat, 16) + be_digits(address.lo as nat, 16)
}

/// Appends the sixteen digits of `x`.
fn push_digits(out: &mut Vec<u8>, x: u128)
    ensures
        final(out)@ == old(out)@ + be_digits(x as nat, 16),
{
    let mut digits: [u8; 16] = [0u8; 16];
    let mut rest: u128 = x;
    let mut i: usize = 16;
    assert(be_digits(x as nat, 16) =~= be_digits(rest as nat, i as nat) + digits@.skip(i as int));
    while i > 0
        invariant
            i <= 16,
            be_digits(x as nat, 16) == be_digits(rest as nat, i as nat) + digits@.skip(i as int),
        decreases i,
    {
        let ghost before = digits@;
        i -= 1;
        digits[i] = (rest % 256) as u8;
        proof {
            assert(digits@.skip(i as int) =~= seq![(rest % 256) as u8] + before.skip(i + 1));
            assert(be_digits(rest as nat, (i + 1) as nat) + before.skip(i + 1) =~= be_digits(
                (rest / 256) as nat,
                i as nat,
            ) + digits@.skip(i as int));
        }
        rest = rest / 256;
    }
    assert(digits@.skip(0) =~= digits@);
    assert(be_digits(x as nat, 16) =~= digits@);
    let mut j: usize = 0;
    while j < 16
        invariant
            j <= 16,
            out@ == old(out)@ + digits@.take(j as int),
        decreases 16 - j,
    {
        out.push(digits[j]);
        assert(digits@.take(j + 1) =~= digits@.take(j as int).push(digits@[j as int]));
        j += 1;
    }
    assert(digits@.take(16) =~= digits@);
}

/// The number that the sixteen digits from `start` stand for.
fn read_digits(bytes: &Vec<u8>, start: usize) -> (x: u128)
    requires
        start + 16 <= bytes@.len(),
    ensures
        be_digits(x as nat, 16) == bytes@.subrange(start as int, start + 16),
{
    let mut x: u128 = 0;
    let mut i: usize = 0;
    while i < 16
        invariant
            i <= 16,
            start + 16 <= bytes.len(),
            x == be_value(bytes@.subrange(start as int, start + i)),
        decreases 16 - i,
    {
        proof {
            let read = bytes@.subrange(start as int, start + i);
            let next = bytes@.subrange(start as int, start + i + 1);
            assert(next.drop_last() =~= read);
            lemma_digits_of_value(next);
            lemma_power256_16();
            lemma_power256_grows((i + 1) as nat, 16);
        }
        x = x * 256 + bytes[start + i] as u128;
        i += 1;
    }
    proof {
        lemma_digits_of_value(bytes@.subrange(start as int, start + 16));
    }
    x
}

/// More digits make larger numbers.
proof fn lemma_power256_grows(n: nat, m: nat)
    requires
        n <= m,
    ensures
        power256(n) <= power256(m),
    decreases m,
{
    if n < m {
        lemma_power256_grows(n, (m - 1) as nat);
    }
}

impl Address {
    /// The XDR of the address as a contract value.
    pub fn to_xdr(&self) -> (xdr: Vec<u8>)
        ensures
            xdr@ == xdr_of(*self),
    {
        let mut xdr: Vec<u8> = match self.kind {
            AddressKind::Account => vec![0, 0, 0, 18, 0, 0, 0, 0, 0, 0, 0, 0],
            AddressKind::Contract => vec![0, 0, 0, 18, 0, 0, 0, 1],
        };
        assert(xdr@ =~= prefix(self.kind));
        push_digits(&mut xdr, self.hi);
        push_digits(&mut xdr, self.lo);
        xdr
    }

    /// The address whose XDR as a contract value the bytes are, if they are one.
    pub fn from_xdr(xdr: &Vec<u8>) -> (address: Option<Address>)
        ensures
            match address {
                Some(address) => xdr@ == xdr_of(address),
                None => forall|other: Address| xdr@ != #[trigger] xdr_of(other),
            },
    {
        proof {
            assert forall|other: Address| (#[trigger] xdr_of(other)).len() == 44 || xdr_of(
                other,
            ).len() == 40 by {
                lemma_be_digits_len(other.hi as nat, 16);
                lemma_be_digits_len(other.lo as nat, 16);
            }
        }
        let account = vec![0u8, 0, 0, 18, 0, 0, 0, 0, 0, 0, 0, 0];
        let contract = vec![0u8, 0, 0, 18, 0, 0, 0, 1];
        assert(account@ =~= prefix(AddressKind::Account));
        assert(contract@ =~= prefix(AddressKind::Contract));
        let (kind, start): (AddressKind, usize) = if xdr.len() == 44 && starts_with(xdr, &account) {
            (AddressKind::Account, 12)
        } else if xdr.len() == 40 && starts_with(xdr, &contract) {
            (AddressKind::Contract, 8)
        } else {
            proof {
                assert forall|other: Address| xdr@ != #[trigger] xdr_of(other) by {
                    let start = prefix(other.kind);
                    lemma_be_digits_len(other.hi as nat, 16);
                    lemma_be_digits_len(other.lo as nat, 16);
                    assert(xdr_of(other).take(start.len() as int) =~= start);
                }
            }
            return None;
        };
        let address = Address {
            kind,
            hi: read_digits(xdr, start),
            lo: read_digits(xdr, start + 16),
        };
        assert(xdr@ =~= xdr_of(address));
        Some(address)
    }
}

/// Whether the bytes begin with `start`.
fn starts_with(bytes: &Vec<u8>, start: &Vec<u8>) -> (yes: bool)
    requires
        start@.len() <= bytes@.len(),
    ensures
        yes == (bytes@.take(start@.len() as int) == start@),
{
    let mut i: usize = 0;
    while i < start.len()
        invariant
            i <= start@.len() <= bytes@.len(),
            forall|j: int| 0 <= j < i ==> bytes@[j] == start@[j],
        decreases start@.len() - i,
    {
        if bytes[i] != start[i] {
            assert(bytes@.take(start@.len() as int)[i as int] != start@[i as int]);
            return false;
        }
        i += 1;
    }
    assert(bytes@.take(start@.len() as int) =~= start@);
    true
}

/// Two addresses with the same XDR are one: what [`Address::from_xdr`] reads back from
/// what [`Address::to_xdr`] wrote is the address itself.
pub proof fn law_xdr_tells_addresses_apart(one: Address, two: Address)
    requires
        xdr_of(one) == xdr_of(two),
    ensures
        one == two,
{
    let bytes = xdr_of(one);
    lemma_power256_16();
    lemma_be_digits_len(one.hi as nat, 16);
    lemma_be_digits_len(one.lo as nat, 16);
    lemma_be_digits_len(two.hi as nat, 16);
    lemma_be_digits_len(two.lo as nat, 16);
    lemma_value_of_digits(one.hi as nat, 16);
    lemma_value_of_digits(one.lo as nat, 16);
    lemma_value_of_digits(two.hi as nat, 16);
    lemma_value_of_digits(two.lo as nat, 16);
    assert(one.kind == two.kind) by {
        assert(xdr_of(one).len() == xdr_of(two).len());
    }
    let n = prefix(one.kind).len() as int;
    assert(bytes.subrange(n, n + 16) =~= be_digits(one.hi as nat, 16));
    assert(bytes.subrange(n, n + 16) =~= be_digits(two.hi as nat, 16));
    assert(bytes.subrange(n + 16, n + 32) =~= be_digits(one.lo as nat, 16));
    assert(bytes.subrange(n + 16, n + 32) =~= be_digits(two.lo as nat, 16));
}

/// The digit at place `i` of `n` counts the powers of 256 that its place stands for.
proof fn lemma_digit_at(x: nat, n: nat, i: int)
    requires
        0 <= i < n,
    ensures
        be_digits(x, n).len() == n,
        be_digits(x, n)[i] == (x as int / pow(256, (n - 1 - i) as nat)) % 256,
    decreases n,
{
    lemma_be_digits_len(x, n);
    lemma_be_digits_len(x / 256, (n - 1) as nat);
    if i == n - 1 {
        lemma_pow0(256);
    } else {
        let k = (n - 2 - i) as nat;
        lemma_digit_at(x / 256, (n - 1) as nat, i);
        lemma_pow_positive(256, k);
        assert(pow(256, (k + 1) as nat) == 256 * pow(256, k)) by {
            reveal(pow);
        }
        lemma_div_denominator(x as int, 256, pow(256, k));
    }
}

/// The XDR of an address is the type of the value, the kind of the address and its 256
/// bits, most significant byte first.
pub proof fn law_xdr_is_kind_and_bits(address: Address, i: int)
    requires
        0 <= i < 16,
    ensures
        ({
            let xdr = xdr_of(address);
            let start = match address.kind {
                AddressKind::Account => seq![0u8, 0, 0, 18, 0, 0, 0, 0, 0, 0, 0, 0],
                AddressKind::Contract => seq![0u8, 0, 0, 18, 0, 0, 0, 1],
            };
            let n = start.len() as int;
            &&& xdr.len() == n + 32
            &&& xdr.take(n) == start
            &&& xdr[n + i] == (address.hi as int / pow(256, (15 - i) as nat)) % 256
            &&& xdr[n + 16 + i] == (address.lo as int / pow(256, (15 - i) as nat)) % 256
        }),
{
    let start = prefix(address.kind);
    lemma_digit_at(address.hi as nat, 16, i);
    lemma_digit_at(address.lo as nat, 16, i);
    assert(xdr_of(address).take(start.len() as int) =~= start);
}

} // verus!
