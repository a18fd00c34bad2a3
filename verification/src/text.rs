//! How numbers and addresses are written in the name of a checkpoint file.

use vstd::prelude::*;

verus! {

/// The character that stands for a value below sixteen.
pub open spec fn digit_char(d: int) -> char {
    seq!['0', '1', '2', '3', '4', '5', '6', '7', '8', '9', 'a', 'b', 'c', 'd', 'e', 'f'][d]
}

/// A number in decimal, without sign or leading zeros.
pub open spec fn decimal_digits(n: nat) -> Seq<char>
    decreases n,
{
    if n < 10 {
        seq![digit_char(n as int)]
    } else {
        decimal_digits(n / 10).push(digit_char((n % 10) as int))
    }
}

/// A byte as two lowercase hexadecimal digits.
pub open spec fn hex_pair(b: u8) -> Seq<char> {
    seq![digit_char(b as int / 16), digit_char(b as int % 16)]
}

/// An address in full: `0x`, and each of its bytes as two lowercase
/// hexadecimal digits.
pub open spec fn full_address(bytes: Seq<u8>) -> Seq<char>
    decreases bytes.len(),
{
    if bytes.len() == 0 {
        seq!['0', 'x']
    } else {
        full_address(bytes.drop_last()) + hex_pair(bytes.last())
    }
}

/// Calls `u64`'s `Display` through `to_string`. The standard library writes
/// an unsigned integer in decimal, without sign, padding or leading zeros;
/// the contract says exactly that.
#[verifier::external_body]
pub(crate) fn decimal_text(n: u64) -> (s: String)
    ensures
        s@ == decimal_digits(n as nat),
{
    n.to_string()
}

/// Calls the `LowerHex` formatting of `ethers::types::H160` with the
/// alternate flag. That impl writes `0x` and then every byte, first to last,
/// as two lowercase hexadecimal digits; the contract says exactly that.
#[verifier::external_body]
pub(crate) fn address_text(address: &[u8; 20]) -> (s: String)
    ensures
        s@ == full_address(address@),
{
    format!("{:#x}", ethers::types::H160::from(*address))
}

/// Different values below sixteen are written with different characters.
pub proof fn lemma_digit_char_is_injective(c: int, d: int)
    requires
        0 <= c < 16,
        0 <= d < 16,
        digit_char(c) == digit_char(d),
    ensures
        c == d,
{
}

/// A number has at least one decimal digit, and more than one from ten on.
pub proof fn lemma_decimal_digits_len(n: nat)
    ensures
        decimal_digits(n).len() >= 1,
        n >= 10 ==> decimal_digits(n).len() >= 2,
    decreases n,
{
    if n >= 10 {
        lemma_decimal_digits_len(n / 10);
    }
}

/// Different numbers are written differently.
pub proof fn lemma_decimal_digits_is_injective(n: nat, m: nat)
    requires
        decimal_digits(n) == decimal_digits(m),
    ensures
        n == m,
    decreases n,
{
    lemma_decimal_digits_len(n);
    lemma_decimal_digits_len(m);
    if n < 10 {
        assert(decimal_digits(n)[0] == digit_char(n as int));
        assert(decimal_digits(m)[0] == digit_char(m as int));
        lemma_digit_char_is_injective(n as int, m as int);
    } else {
        let front_n = decimal_digits(n / 10);
        let front_m = decimal_digits(m / 10);
        assert(decimal_digits(n).drop_last() =~= front_n);
        assert(decimal_digits(m).drop_last() =~= front_m);
        assert(decimal_digits(n).last() == digit_char((n % 10) as int));
        assert(decimal_digits(m).last() == digit_char((m % 10) as int));
        lemma_decimal_digits_is_injective(n / 10, m / 10);
        lemma_digit_char_is_injective((n % 10) as int, (m % 10) as int);
    }
}

/// An address in full takes two characters for the prefix and two for
/// every byte.
pub proof fn lemma_full_address_len(bytes: Seq<u8>)
    ensures
        full_address(bytes).len() == 2 + 2 * bytes.len(),
    decreases bytes.len(),
{
    if bytes.len() > 0 {
        lemma_full_address_len(bytes.drop_last());
    }
}

/// Different addresses of one length are written differently.
pub proof fn lemma_full_address_is_injective(a: Seq<u8>, b: Seq<u8>)
    requires
        a.len() == b.len(),
        full_address(a) == full_address(b),
    ensures
        a == b,
    decreases a.len(),
{
    if a.len() == 0 {
        assert(a =~= b);
    } else {
        let front_a = full_address(a.drop_last());
        let front_b = full_address(b.drop_last());
        lemma_full_address_len(a.drop_last());
        lemma_full_address_len(b.drop_last());
        let n = front_a.len() as int;
        assert(full_address(a).subrange(0, n) =~= front_a);
        assert(full_address(b).subrange(0, n) =~= front_b);
        lemma_full_address_is_injective(a.drop_last(), b.drop_last());
        assert(full_address(a)[n] == digit_char(a.last() as int / 16));
        assert(full_address(b)[n] == digit_char(b.last() as int / 16));
        assert(full_address(a)[n + 1] == digit_char(a.last() as int % 16));
        assert(full_address(b)[n + 1] == digit_char(b.last() as int % 16));
        lemma_digit_char_is_injective(a.last() as int / 16, b.last() as int / 16);
        lemma_digit_char_is_injective(a.last() as int % 16, b.last() as int % 16);
        assert(a.last() == b.last());
        assert(a =~= a.drop_last().push(a.last()));
        assert(b =~= b.drop_last().push(b.last()));
    }
}

} // verus!
