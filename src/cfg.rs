use vstd::prelude::*;

verus! {

/// Ten to the power `i`.
pub open spec fn pow10(i: nat) -> nat
    decreases i,
{
    if i == 0 {
        1
    } else {
        10 * pow10((i - 1) as nat)
    }
}

/// Sixteen to the power `i`.
pub open spec fn pow16(i: nat) -> nat
    decreases i,
{
    if i == 0 {
        1
    } else {
        16 * pow16((i - 1) as nat)
    }
}

/// The `i`-th hexadecimal digit of `h`, counted from the least significant.
pub open spec fn nibble(h: nat, i: nat) -> nat {
    (h / pow16(i)) % 16
}

/// The sum of `nibble(h, k) * 10^k` over the `n` lowest digits: the
/// hexadecimal digits of `h` read as decimal ones.
pub open spec fn hex_as_dec(h: nat, n: nat) -> nat
    decreases n,
{
    if n == 0 {
        0
    } else {
        hex_as_dec(h, (n - 1) as nat) + nibble(h, (n - 1) as nat) * pow10((n - 1) as nat)
    }
}

/// The byte of `version` that starts at bit `shift`, its two hexadecimal
/// digits read as decimal ones.
pub open spec fn decoded_byte(version: i32, shift: i32) -> nat {
    hex_as_dec(((version >> shift) & 0xFF) as nat, 5)
}

/// Number of hexadecimal digits that the version decoder reads.
pub const HEX_DIGITS: u32 = 5;

proof fn lemma_pow_facts(i: nat)
    ensures
        pow10(i) >= 1,
        pow16(i) >= 1,
        pow10(i + 1) == 10 * pow10(i),
        pow16(i + 1) == 16 * pow16(i),
    decreases i,
{
    if i > 0 {
        lemma_pow_facts((i - 1) as nat);
    }
}

proof fn lemma_hex_as_dec_bound(h: nat, n: nat)
    ensures
        hex_as_dec(h, n) + 2 <= 2 * pow10(n),
    decreases n,
{
    if n > 0 {
        let m = (n - 1) as nat;
        lemma_hex_as_dec_bound(h, m);
        lemma_pow_facts(m);
        let d = nibble(h, m);
        assert(d < 16);
        assert(d * pow10(m) <= 15 * pow10(m)) by (nonlinear_arith)
            requires
                d < 16,
        ;
    }
}

/// Configuration of the host as the filters see it: the two packed
/// versions and the name of the configuration file.
pub struct GlobalConfig {
    pub user_version: i32,
    pub parsed_version: i32,
    pub filename: String,
}

impl GlobalConfig {
    /// Reads the five lowest hexadecimal digits of `hex` as decimal digits.
    pub fn hex_to_dec(hex: u16) -> (dec: u16)
        ensures
            dec as nat == hex_as_dec(hex as nat, HEX_DIGITS as nat),
    {
        let mut dec: u32 = 0;
        let mut shifted_hex: u32 = hex as u32;
        let mut pow: u32 = 1;
        let mut i: u32 = 0;
        proof {
            lemma_pow_facts(0);
            assert(pow10(0) == 1 && pow16(0) == 1);
        }
        while i < HEX_DIGITS
            invariant
                i <= HEX_DIGITS,
                i < HEX_DIGITS ==> pow as nat == pow10(i as nat),
                shifted_hex as nat == hex as nat / pow16(i as nat),
                dec as nat == hex_as_dec(hex as nat, i as nat),
            decreases HEX_DIGITS - i,
        {
            proof {
                lemma_pow_facts(i as nat);
                lemma_hex_as_dec_bound(hex as nat, i as nat);
                assert(pow <= 10000) by {
                    reveal_with_fuel(pow10, 5);
                }
                assert(hex as nat / pow16((i + 1) as nat) == (hex as nat / pow16(i as nat)) / 16)
                    by {
                    vstd::arithmetic::div_mod::lemma_div_denominator(
                        hex as int,
                        pow16(i as nat) as int,
                        16,
                    );
                }
            }
            let digit: u32 = shifted_hex % 16;
            assert(digit * pow <= 15 * 10000) by (nonlinear_arith)
                requires
                    digit < 16,
                    pow <= 10000,
            ;
            dec = dec + digit * pow;
            shifted_hex = shifted_hex / 16;
            if i + 1 < HEX_DIGITS {
                pow = pow * 10;
            }
            i = i + 1;
        }
        proof {
            lemma_hex_as_dec_bound(hex as nat, 4);
            reveal_with_fuel(pow10, 5);
            reveal_with_fuel(pow16, 5);
            assert(pow16(4) == 65536);
            assert(hex as nat / pow16(4) == 0);
            assert(nibble(hex as nat, 4) == 0);
            assert(hex_as_dec(hex as nat, 5) == hex_as_dec(hex as nat, 4) + nibble(hex as nat, 4)
                * pow10(4));
            assert(hex_as_dec(hex as nat, 5) == hex_as_dec(hex as nat, 4));
        }
        dec as u16
    }

    /// Decodes a packed version: the low byte is the minor version, the next
    /// byte the major one, each read by `hex_to_dec`.
    pub fn convert_version(version: i32) -> (r: (u16, u16))
        ensures
            r.0 as nat == decoded_byte(version, 8),
            r.1 as nat == decoded_byte(version, 0),
    {
        let low: i32 = version & 0xFF;
        let high: i32 = (version >> 8) & 0xFF;
        assert(0 <= low <= 0xFF && 0 <= high <= 0xFF) by (bit_vector)
            requires
                low == version & 0xFF,
                high == (version >> 8) & 0xFF,
        ;
        assert(low == (version >> 0i32) & 0xFF) by (bit_vector)
            requires
                low == version & 0xFF,
        ;
        let minor = GlobalConfig::hex_to_dec(low as u16);
        let major = GlobalConfig::hex_to_dec(high as u16);
        (major, minor)
    }

    /// The user version of the configuration, decoded.
    pub fn get_user_version(&self) -> (r: (u16, u16))
        ensures
            r.0 as nat == decoded_byte(self.user_version, 8),
            r.1 as nat == decoded_byte(self.user_version, 0),
    {
        GlobalConfig::convert_version(self.user_version)
    }

    /// The version of the syntax the configuration was parsed with, decoded.
    pub fn get_parsed_version(&self) -> (r: (u16, u16))
        ensures
            r.0 as nat == decoded_byte(self.parsed_version, 8),
            r.1 as nat == decoded_byte(self.parsed_version, 0),
    {
        GlobalConfig::convert_version(self.parsed_version)
    }

    /// The name of the configuration file.
    pub fn get_filename(&self) -> (r: &str)
        ensures
            r@ == self.filename@,
    {
        self.filename.as_str()
    }
}

} // verus!
