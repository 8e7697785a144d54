//! Salt generation and the hexadecimal form salts are stored in.

use vstd::prelude::*;
use vstd::string::{StringExecFns, StringSliceAdditionalSpecFns};
use crate::params::SALT_LEN;
use crate::rng::random_vec;

verus! {

/// The byte is an ASCII hexadecimal digit.
pub open spec fn is_hex_digit_byte(b: u8) -> bool {
    (0x30 <= b && b <= 0x39) || (0x61 <= b && b <= 0x66) || (0x41 <= b && b <= 0x46)
}

/// The numeric value of an ASCII hexadecimal digit.
pub open spec fn hex_digit_value(b: u8) -> u8
    recommends
        is_hex_digit_byte(b),
{
    if 0x30 <= b && b <= 0x39 {
        (b - 0x30) as u8
    } else if 0x61 <= b && b <= 0x66 {
        (b - 0x61 + 10) as u8
    } else {
        (b - 0x41 + 10) as u8
    }
}

/// The UTF-8 bytes form a well-formed 32-digit hexadecimal salt.
pub open spec fn spec_hex_salt_ok(bytes: Seq<u8>) -> bool {
    bytes.len() == 32 && (forall|i: int| 0 <= i < 32 ==> is_hex_digit_byte(#[trigger] bytes[i]))
}

/// The salt byte at index `i` of a well-formed hexadecimal string.
pub open spec fn spec_hex_salt_byte(bytes: Seq<u8>, i: int) -> u8
    recommends
        spec_hex_salt_ok(bytes),
        0 <= i < 16,
{
    (hex_digit_value(bytes[2 * i]) * 16 + hex_digit_value(bytes[2 * i + 1])) as u8
}

/// The lower-case hexadecimal digit for a nibble.
pub open spec fn spec_hex_digit_char(n: u8) -> char
    recommends
        n < 16,
{
    if n == 0 { '0' } else if n == 1 { '1' } else if n == 2 { '2' } else if n == 3 { '3' }
    else if n == 4 { '4' } else if n == 5 { '5' } else if n == 6 { '6' } else if n == 7 { '7' }
    else if n == 8 { '8' } else if n == 9 { '9' } else if n == 10 { 'a' } else if n == 11 { 'b' }
    else if n == 12 { 'c' } else if n == 13 { 'd' } else if n == 14 { 'e' } else { 'f' }
}

/// The hexadecimal rendering of a byte string, two digits per byte.
pub open spec fn spec_hex_string(bytes: Seq<u8>) -> Seq<char> {
    Seq::new(2 * bytes.len(), |i: int|
        if i % 2 == 0 {
            spec_hex_digit_char(bytes[i / 2] / 16)
        } else {
            spec_hex_digit_char(bytes[i / 2] % 16)
        })
}

/// Generates a fresh random salt.
pub fn generate_salt() -> [u8; SALT_LEN] {
    let bytes = random_vec(SALT_LEN);
    let mut salt = [0u8; SALT_LEN];
    let mut i: usize = 0;
    while i < SALT_LEN
        invariant
            i <= 16,
            bytes@.len() == 16,
        decreases 16 - i,
    {
        salt[i] = bytes[i];
        i = i + 1;
    }
    salt
}

/// Generates `count` fresh random salts.
pub fn generate_salts(count: usize) -> (r: Vec<[u8; SALT_LEN]>)
    ensures
        r@.len() == count,
{
    let mut salts: Vec<[u8; SALT_LEN]> = Vec::new();
    let mut i: usize = 0;
    while i < count
        invariant
            i <= count,
            salts@.len() == i,
        decreases count - i,
    {
        salts.push(generate_salt());
        i = i + 1;
    }
    salts
}

/// The numeric value of one hexadecimal digit byte, if it is one.
fn hex_nibble(b: u8) -> (r: Option<u8>)
    ensures
        (r is Some) == is_hex_digit_byte(b),
        r is Some ==> r->0 == hex_digit_value(b) && r->0 < 16,
{
    if 0x30 <= b && b <= 0x39 {
        Some(b - 0x30)
    } else if 0x61 <= b && b <= 0x66 {
        Some(b - 0x61 + 10)
    } else if 0x41 <= b && b <= 0x46 {
        Some(b - 0x41 + 10)
    } else {
        None
    }
}

/// Parses a 32-digit hexadecimal string back into a salt.
pub fn salt_from_hex(hex_str: &str) -> (r: Result<[u8; SALT_LEN], String>)
    ensures
        (r is Ok) == spec_hex_salt_ok(hex_str.spec_bytes()),
        r is Ok ==> forall|i: int| 0 <= i < 16
            ==> #[trigger] r->Ok_0@[i] == spec_hex_salt_byte(hex_str.spec_bytes(), i),
        hex_str.spec_bytes().len() != 32 ==> (r matches Err(m)
            && m@ == "Invalid hex string length"@),
{
    let bytes = hex_str.as_bytes();
    if bytes.len() != 32 {
        return Err(String::from_str("Invalid hex string length"));
    }
    let mut salt = [0u8; SALT_LEN];
    let mut i: usize = 0;
    while i < SALT_LEN
        invariant
            i <= 16,
            bytes@.len() == 32,
            bytes@ == hex_str.spec_bytes(),
            forall|j: int| 0 <= j < 2 * i ==> is_hex_digit_byte(#[trigger] bytes@[j]),
            forall|j: int| 0 <= j < i ==> #[trigger] salt@[j] == spec_hex_salt_byte(bytes@, j),
        decreases 16 - i,
    {
        let hi = match hex_nibble(bytes[2 * i]) {
            Some(v) => v,
            None => return Err(String::from_str("Invalid hexadecimal character")),
        };
        let lo = match hex_nibble(bytes[2 * i + 1]) {
            Some(v) => v,
            None => return Err(String::from_str("Invalid hexadecimal character")),
        };
        salt[i] = hi * 16 + lo;
        i = i + 1;
    }
    Ok(salt)
}

/// One lower-case hexadecimal digit as a string slice.
fn hex_digit_str(n: u8) -> (r: &'static str)
    requires
        n < 16,
    ensures
        r@.len() == 1,
        r@[0] == spec_hex_digit_char(n),
{
    proof {
        reveal_strlit("0"); reveal_strlit("1"); reveal_strlit("2"); reveal_strlit("3");
        reveal_strlit("4"); reveal_strlit("5"); reveal_strlit("6"); reveal_strlit("7");
        reveal_strlit("8"); reveal_strlit("9"); reveal_strlit("a"); reveal_strlit("b");
        reveal_strlit("c"); reveal_strlit("d"); reveal_strlit("e"); reveal_strlit("f");
    }
    match n {
        0 => "0", 1 => "1", 2 => "2", 3 => "3",
        4 => "4", 5 => "5", 6 => "6", 7 => "7",
        8 => "8", 9 => "9", 10 => "a", 11 => "b",
        12 => "c", 13 => "d", 14 => "e", _ => "f",
    }
}

/// Renders a salt as 32 lower-case hexadecimal digits.
pub fn salt_to_hex(salt: &[u8; SALT_LEN]) -> (r: String)
    ensures
        r@ == spec_hex_string(salt@),
{
    let mut out = String::new();
    let mut i: usize = 0;
    while i < SALT_LEN
        invariant
            i <= 16,
            out@ =~= spec_hex_string(salt@).subrange(0, 2 * i as int),
        decreases 16 - i,
    {
        let hi = salt[i] / 16;
        let lo = salt[i] % 16;
        out.append(hex_digit_str(hi));
        out.append(hex_digit_str(lo));
        proof {
            assert(out@ =~= spec_hex_string(salt@).subrange(0, 2 * (i + 1) as int));
        }
        i = i + 1;
    }
    proof {
        assert(spec_hex_string(salt@).subrange(0, 32) =~= spec_hex_string(salt@));
    }
    out
}

} // verus!
