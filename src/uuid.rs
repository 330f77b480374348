//! UUID text: validation, normalization, version lookup, and generation of
//! versions 1, 4 and 7 from a clock reading.

use crate::text::{chars_of, string_of};
use vstd::prelude::*;

verus! {

pub open spec fn is_hex_digit(c: char) -> bool {
    ('0' <= c && c <= '9') || ('a' <= c && c <= 'f') || ('A' <= c && c <= 'F')
}

pub open spec fn is_dash_pos(i: int) -> bool {
    i == 8 || i == 13 || i == 18 || i == 23
}

/// `xxxxxxxx-xxxx-xxxx-xxxx-xxxxxxxxxxxx` with hexadecimal digits `x`.
pub open spec fn valid_uuid(s: Seq<char>) -> bool {
    s.len() == 36 && forall|i: int|
        0 <= i < 36 ==> if is_dash_pos(i) {
            #[trigger] s[i] == '-'
        } else {
            is_hex_digit(s[i])
        }
}

/// Upper case of a hexadecimal letter; any other character is kept.
pub open spec fn upper_hex(c: char) -> char {
    if c == 'a' {
        'A'
    } else if c == 'b' {
        'B'
    } else if c == 'c' {
        'C'
    } else if c == 'd' {
        'D'
    } else if c == 'e' {
        'E'
    } else if c == 'f' {
        'F'
    } else {
        c
    }
}

/// The value of a hexadecimal digit.
pub open spec fn hex_value(c: char) -> u8 {
    if '0' <= c && c <= '9' {
        (c as u32 - '0' as u32) as u8
    } else if 'a' <= c && c <= 'f' {
        (c as u32 - 'a' as u32 + 10) as u8
    } else {
        (c as u32 - 'A' as u32 + 10) as u8
    }
}

pub open spec fn invalid_uuid_msg() -> Seq<char> {
    "Invalid UUID format"@
}

/// Whether the text is a UUID in its canonical layout.
pub fn validate_uuid(uuid: &str) -> (r: bool)
    ensures
        r == valid_uuid(uuid@),
{
    let s = chars_of(uuid);
    if s.len() != 36 {
        return false;
    }
    let mut i: usize = 0;
    while i < 36
        invariant
            i <= 36,
            s@ == uuid@,
            s@.len() == 36,
            forall|k: int|
                0 <= k < i ==> if is_dash_pos(k) {
                    #[trigger] s@[k] == '-'
                } else {
                    is_hex_digit(s@[k])
                },
        decreases 36 - i,
    {
        let c = s[i];
        if i == 8 || i == 13 || i == 18 || i == 23 {
            if c != '-' {
                return false;
            }
        } else if !(('0' <= c && c <= '9') || ('a' <= c && c <= 'f') || ('A' <= c && c <= 'F')) {
            return false;
        }
        i += 1;
    }
    true
}

/// The UUID with its hexadecimal letters in upper case.
pub fn parse_uuid(uuid: &str) -> (r: Result<String, String>)
    ensures
        valid_uuid(uuid@) ==> r is Ok && r->Ok_0@ == uuid@.map_values(|c: char| upper_hex(c)),
        !valid_uuid(uuid@) ==> r is Err && r->Err_0@ == invalid_uuid_msg(),
{
    if !validate_uuid(uuid) {
        return Err(string_of(&chars_of("Invalid UUID format")));
    }
    let s = chars_of(uuid);
    let mut out: Vec<char> = Vec::new();
    let mut i: usize = 0;
    while i < s.len()
        invariant
            i <= s.len(),
            out@ == s@.take(i as int).map_values(|c: char| upper_hex(c)),
        decreases s.len() - i,
    {
        let c = s[i];
        let u = if c == 'a' {
            'A'
        } else if c == 'b' {
            'B'
        } else if c == 'c' {
            'C'
        } else if c == 'd' {
            'D'
        } else if c == 'e' {
            'E'
        } else if c == 'f' {
            'F'
        } else {
            c
        };
        out.push(u);
        i += 1;
        assert(out@ =~= s@.take(i as int).map_values(|c: char| upper_hex(c)));
    }
    assert(s@.take(i as int) =~= s@);
    Ok(string_of(&out))
}

/// The version digit of a UUID (the character at index 14).
pub fn get_uuid_version(uuid: &str) -> (r: Result<u8, String>)
    ensures
        valid_uuid(uuid@) ==> r is Ok && r->Ok_0 == hex_value(uuid@[14]),
        !valid_uuid(uuid@) ==> r is Err && r->Err_0@ == invalid_uuid_msg(),
{
    if !validate_uuid(uuid) {
        return Err(string_of(&chars_of("Invalid UUID format")));
    }
    let s = chars_of(uuid);
    let c = s[14];
    if '0' <= c && c <= '9' {
        Ok((c as u32 - '0' as u32) as u8)
    } else if 'a' <= c && c <= 'f' {
        Ok((c as u32 - 'a' as u32 + 10) as u8)
    } else {
        assert(is_hex_digit(s@[14]));
        Ok((c as u32 - 'A' as u32 + 10) as u8)
    }
}

/// Lower-case hexadecimal digit of a value below 16.
pub open spec fn hex_char(d: u8) -> char {
    if d < 10 {
        (48 + d) as char
    } else {
        (87 + d) as char
    }
}

pub(crate) fn hex_char_exec(d: u8) -> (r: char)
    requires
        d < 16,
    ensures
        r == hex_char(d),
{
    if d < 10 {
        (48 + d) as char
    } else {
        (87 + d) as char
    }
}

/// Bytes `b[i..]` as two lower-case hexadecimal digits each, with a dash
/// before bytes 4, 6, 8 and 10.
pub open spec fn uuid_text_from(b: Seq<u8>, i: int) -> Seq<char>
    decreases b.len() - i,
{
    if i < 0 || i >= b.len() {
        seq![]
    } else {
        (if i == 4 || i == 6 || i == 8 || i == 10 {
            seq!['-']
        } else {
            seq![]
        }) + seq![hex_char(b[i] / 16), hex_char(b[i] % 16)] + uuid_text_from(b, i + 1)
    }
}

pub open spec fn uuid_text(b: Seq<u8>) -> Seq<char> {
    uuid_text_from(b, 0)
}

fn format_uuid(b: &Vec<u8>) -> (r: String)
    ensures
        r@ == uuid_text(b@),
{
    let mut out: Vec<char> = Vec::new();
    let mut i: usize = 0;
    while i < b.len()
        invariant
            i <= b.len(),
            out@ + uuid_text_from(b@, i as int) == uuid_text(b@),
        decreases b.len() - i,
    {
        let ghost out0 = out@;
        if i == 4 || i == 6 || i == 8 || i == 10 {
            out.push('-');
        }
        out.push(hex_char_exec(b[i] / 16));
        out.push(hex_char_exec(b[i] % 16));
        assert(out0 + uuid_text_from(b@, i as int) =~= out@ + uuid_text_from(b@, i + 1));
        i += 1;
    }
    assert(out@ + uuid_text_from(b@, i as int) =~= out@);
    string_of(&out)
}

/// One step of the linear congruential generator that seeds the random
/// parts.
pub open spec fn lcg_next(s: u64) -> u64 {
    s.wrapping_mul(1103515245).wrapping_add(12345)
}

/// The generator's state after `n` steps from `seed`.
pub open spec fn lcg_state(seed: u64, n: nat) -> u64
    decreases n,
{
    if n == 0 {
        seed
    } else {
        lcg_next(lcg_state(seed, (n - 1) as nat))
    }
}

pub(crate) fn lcg_next_exec(s: u64) -> (r: u64)
    ensures
        r == lcg_next(s),
{
    s.wrapping_mul(1103515245).wrapping_add(12345)
}

/// Byte `i` of a version-4 UUID: byte `i` of the generator's `i + 1`-th
/// state (taken modulo 8 bytes), with the version nibble 4 in byte 6 and
/// the variant bits `10` in byte 8.
pub open spec fn v4_byte(seed: u64, i: int) -> u8 {
    let raw = (lcg_state(seed, (i + 1) as nat) >> ((i % 8) * 8) as u64) as u8;
    if i == 6 {
        (raw & 0x0F) | 0x40
    } else if i == 8 {
        (raw & 0x3F) | 0x80
    } else {
        raw
    }
}

pub open spec fn uuid_v4_text(seed: u64) -> Seq<char> {
    uuid_text(Seq::new(16, |i: int| v4_byte(seed, i)))
}

/// A version-4 UUID drawn from the generator seeded with `seed`.
pub fn uuid_v4_from_seed(seed: u64) -> (r: String)
    ensures
        r@ == uuid_v4_text(seed),
{
    let mut bytes: Vec<u8> = Vec::new();
    let mut state = seed;
    let mut i: usize = 0;
    while i < 16
        invariant
            i <= 16,
            state == lcg_state(seed, i as nat),
            bytes@.len() == i,
            forall|k: int| 0 <= k < i ==> #[trigger] bytes@[k] == v4_byte(seed, k),
        decreases 16 - i,
    {
        state = lcg_next_exec(state);
        let raw = (state >> ((i % 8 * 8) as u64)) as u8;
        let b = if i == 6 {
            (raw & 0x0F) | 0x40
        } else if i == 8 {
            (raw & 0x3F) | 0x80
        } else {
            raw
        };
        bytes.push(b);
        i += 1;
    }
    assert(bytes@ =~= Seq::new(16, |i: int| v4_byte(seed, i)));
    format_uuid(&bytes)
}

/// The bytes of a version-1 UUID at `nanos` nanoseconds after the Unix
/// epoch: the 60-bit count of 100 ns intervals since 1582-10-15 with the
/// version nibble 1, a clock sequence from the nanoseconds with the variant
/// bits `10`, and the fixed node `01:23:45:67:89:ab`.
pub open spec fn v1_bytes(nanos: u64) -> Seq<u8> {
    let ts = (nanos / 100 + 122192928000000000) as u64;
    let clock_seq = (nanos % 16384) as u16;
    let time_low = (ts & 0xFFFFFFFF) as u32;
    let time_mid = ((ts >> 32) & 0xFFFF) as u16;
    let time_hi = (((ts >> 48) & 0x0FFF) | 0x1000) as u16;
    let seq_hi = ((clock_seq >> 8) & 0x3F) | 0x80;
    let seq_low = (clock_seq & 0xFF) as u8;
    seq![
        (time_low >> 24) as u8,
        (time_low >> 16) as u8,
        (time_low >> 8) as u8,
        time_low as u8,
        (time_mid >> 8) as u8,
        time_mid as u8,
        (time_hi >> 8) as u8,
        time_hi as u8,
        seq_hi as u8,
        seq_low,
        0x01u8,
        0x23u8,
        0x45u8,
        0x67u8,
        0x89u8,
        0xABu8,
    ]
}

/// The version-1 UUID of a clock reading.
pub fn uuid_v1_from_nanos(nanos: u64) -> (r: String)
    ensures
        r@ == uuid_text(v1_bytes(nanos)),
{
    let ts = nanos / 100 + 122192928000000000;
    let clock_seq = (nanos % 16384) as u16;
    let time_low = (ts & 0xFFFFFFFF) as u32;
    let time_mid = ((ts >> 32) & 0xFFFF) as u16;
    let time_hi = (((ts >> 48) & 0x0FFF) | 0x1000) as u16;
    let seq_hi = ((clock_seq >> 8) & 0x3F) | 0x80;
    let seq_low = (clock_seq & 0xFF) as u8;
    let mut b: Vec<u8> = Vec::new();
    b.push((time_low >> 24) as u8);
    b.push((time_low >> 16) as u8);
    b.push((time_low >> 8) as u8);
    b.push(time_low as u8);
    b.push((time_mid >> 8) as u8);
    b.push(time_mid as u8);
    b.push((time_hi >> 8) as u8);
    b.push(time_hi as u8);
    b.push(seq_hi as u8);
    b.push(seq_low);
    b.push(0x01);
    b.push(0x23);
    b.push(0x45);
    b.push(0x67);
    b.push(0x89);
    b.push(0xAB);
    assert(b@ =~= v1_bytes(nanos));
    format_uuid(&b)
}

/// The version nibble 7 with 12 bits of the generator's first state.
pub open spec fn v7_version_field(millis: u64) -> u16 {
    0x7000u16 | (lcg_state(millis, 1) & 0xFFF) as u16
}

/// Byte `i` of a version-7 UUID at `millis` milliseconds after the Unix
/// epoch: the 48-bit big-endian timestamp, the version field, then the
/// variant bits `10` over byte 8 and low bytes of the generator's states 2
/// to 9 (the generator is seeded with `millis`).
pub open spec fn v7_byte(millis: u64, i: int) -> u8 {
    if i < 6 {
        ((millis >> (8 * (5 - i)) as u64) & 0xFF) as u8
    } else if i == 6 {
        (v7_version_field(millis) >> 8) as u8
    } else if i == 7 {
        v7_version_field(millis) as u8
    } else {
        let r = (lcg_state(millis, (i - 6) as nat) & 0xFF) as u8;
        if i == 8 {
            0x80u8 | (r & 0x3F)
        } else {
            r
        }
    }
}

pub open spec fn uuid_v7_text(millis: u64) -> Seq<char> {
    uuid_text(Seq::new(16, |i: int| v7_byte(millis, i)))
}

fn v7_timestamp_bytes(millis: u64) -> (b: Vec<u8>)
    ensures
        b@.len() == 6,
        forall|k: int| 0 <= k < 6 ==> #[trigger] b@[k] == v7_byte(millis, k),
{
    let mut b: Vec<u8> = Vec::new();
    let mut i: usize = 0;
    while i < 6
        invariant
            i <= 6,
            b@.len() == i,
            forall|k: int| 0 <= k < i ==> #[trigger] b@[k] == v7_byte(millis, k),
        decreases 6 - i,
    {
        b.push(((millis >> ((8 * (5 - i)) as u64)) & 0xFF) as u8);
        i += 1;
    }
    b
}

fn v7_version_bytes(millis: u64, b: &mut Vec<u8>)
    requires
        old(b)@.len() == 6,
    ensures
        final(b)@.len() == 8,
        forall|k: int| 0 <= k < 6 ==> #[trigger] final(b)@[k] == old(b)@[k],
        final(b)@[6] == v7_byte(millis, 6),
        final(b)@[7] == v7_byte(millis, 7),
{
    let state = lcg_next_exec(millis);
    assert(lcg_state(millis, 0) == millis);
    assert(state == lcg_state(millis, 1));
    let ver = 0x7000u16 | (state & 0xFFF) as u16;
    b.push((ver >> 8) as u8);
    b.push(ver as u8);
}

/// The version-7 UUID of a clock reading.
pub fn uuid_v7_from_millis(millis: u64) -> (r: String)
    ensures
        r@ == uuid_v7_text(millis),
{
    let mut b = v7_timestamp_bytes(millis);
    v7_version_bytes(millis, &mut b);
    let mut state = lcg_next_exec(millis);
    assert(lcg_state(millis, 0) == millis);
    assert(state == lcg_state(millis, 1));
    let mut i: usize = 8;
    while i < 16
        invariant
            8 <= i <= 16,
            state == lcg_state(millis, (i - 7) as nat),
            b@.len() == i,
            forall|k: int| 0 <= k < i ==> #[trigger] b@[k] == v7_byte(millis, k),
        decreases 16 - i,
    {
        state = lcg_next_exec(state);
        let r = (state & 0xFF) as u8;
        if i == 8 {
            b.push(0x80 | (r & 0x3F));
        } else {
            b.push(r);
        }
        i += 1;
    }
    assert(b@ =~= Seq::new(16, |i: int| v7_byte(millis, i)));
    format_uuid(&b)
}

/// Relies on `SystemTime::now` and `duration_since(UNIX_EPOCH)`: the clock
/// in nanoseconds, truncated to 64 bits; `None` for a clock set before the
/// epoch.
#[verifier::external_body]
fn clock_nanos() -> (r: Option<u64>) {
    match std::time::SystemTime::now().duration_since(std::time::UNIX_EPOCH) {
        Ok(d) => Some(d.as_nanos() as u64),
        Err(_) => None,
    }
}

/// Relies on `SystemTime::now` and `duration_since(UNIX_EPOCH)`: the clock
/// in milliseconds, truncated to 64 bits; `None` for a clock set before the
/// epoch.
#[verifier::external_body]
fn clock_millis() -> (r: Option<u64>) {
    match std::time::SystemTime::now().duration_since(std::time::UNIX_EPOCH) {
        Ok(d) => Some(d.as_millis() as u64),
        Err(_) => None,
    }
}

/// Nanoseconds since the Unix epoch; 0 when the clock is set before it.
pub(crate) fn nanos_since_epoch() -> u64 {
    match clock_nanos() {
        Some(n) => n,
        None => 0,
    }
}

/// Milliseconds since the Unix epoch; 0 when the clock is set before it.
fn millis_since_epoch() -> u64 {
    match clock_millis() {
        Some(n) => n,
        None => 0,
    }
}

/// A version-4 UUID seeded from the clock.
pub fn generate_uuid_v4() -> (r: String)
    ensures
        exists|seed: u64| r@ == #[trigger] uuid_v4_text(seed),
{
    let seed = nanos_since_epoch();
    uuid_v4_from_seed(seed)
}

/// A version-1 UUID of the current time.
pub fn generate_uuid_v1() -> (r: String)
    ensures
        exists|nanos: u64| r@ == #[trigger] uuid_text(v1_bytes(nanos)),
{
    let nanos = nanos_since_epoch();
    uuid_v1_from_nanos(nanos)
}

/// A version-7 UUID of the current time.
pub fn generate_uuid_v7() -> (r: String)
    ensures
        exists|millis: u64| r@ == #[trigger] uuid_v7_text(millis),
{
    let millis = millis_since_epoch();
    uuid_v7_from_millis(millis)
}

} // verus!
