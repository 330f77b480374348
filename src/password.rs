//! Password utilities: strength scoring, a demonstration salted hash in the
//! `$2b$` layout, its verification, and password generation.

use crate::env_parser::{
    char_is_alphanumeric, decimal, decimal_exec, is_alphanumeric,
};
use crate::text::{
    chars_of, contains, contains_exec, push_str, string_of,
};
use crate::uuid::{
    hex_char, hex_char_exec, lcg_next_exec, lcg_state, nanos_since_epoch,
};
use vstd::prelude::*;
use vstd::utf8::encode_utf8;

verus! {

/// What `str::to_lowercase` returns for a text.
pub uninterp spec fn lower_of(s: Seq<char>) -> Seq<char>;

/// Relies on `str::to_lowercase`: the Unicode lower case of the text.
#[verifier::external_body]
fn lowercase(s: &str) -> (r: String)
    ensures
        r@ == lower_of(s@),
{
    s.to_lowercase()
}

pub open spec fn has_ascii_lower(s: Seq<char>) -> bool {
    exists|i: int| 0 <= i < s.len() && 'a' <= #[trigger] s[i] && s[i] <= 'z'
}

pub open spec fn has_ascii_upper(s: Seq<char>) -> bool {
    exists|i: int| 0 <= i < s.len() && 'A' <= #[trigger] s[i] && s[i] <= 'Z'
}

pub open spec fn has_ascii_digit(s: Seq<char>) -> bool {
    exists|i: int| 0 <= i < s.len() && '0' <= #[trigger] s[i] && s[i] <= '9'
}

pub open spec fn has_symbol(s: Seq<char>) -> bool {
    exists|i: int| 0 <= i < s.len() && !char_is_alphanumeric(#[trigger] s[i])
}

/// Three characters in a row whose low bytes count up by one.
pub open spec fn rising_at(s: Seq<char>, i: int) -> bool {
    0 <= i && i + 2 < s.len() && (s[i] as u8) as int + 1 == (s[i + 1] as u8) as int && (s[i
        + 1] as u8) as int + 1 == (s[i + 2] as u8) as int
}

pub open spec fn has_rising_run(s: Seq<char>) -> bool {
    exists|i: int| #[trigger] rising_at(s, i)
}

pub open spec fn flag(b: bool, points: int) -> int {
    if b {
        points
    } else {
        0
    }
}

/// The score before penalties: length (8, 12 and 16 bytes), each kind of
/// character, and variety (three and four kinds).
pub open spec fn base_score(len: nat, lo: bool, up: bool, di: bool, sy: bool) -> int {
    let kinds = flag(lo, 1) + flag(up, 1) + flag(di, 1) + flag(sy, 1);
    flag(len >= 8, 20) + flag(len >= 12, 10) + flag(len >= 16, 10) + flag(lo, 10) + flag(up, 10)
        + flag(di, 10) + flag(sy, 15) + flag(kinds >= 3, 10) + flag(kinds >= 4, 5)
}

pub open spec fn minus_floor(a: int, b: int) -> int {
    if a >= b {
        a - b
    } else {
        0
    }
}

pub open spec fn mentions_password(s: Seq<char>) -> bool {
    contains(lower_of(s), "password"@)
}

/// The score from the password's traits: 20 points off for containing
/// "password" in any case, then 10 off for a rising run, neither going
/// below zero.
pub open spec fn score_from(
    len: nat,
    lo: bool,
    up: bool,
    di: bool,
    sy: bool,
    word: bool,
    run: bool,
) -> int {
    let base = base_score(len, lo, up, di, sy);
    let after_word = if word {
        minus_floor(base, 20)
    } else {
        base
    };
    if run {
        minus_floor(after_word, 10)
    } else {
        after_word
    }
}

pub open spec fn strength_score(s: Seq<char>) -> int {
    score_from(
        encode_utf8(s).len(),
        has_ascii_lower(s),
        has_ascii_upper(s),
        has_ascii_digit(s),
        has_symbol(s),
        mentions_password(s),
        has_rising_run(s),
    )
}

pub open spec fn level_name(score: int) -> Seq<char> {
    if score <= 30 {
        "weak"@
    } else if score <= 60 {
        "fair"@
    } else if score <= 80 {
        "good"@
    } else {
        "strong"@
    }
}

pub open spec fn note_if(b: bool, msg: Seq<char>) -> Seq<Seq<char>> {
    if b {
        seq![msg]
    } else {
        seq![]
    }
}

/// Advice on each weakness, in order, or praise when there is none.
pub open spec fn feedback_from(
    len: nat,
    lo: bool,
    up: bool,
    di: bool,
    sy: bool,
    word: bool,
    run: bool,
) -> Seq<Seq<char>> {
    let notes = note_if(len < 8, "Use at least 8 characters"@) + note_if(
        !lo,
        "Add lowercase letters"@,
    ) + note_if(!up, "Add uppercase letters"@) + note_if(!di, "Add numbers"@) + note_if(
        !sy,
        "Add symbols (!@#$%^&*)"@,
    ) + note_if(word, "Avoid using 'password'"@) + note_if(run, "Avoid sequential characters"@);
    if notes.len() == 0 {
        seq!["Password looks good!"@]
    } else {
        notes
    }
}

pub open spec fn strength_feedback(s: Seq<char>) -> Seq<Seq<char>> {
    feedback_from(
        encode_utf8(s).len(),
        has_ascii_lower(s),
        has_ascii_upper(s),
        has_ascii_digit(s),
        has_symbol(s),
        mentions_password(s),
        has_rising_run(s),
    )
}

/// A score from 0 to 100, its level, and advice.
pub struct PasswordStrength {
    pub score: u8,
    pub level: String,
    pub feedback: Vec<String>,
}

pub open spec fn string_views(v: Seq<String>) -> Seq<Seq<char>> {
    v.map_values(|s: String| s@)
}

fn push_note(notes: &mut Vec<String>, b: bool, msg: &str)
    ensures
        string_views(final(notes)@) == string_views(old(notes)@) + note_if(b, msg@),
{
    let ghost before = string_views(notes@);
    if b {
        notes.push(string_of(&chars_of(msg)));
        assert(string_views(notes@) =~= before + seq![msg@]);
    } else {
        assert(string_views(notes@) =~= before + seq![]);
    }
}

struct CharKinds {
    lower: bool,
    upper: bool,
    digit: bool,
    symbol: bool,
    rising: bool,
}

fn char_kinds(s: &Vec<char>) -> (r: CharKinds)
    ensures
        r.lower == has_ascii_lower(s@),
        r.upper == has_ascii_upper(s@),
        r.digit == has_ascii_digit(s@),
        r.symbol == has_symbol(s@),
        r.rising == has_rising_run(s@),
{
    let mut r = CharKinds { lower: false, upper: false, digit: false, symbol: false, rising: false };
    let mut i: usize = 0;
    while i < s.len()
        invariant
            i <= s.len(),
            r.lower == has_ascii_lower(s@.take(i as int)),
            r.upper == has_ascii_upper(s@.take(i as int)),
            r.digit == has_ascii_digit(s@.take(i as int)),
            r.symbol == has_symbol(s@.take(i as int)),
            r.rising == exists|k: int| 0 <= k && k + 2 < i && #[trigger] rising_at(s@, k),
        decreases s.len() - i,
    {
        let c = s[i];
        let ghost t0 = s@.take(i as int);
        let ghost t1 = s@.take(i + 1);
        assert(t1 =~= t0.push(c));
        assert(forall|k: int| 0 <= k < i ==> #[trigger] t1[k] == t0[k]);
        if 'a' <= c && c <= 'z' {
            r.lower = true;
            assert('a' <= t1[i as int] && t1[i as int] <= 'z');
        }
        if 'A' <= c && c <= 'Z' {
            r.upper = true;
            assert('A' <= t1[i as int] && t1[i as int] <= 'Z');
        }
        if '0' <= c && c <= '9' {
            r.digit = true;
            assert('0' <= t1[i as int] && t1[i as int] <= '9');
        }
        if !is_alphanumeric(c) {
            r.symbol = true;
            assert(!char_is_alphanumeric(t1[i as int]));
        }
        if i >= 2 {
            let a = s[i - 2] as u8;
            let b = s[i - 1] as u8;
            let d = c as u8;
            if a as u16 + 1 == b as u16 && b as u16 + 1 == d as u16 {
                r.rising = true;
                assert(rising_at(s@, i - 2));
            }
        }
        i += 1;
    }
    assert(s@.take(i as int) =~= s@);
    r
}

fn score_exec(length: usize, k: &CharKinds, word: bool) -> (score: u8)
    ensures
        score as int == score_from(
            length as nat,
            k.lower,
            k.upper,
            k.digit,
            k.symbol,
            word,
            k.rising,
        ),
{
    let mut score: u8 = 0;
    if length >= 8 {
        score += 20;
    }
    if length >= 12 {
        score += 10;
    }
    if length >= 16 {
        score += 10;
    }
    if k.lower {
        score += 10;
    }
    if k.upper {
        score += 10;
    }
    if k.digit {
        score += 10;
    }
    if k.symbol {
        score += 15;
    }
    let kinds: u8 = (if k.lower {
        1u8
    } else {
        0u8
    }) + (if k.upper {
        1u8
    } else {
        0u8
    }) + (if k.digit {
        1u8
    } else {
        0u8
    }) + (if k.symbol {
        1u8
    } else {
        0u8
    });
    if kinds >= 3 {
        score += 10;
    }
    if kinds >= 4 {
        score += 5;
    }
    if word {
        score = score.saturating_sub(20);
    }
    if k.rising {
        score = score.saturating_sub(10);
    }
    score
}

fn feedback_exec(length: usize, k: &CharKinds, word: bool) -> (r: Vec<String>)
    ensures
        string_views(r@) == feedback_from(
            length as nat,
            k.lower,
            k.upper,
            k.digit,
            k.symbol,
            word,
            k.rising,
        ),
{
    let mut feedback: Vec<String> = Vec::new();
    assert(string_views(feedback@) =~= Seq::<Seq<char>>::empty());
    push_note(&mut feedback, length < 8, "Use at least 8 characters");
    push_note(&mut feedback, !k.lower, "Add lowercase letters");
    push_note(&mut feedback, !k.upper, "Add uppercase letters");
    push_note(&mut feedback, !k.digit, "Add numbers");
    push_note(&mut feedback, !k.symbol, "Add symbols (!@#$%^&*)");
    push_note(&mut feedback, word, "Avoid using 'password'");
    push_note(&mut feedback, k.rising, "Avoid sequential characters");
    assert(string_views(feedback@) =~= Seq::<Seq<char>>::empty() + note_if(
        length < 8,
        "Use at least 8 characters"@,
    ) + note_if(!k.lower, "Add lowercase letters"@) + note_if(
        !k.upper,
        "Add uppercase letters"@,
    ) + note_if(!k.digit, "Add numbers"@) + note_if(!k.symbol, "Add symbols (!@#$%^&*)"@)
        + note_if(word, "Avoid using 'password'"@) + note_if(
        k.rising,
        "Avoid sequential characters"@,
    ));
    if feedback.len() == 0 {
        feedback.push(string_of(&chars_of("Password looks good!")));
        assert(string_views(feedback@) =~= seq!["Password looks good!"@]);
    }
    feedback
}

/// Scores a password and advises on its weaknesses.
pub fn calculate_password_strength(password: &str) -> (r: PasswordStrength)
    ensures
        r.score as int == strength_score(password@),
        r.level@ == level_name(r.score as int),
        string_views(r.feedback@) == strength_feedback(password@),
{
    let s = chars_of(password);
    let length = password.as_bytes().len();
    let k = char_kinds(&s);
    let word = contains_exec(&chars_of(lowercase(password).as_str()), &chars_of("password"));
    let score = score_exec(length, &k, word);
    let level = if score <= 30 {
        "weak"
    } else if score <= 60 {
        "fair"
    } else if score <= 80 {
        "good"
    } else {
        "strong"
    };
    let feedback = feedback_exec(length, &k, word);
    PasswordStrength { score, level: string_of(&chars_of(level)), feedback }
}

/// The djb2 hash of a byte sequence: from 5381, times 33 plus each byte,
/// wrapping at 64 bits.
pub open spec fn djb2(b: Seq<u8>) -> u64
    decreases b.len(),
{
    if b.len() == 0 {
        5381
    } else {
        djb2(b.drop_last()).wrapping_mul(33).wrapping_add(b.last() as u64)
    }
}

/// A 64-bit value as 16 lower-case hexadecimal digits.
pub open spec fn hex16(h: u64) -> Seq<char> {
    Seq::new(16, |i: int| hex_char(((h >> (4 * (15 - i)) as u64) & 0xF) as u8))
}

/// The demonstration hash of a text: djb2 over its UTF-8 bytes, in hexadecimal.
pub open spec fn simple_hash_of(s: Seq<char>) -> Seq<char> {
    hex16(djb2(encode_utf8(s)))
}

fn hex16_exec(h: u64) -> (r: Vec<char>)
    ensures
        r@ == hex16(h),
{
    let mut r: Vec<char> = Vec::new();
    let mut i: usize = 0;
    while i < 16
        invariant
            i <= 16,
            r@.len() == i,
            forall|k: int| 0 <= k < i ==> #[trigger] r@[k] == hex16(h)[k],
        decreases 16 - i,
    {
        let shift = (4 * (15 - i)) as u64;
        let nibble = (h >> shift) & 0xF;
        assert(nibble <= 0xF) by (bit_vector)
            requires
                nibble == (h >> shift) & 0xF,
        ;
        r.push(hex_char_exec(nibble as u8));
        i += 1;
    }
    assert(r@ =~= hex16(h));
    r
}

/// The djb2 hash of a text's UTF-8 bytes, in 16 hexadecimal digits.
pub fn simple_hash(input: &str) -> (r: String)
    ensures
        r@ == simple_hash_of(input@),
{
    let b = input.as_bytes();
    let mut hash: u64 = 5381;
    let mut i: usize = 0;
    while i < b.len()
        invariant
            i <= b.len(),
            b@ == encode_utf8(input@),
            hash == djb2(b@.take(i as int)),
        decreases b.len() - i,
    {
        assert(b@.take(i + 1).drop_last() =~= b@.take(i as int));
        hash = hash.wrapping_mul(33).wrapping_add(b[i] as u64);
        i += 1;
    }
    assert(b@.take(i as int) =~= b@);
    string_of(&hex16_exec(hash))
}

/// The UTF-8 bytes of the two texts are equal, compared in time that does
/// not depend on where they differ.
pub fn constant_time_eq(a: &str, b: &str) -> (r: bool)
    ensures
        r == (encode_utf8(a@) == encode_utf8(b@)),
{
    let x = a.as_bytes();
    let y = b.as_bytes();
    if x.len() != y.len() {
        return false;
    }
    let mut acc: u8 = 0;
    let mut i: usize = 0;
    while i < x.len()
        invariant
            i <= x.len() == y.len(),
            (acc == 0) == (forall|k: int| 0 <= k < i ==> x@[k] == y@[k]),
        decreases x.len() - i,
    {
        let xi = x[i];
        let yi = y[i];
        let next = acc | (xi ^ yi);
        assert((next == 0) == (acc == 0 && xi == yi)) by (bit_vector)
            requires
                next == acc | (xi ^ yi),
        ;
        acc = next;
        i += 1;
    }
    proof {
        if acc == 0 {
            assert(x@ =~= y@);
        }
    }
    acc == 0
}

/// The 64 characters of the hash alphabet, in order `A-Z a-z 0-9 . /`.
pub open spec fn alphabet_char(d: u8) -> char {
    if d < 26 {
        (65 + d) as char
    } else if d < 52 {
        (71 + d) as char
    } else if d < 62 {
        (d - 4) as char
    } else if d == 62 {
        '.'
    } else {
        '/'
    }
}

fn alphabet_char_exec(d: u8) -> (r: char)
    requires
        d < 64,
    ensures
        r == alphabet_char(d),
{
    if d < 26 {
        (65 + d) as char
    } else if d < 52 {
        (71 + d) as char
    } else if d < 62 {
        (d - 4) as char
    } else if d == 62 {
        '.'
    } else {
        '/'
    }
}

/// The demonstration hash applied `n` times (at least once) to
/// `password + salt`.
pub open spec fn hash_rounds(p: Seq<char>, n: nat) -> Seq<char>
    decreases n,
{
    if n <= 1 {
        simple_hash_of(p)
    } else {
        simple_hash_of(hash_rounds(p, (n - 1) as nat))
    }
}

/// Character `i` of the encoded hash: byte `i` (cyclically) of the final
/// round's text, taken modulo 64 in the hash alphabet.
pub open spec fn encoded_char(h: Seq<u8>, i: int) -> char {
    let byte: u8 = if h.len() == 0 {
        0
    } else {
        h[i % (h.len() as int)]
    };
    alphabet_char(byte % 64)
}

/// The 31-character hash of a password with a salt: 100 rounds of the
/// demonstration hash over `password + salt`, encoded in the hash alphabet.
pub open spec fn salted_hash(password: Seq<char>, salt: Seq<char>) -> Seq<char> {
    let h = encode_utf8(hash_rounds(password + salt, 100));
    Seq::new(31, |i: int| encoded_char(h, i))
}

/// Hashes a password with a salt (not cryptographically secure).
pub fn simple_bcrypt(password: &str, salt: &str) -> (r: Result<String, String>)
    ensures
        r is Ok,
        r->Ok_0@ == salted_hash(password@, salt@),
{
    let mut joined = String::new();
    push_str(&mut joined, password);
    push_str(&mut joined, salt);
    let mut result = simple_hash(joined.as_str());
    let mut round: usize = 1;
    while round < 100
        invariant
            1 <= round <= 100,
            result@ == hash_rounds(password@ + salt@, round as nat),
        decreases 100 - round,
    {
        result = simple_hash(result.as_str());
        round += 1;
    }
    let h = result.as_str().as_bytes();
    let mut encoded: Vec<char> = Vec::new();
    let mut i: usize = 0;
    while i < 31
        invariant
            i <= 31,
            h@ == encode_utf8(hash_rounds(password@ + salt@, 100)),
            encoded@.len() == i,
            forall|k: int| 0 <= k < i ==> #[trigger] encoded@[k] == encoded_char(h@, k),
        decreases 31 - i,
    {
        let byte: u8 = if h.len() == 0 {
            0
        } else {
            h[i % h.len()]
        };
        encoded.push(alphabet_char_exec(byte % 64));
        i += 1;
    }
    assert(encoded@ =~= salted_hash(password@, salt@));
    Ok(string_of(&encoded))
}

/// A 22-character salt drawn from the generator seeded with `seed`: one
/// state per character, modulo 64 in the hash alphabet.
pub open spec fn salt_of_seed(seed: u64) -> Seq<char> {
    Seq::new(22, |i: int| alphabet_char((lcg_state(seed, (i + 1) as nat) % 64) as u8))
}

/// A salt drawn from the generator seeded with `seed`.
pub fn salt_from_seed(seed: u64) -> (r: String)
    ensures
        r@ == salt_of_seed(seed),
{
    let mut out: Vec<char> = Vec::new();
    let mut state = seed;
    let mut i: usize = 0;
    while i < 22
        invariant
            i <= 22,
            state == lcg_state(seed, i as nat),
            out@.len() == i,
            forall|k: int| 0 <= k < i ==> #[trigger] out@[k] == salt_of_seed(seed)[k],
        decreases 22 - i,
    {
        state = lcg_next_exec(state);
        out.push(alphabet_char_exec((state % 64) as u8));
        i += 1;
    }
    assert(out@ =~= salt_of_seed(seed));
    string_of(&out)
}

/// A salt seeded from the clock (the rounds do not change it).
pub fn generate_salt(rounds: u32) -> (r: Result<String, String>)
    ensures
        r is Ok,
        exists|seed: u64| r->Ok_0@ == #[trigger] salt_of_seed(seed),
{
    let seed = nanos_since_epoch();
    Ok(salt_from_seed(seed))
}

/// `$2b$<rounds, two digits at least>$<salt>$<hash>`.
pub open spec fn hash_record(rounds: u32, salt: Seq<char>, hash: Seq<char>) -> Seq<char> {
    let digits = if rounds < 10 {
        seq!['0'] + decimal(rounds as nat)
    } else {
        decimal(rounds as nat)
    };
    "$2b$"@ + digits + "$"@ + salt + "$"@ + hash
}

/// The hash record of a password with the given salt.
pub fn bcrypt_hash_with_salt(password: &str, rounds: u32, salt: &str) -> (r: String)
    ensures
        r@ == hash_record(rounds, salt@, salted_hash(password@, salt@)),
{
    let hash = match simple_bcrypt(password, salt) {
        Ok(h) => h,
        Err(e) => e,
    };
    let mut out = chars_of("$2b$");
    if rounds < 10 {
        out.push('0');
    }
    let d = decimal_exec(rounds as usize);
    let mut k: usize = 0;
    let ghost start = out@;
    while k < d.len()
        invariant
            k <= d.len(),
            out@ == start + d@.take(k as int),
        decreases d.len() - k,
    {
        out.push(d[k]);
        k += 1;
        assert(out@ =~= start + d@.take(k as int));
    }
    assert(d@.take(k as int) =~= d@);
    let mut r = string_of(&out);
    push_str(&mut r, "$");
    push_str(&mut r, salt);
    push_str(&mut r, "$");
    push_str(&mut r, hash.as_str());
    proof {
        reveal_strlit("$2b$");
        if rounds < 10 {
            assert(start =~= "$2b$"@ + seq!['0']);
        }
    }
    assert(r@ =~= hash_record(rounds, salt@, salted_hash(password@, salt@)));
    r
}

/// Hashes a password with a salt seeded from the clock.
pub fn bcrypt_hash(password: &str, rounds: u32) -> (r: Result<String, String>)
    ensures
        r is Ok,
        exists|seed: u64|
            r->Ok_0@ == hash_record(
                rounds,
                #[trigger] salt_of_seed(seed),
                salted_hash(password@, salt_of_seed(seed)),
            ),
{
    let salt = match generate_salt(rounds) {
        Ok(s) => s,
        Err(e) => e,
    };
    Ok(bcrypt_hash_with_salt(password, rounds, salt.as_str()))
}

/// The pieces of `s[start..]` between the separators `c`, given that the
/// current piece began at `start` and the scan has reached `i`.
pub open spec fn split_from(s: Seq<char>, c: char, start: int, i: int) -> Seq<Seq<char>>
    decreases s.len() - i,
{
    if i >= s.len() {
        seq![s.subrange(start, s.len() as int)]
    } else if s[i] == c {
        seq![s.subrange(start, i)] + split_from(s, c, i + 1, i + 1)
    } else {
        split_from(s, c, start, i + 1)
    }
}

pub open spec fn split_on(s: Seq<char>, c: char) -> Seq<Seq<char>> {
    split_from(s, c, 0, 0)
}

fn split_exec(s: &Vec<char>, c: char) -> (r: Vec<Vec<char>>)
    ensures
        crate::text::views(r@) == split_on(s@, c),
{
    let mut out: Vec<Vec<char>> = Vec::new();
    let mut start: usize = 0;
    let mut i: usize = 0;
    while i < s.len()
        invariant
            start <= i <= s.len(),
            split_on(s@, c) == crate::text::views(out@) + split_from(s@, c, start as int, i as int),
        decreases s.len() - i,
    {
        if s[i] == c {
            let piece = crate::text::copy_range(s, start, i);
            let ghost before = crate::text::views(out@);
            out.push(piece);
            assert(crate::text::views(out@) =~= before.push(s@.subrange(start as int, i as int)));
            assert(split_on(s@, c) == crate::text::views(out@) + split_from(
                s@,
                c,
                (i + 1) as int,
                (i + 1) as int,
            ));
            start = i + 1;
        }
        i += 1;
    }
    let piece = crate::text::copy_range(s, start, s.len());
    let ghost before = crate::text::views(out@);
    out.push(piece);
    assert(crate::text::views(out@) =~= before + seq![s@.subrange(start as int, s@.len() as int)]);
    out
}

pub open spec fn all_digits(d: Seq<char>) -> bool {
    forall|i: int| 0 <= i < d.len() ==> '0' <= #[trigger] d[i] && d[i] <= '9'
}

pub open spec fn digits_value(d: Seq<char>) -> int
    decreases d.len(),
{
    if d.len() == 0 {
        0
    } else {
        digits_value(d.drop_last()) * 10 + (d.last() as int - '0' as int)
    }
}

/// Whether `u32`'s `from_str` accepts the text: an optional `+`, then one or
/// more decimal digits whose value fits in 32 bits.
pub open spec fn parses_as_u32(s: Seq<char>) -> bool {
    let d = if s.len() > 0 && s[0] == '+' {
        s.drop_first()
    } else {
        s
    };
    d.len() > 0 && all_digits(d) && digits_value(d) <= u32::MAX
}

fn parses_as_u32_exec(s: &Vec<char>) -> (r: bool)
    ensures
        r == parses_as_u32(s@),
{
    let lo: usize = if s.len() > 0 && s[0] == '+' {
        1
    } else {
        0
    };
    let ghost d = if s@.len() > 0 && s@[0] == '+' {
        s@.drop_first()
    } else {
        s@
    };
    assert(d =~= s@.subrange(lo as int, s@.len() as int));
    if lo >= s.len() {
        return false;
    }
    let mut value: u64 = 0;
    let mut over = false;
    let mut i: usize = lo;
    while i < s.len()
        invariant
            lo <= i <= s.len(),
            d == s@.subrange(lo as int, s@.len() as int),
            d == (if s@.len() > 0 && s@[0] == '+' {
                s@.drop_first()
            } else {
                s@
            }),
            all_digits(s@.subrange(lo as int, i as int)),
            over ==> digits_value(s@.subrange(lo as int, i as int)) > u32::MAX,
            !over ==> value == digits_value(s@.subrange(lo as int, i as int)) && value <= u32::MAX,
        decreases s.len() - i,
    {
        let c = s[i];
        if !('0' <= c && c <= '9') {
            assert(d[i - lo] == c);
            return false;
        }
        let ghost t = s@.subrange(lo as int, i + 1);
        assert(t.drop_last() =~= s@.subrange(lo as int, i as int));
        assert(all_digits(t)) by {
            assert forall|k: int| 0 <= k < t.len() implies '0' <= #[trigger] t[k] && t[k] <= '9' by {
                if k < t.len() - 1 {
                    assert(t[k] == s@.subrange(lo as int, i as int)[k]);
                }
            }
        }
        if !over {
            let next = value * 10 + (c as u32 - '0' as u32) as u64;
            if next > 0xFFFF_FFFF {
                over = true;
            } else {
                value = next;
            }
        }
        i += 1;
    }
    !over
}

pub open spec fn invalid_format_msg() -> Seq<char> {
    "Invalid hash format"@
}

pub open spec fn invalid_rounds_msg() -> Seq<char> {
    "Invalid rounds"@
}

/// Checking a password against a hash record `$2b$<rounds>$<salt>$<hash>`:
/// a record of another shape is an error, and so are rounds that are not a
/// 32-bit number; otherwise whether the password hashed with the salt gives
/// the recorded hash.
pub open spec fn verify_result(password: Seq<char>, record: Seq<char>) -> Result<bool, Seq<char>> {
    let parts = split_on(record, '$');
    if parts.len() != 5 || parts[0].len() != 0 || parts[1] != "2b"@ {
        Err(invalid_format_msg())
    } else if !parses_as_u32(parts[2]) {
        Err(invalid_rounds_msg())
    } else {
        Ok(encode_utf8(salted_hash(password, parts[3])) == encode_utf8(parts[4]))
    }
}

/// Checks a password against a hash record made by `bcrypt_hash`.
pub fn bcrypt_verify(password: &str, hash: &str) -> (r: Result<bool, String>)
    ensures
        match (r, verify_result(password@, hash@)) {
            (Ok(a), Ok(b)) => a == b,
            (Err(a), Err(b)) => a@ == b,
            _ => false,
        },
{
    let parts = split_exec(&chars_of(hash), '$');
    let tag = chars_of("2b");
    if parts.len() != 5 || parts[0].len() != 0 || !(parts[1].len() == tag.len() && crate::text::matches_at(
        &parts[1],
        &tag,
        0,
    )) {
        proof {
            if parts@.len() == 5 && parts@[0]@.len() == 0 && parts@[1]@ == "2b"@ {
                assert(parts@[1]@.subrange(0, tag@.len() as int) =~= parts@[1]@);
            }
        }
        return Err(string_of(&chars_of("Invalid hash format")));
    }
    assert(parts@[1]@ =~= tag@);
    if !parses_as_u32_exec(&parts[2]) {
        return Err(string_of(&chars_of("Invalid rounds")));
    }
    let salt = string_of(&parts[3]);
    let expected = string_of(&parts[4]);
    let computed = match simple_bcrypt(password, salt.as_str()) {
        Ok(h) => h,
        Err(e) => e,
    };
    Ok(constant_time_eq(computed.as_str(), expected.as_str()))
}

/// Which kinds of characters a generated password draws from.
pub struct PasswordGenOptions {
    pub include_lowercase: bool,
    pub include_uppercase: bool,
    pub include_numbers: bool,
    pub include_symbols: bool,
    /// Leave out characters easily mistaken for one another (`i l o I L O 0 1`).
    pub exclude_similar: bool,
}

pub open spec fn pick(b: bool, s: Seq<char>) -> Seq<char> {
    if b {
        s
    } else {
        seq![]
    }
}

/// The characters a password is drawn from; lower-case letters when the
/// options select none.
pub open spec fn charset_of(o: PasswordGenOptions) -> Seq<char> {
    let cs = pick(
        o.include_lowercase,
        if o.exclude_similar {
            "abcdefghjkmnpqrstuvwxyz"@
        } else {
            "abcdefghijklmnopqrstuvwxyz"@
        },
    ) + pick(
        o.include_uppercase,
        if o.exclude_similar {
            "ABCDEFGHJKMNPQRSTUVWXYZ"@
        } else {
            "ABCDEFGHIJKLMNOPQRSTUVWXYZ"@
        },
    ) + pick(
        o.include_numbers,
        if o.exclude_similar {
            "23456789"@
        } else {
            "0123456789"@
        },
    ) + pick(o.include_symbols, "!@#$%^&*()_+-=[]{}|;:,.<>?"@);
    if cs.len() == 0 {
        "abcdefghijklmnopqrstuvwxyz"@
    } else {
        cs
    }
}

fn charset_exec(o: &PasswordGenOptions) -> (r: Vec<char>)
    ensures
        r@ == charset_of(*o),
        r@.len() > 0,
{
    let mut cs: Vec<char> = Vec::new();
    let lower = if o.exclude_similar {
        chars_of("abcdefghjkmnpqrstuvwxyz")
    } else {
        chars_of("abcdefghijklmnopqrstuvwxyz")
    };
    let upper = if o.exclude_similar {
        chars_of("ABCDEFGHJKMNPQRSTUVWXYZ")
    } else {
        chars_of("ABCDEFGHIJKLMNOPQRSTUVWXYZ")
    };
    let digits = if o.exclude_similar {
        chars_of("23456789")
    } else {
        chars_of("0123456789")
    };
    let symbols = chars_of("!@#$%^&*()_+-=[]{}|;:,.<>?");
    if o.include_lowercase {
        crate::text::append_all(&mut cs, &lower);
    }
    if o.include_uppercase {
        crate::text::append_all(&mut cs, &upper);
    }
    if o.include_numbers {
        crate::text::append_all(&mut cs, &digits);
    }
    if o.include_symbols {
        crate::text::append_all(&mut cs, &symbols);
    }
    assert(cs@ =~= pick(o.include_lowercase, lower@) + pick(o.include_uppercase, upper@) + pick(
        o.include_numbers,
        digits@,
    ) + pick(o.include_symbols, symbols@));
    if cs.len() == 0 {
        proof {
            reveal_strlit("abcdefghijklmnopqrstuvwxyz");
        }
        chars_of("abcdefghijklmnopqrstuvwxyz")
    } else {
        cs
    }
}

/// A password of `length` characters drawn from the generator seeded with
/// `seed`: character `i` is the charset's entry at the `i + 1`-th state
/// modulo its size.
pub open spec fn password_of_seed(length: nat, o: PasswordGenOptions, seed: u64) -> Seq<char> {
    let cs = charset_of(o);
    Seq::new(length, |i: int| cs[(lcg_state(seed, (i + 1) as nat) % (cs.len() as u64)) as int])
}

/// A password drawn from the generator seeded with `seed`.
pub fn password_from_seed(length: usize, options: &PasswordGenOptions, seed: u64) -> (r: String)
    ensures
        r@ == password_of_seed(length as nat, *options, seed),
{
    let cs = charset_exec(options);
    let mut out: Vec<char> = Vec::new();
    let mut state = seed;
    let mut i: usize = 0;
    while i < length
        invariant
            i <= length,
            cs@ == charset_of(*options),
            cs@.len() > 0,
            state == lcg_state(seed, i as nat),
            out@.len() == i,
            forall|k: int|
                0 <= k < i ==> #[trigger] out@[k] == password_of_seed(length as nat, *options, seed)[k],
        decreases length - i,
    {
        state = lcg_next_exec(state);
        let idx = (state % (cs.len() as u64)) as usize;
        out.push(cs[idx]);
        i += 1;
    }
    assert(out@ =~= password_of_seed(length as nat, *options, seed));
    string_of(&out)
}

/// A password seeded from the clock.
pub fn generate_password(length: usize, options: &PasswordGenOptions) -> (r: String)
    ensures
        exists|seed: u64| r@ == #[trigger] password_of_seed(length as nat, *options, seed),
{
    let seed = nanos_since_epoch();
    password_from_seed(length, options, seed)
}

} // verus!
