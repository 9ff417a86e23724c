//! Bluetooth UUID arithmetic and the X.667 hexadecimal text form.
//!
//! The Bluetooth SIG expands a short 16-bit or 32-bit UUID into the full
//! 128-bit value by placing it in the top 32 bits above a fixed base UUID.
//! The text form is the usual 8-4-4-4-12 uppercase hexadecimal grouping.

use vstd::prelude::*;

verus! {

pub type Uuid16 = u16;

pub type Uuid32 = u32;

pub type Uuid128 = u128;

/// The fixed Bluetooth SIG base UUID that short UUIDs expand over.
pub const BASE_UUID: Uuid128 = 0x00000000_0000_1000_8000_00805F9B34FBu128;

/// 2 to the power 96: the factor that places a short UUID in the top 32
/// bits of a 128-bit one.
pub const POW2_96: u128 = 0x1000000000000000000000000;

/// Expansion of a short UUID: its value shifted into the top 32 bits,
/// plus the base UUID.
pub open spec fn spec_expand_uuid(short: int) -> int {
    short * POW2_96 + BASE_UUID
}

/// Convert a 16-bit short UUID into the 128-bit UUID it stands for.
pub fn uuid16_to_uuid128(uuid16: Uuid16) -> (r: Uuid128)
    ensures
        r == spec_expand_uuid(uuid16 as int),
{
    proof {
        assert((uuid16 as u128) * POW2_96 + BASE_UUID <= u128::MAX) by (nonlinear_arith)
            requires uuid16 <= 0xFFFFu128;
    }
    (uuid16 as u128) * POW2_96 + BASE_UUID
}

/// Convert a 32-bit short UUID into the 128-bit UUID it stands for.
pub fn uuid32_to_uuid128(uuid32: Uuid32) -> (r: Uuid128)
    ensures
        r == spec_expand_uuid(uuid32 as int),
{
    proof {
        assert((uuid32 as u128) * POW2_96 + BASE_UUID <= u128::MAX) by (nonlinear_arith)
            requires uuid32 <= 0xFFFF_FFFFu128;
    }
    (uuid32 as u128) * POW2_96 + BASE_UUID
}

/// 2 to the power 80.
pub const POW2_80: u128 = 0x100000000000000000000;

/// 2 to the power 64.
pub const POW2_64: u128 = 0x10000000000000000;

/// 2 to the power 48.
pub const POW2_48: u128 = 0x1000000000000;

/// The uppercase hexadecimal digit of a value below 16.
pub open spec fn spec_hex_char(d: int) -> char {
    if d == 0 {
        '0'
    } else if d == 1 {
        '1'
    } else if d == 2 {
        '2'
    } else if d == 3 {
        '3'
    } else if d == 4 {
        '4'
    } else if d == 5 {
        '5'
    } else if d == 6 {
        '6'
    } else if d == 7 {
        '7'
    } else if d == 8 {
        '8'
    } else if d == 9 {
        '9'
    } else if d == 10 {
        'A'
    } else if d == 11 {
        'B'
    } else if d == 12 {
        'C'
    } else if d == 13 {
        'D'
    } else if d == 14 {
        'E'
    } else {
        'F'
    }
}

/// The low `n` hexadecimal digits of a value, most significant first.
pub open spec fn spec_hex_digits(v: nat, n: nat) -> Seq<char>
    decreases n,
{
    if n == 0 {
        Seq::<char>::empty()
    } else {
        spec_hex_digits(v / 16, (n - 1) as nat).push(spec_hex_char((v % 16) as int))
    }
}

/// The X.667 hexadecimal text of a 128-bit UUID: uppercase digits in
/// groups of 8, 4, 4, 4 and 12, separated by dashes.
pub open spec fn spec_uuid128_chars(uuid128: u128) -> Seq<char> {
    spec_hex_digits((uuid128 / POW2_96) as nat, 8) + seq!['-'] + spec_hex_digits(
        ((uuid128 / POW2_80) % 0x10000) as nat,
        4,
    ) + seq!['-'] + spec_hex_digits(((uuid128 / POW2_64) % 0x10000) as nat, 4) + seq!['-']
        + spec_hex_digits(((uuid128 / POW2_48) % 0x10000) as nat, 4) + seq!['-'] + spec_hex_digits(
        (uuid128 % POW2_48) as nat,
        12,
    )
}

/// Append the low `n` uppercase hexadecimal digits of `v`, most
/// significant first.
fn push_hex_digits(s: &mut String, v: u128, n: u32)
    ensures
        final(s)@ == old(s)@ + spec_hex_digits(v as nat, n as nat),
    decreases n,
{
    if n == 0 {
        proof {
            assert(s@ =~= s@ + spec_hex_digits(v as nat, 0));
        }
        return;
    }
    let ghost prefix = s@;
    push_hex_digits(s, v / 16, n - 1);
    let digits = "0123456789ABCDEF";
    proof {
        reveal_strlit("0123456789ABCDEF");
        assert(digits.is_ascii());
    }
    let d = (v % 16) as usize;
    let digit = digits.substring_ascii(d, d + 1);
    proof {
        assert(digit@ =~= seq![spec_hex_char((v % 16) as int)]);
    }
    s.append(digit);
    proof {
        assert(s@ =~= prefix + spec_hex_digits(v as nat, n as nat));
    }
}

/// Format a 128-bit UUID in the X.667 hexadecimal representation:
/// uppercase digits in groups of 8, 4, 4, 4 and 12, separated by dashes.
pub fn uuid128_to_string(uuid128: Uuid128) -> (r: String)
    ensures
        r@ == spec_uuid128_chars(uuid128),
{
    let mut s = String::new();
    push_hex_digits(&mut s, uuid128 / POW2_96, 8);
    let dash = "-";
    proof {
        reveal_strlit("-");
        assert(dash@ =~= seq!['-']);
    }
    s.append(dash);
    push_hex_digits(&mut s, (uuid128 / POW2_80) % 0x10000, 4);
    s.append(dash);
    push_hex_digits(&mut s, (uuid128 / POW2_64) % 0x10000, 4);
    s.append(dash);
    push_hex_digits(&mut s, (uuid128 / POW2_48) % 0x10000, 4);
    s.append(dash);
    push_hex_digits(&mut s, uuid128 % POW2_48, 12);
    proof {
        assert(s@ =~= spec_uuid128_chars(uuid128));
    }
    s
}

/// 16 to the power n: how many values n hexadecimal digits can hold.
pub open spec fn pow16(n: nat) -> int
    decreases n,
{
    if n == 0 {
        1
    } else {
        16 * pow16((n - 1) as nat)
    }
}

/// An error parsing the hexadecimal text form of a UUID.
#[derive(Clone, Copy, Debug, PartialEq, Eq, Structural)]
pub enum ParseUuidError {
    /// A dash-separated group is empty, has a character that is no
    /// hexadecimal digit, or exceeds 128 bits.
    ParseInt,
    /// There are not exactly five dash-separated groups.
    Incomplete,
}

/// The value of a hexadecimal digit, or -1 for any other character.
pub open spec fn spec_hex_digit_value(c: char) -> int {
    if '0' <= c && c <= '9' {
        c as int - 48
    } else if 'a' <= c && c <= 'f' {
        c as int - 87
    } else if 'A' <= c && c <= 'F' {
        c as int - 55
    } else {
        -1
    }
}

/// Whether a character is a hexadecimal digit, of either case.
pub open spec fn spec_is_hex_digit(c: char) -> bool {
    spec_hex_digit_value(c) >= 0
}

/// The value of a sequence of hexadecimal digits, most significant first.
pub open spec fn spec_hex_value(p: Seq<char>) -> int
    decreases p.len(),
{
    if p.len() == 0 {
        0
    } else {
        16 * spec_hex_value(p.drop_last()) + spec_hex_digit_value(p.last())
    }
}

/// Whether a dash-separated group parses as a 128-bit hexadecimal number:
/// nonempty, hexadecimal digits only, value within 128 bits.
pub open spec fn spec_valid_hex_part(p: Seq<char>) -> bool {
    &&& p.len() > 0
    &&& forall|i: int| 0 <= i < p.len() ==> spec_is_hex_digit(#[trigger] p[i])
    &&& spec_hex_value(p) <= u128::MAX as int
}

/// The groups of a character sequence split on every dash. Splitting the
/// empty sequence gives one empty group; a dash at either end or two in a
/// row give empty groups, as `str::split` does.
pub open spec fn spec_split_dashes(s: Seq<char>) -> Seq<Seq<char>>
    decreases s.len(),
{
    if s.len() == 0 {
        seq![Seq::<char>::empty()]
    } else if s[0] == '-' {
        seq![Seq::<char>::empty()] + spec_split_dashes(s.drop_first())
    } else {
        let rest = spec_split_dashes(s.drop_first());
        seq![seq![s[0]] + rest[0]] + rest.drop_first()
    }
}

/// A split always has at least one group.
pub proof fn lemma_split_dashes_len(s: Seq<char>)
    ensures
        spec_split_dashes(s).len() >= 1,
    decreases s.len(),
{
    if s.len() == 0 {
    } else {
        lemma_split_dashes_len(s.drop_first());
    }
}

/// Appending one character extends a split at its end: a dash appends an
/// empty group, any other character extends the last group.
pub proof fn lemma_split_dashes_push(s: Seq<char>, c: char)
    ensures
        c == '-' ==> spec_split_dashes(s.push(c)) == spec_split_dashes(s).push(
            Seq::<char>::empty(),
        ),
        c != '-' ==> spec_split_dashes(s.push(c)) == spec_split_dashes(s).update(
            spec_split_dashes(s).len() - 1,
            spec_split_dashes(s).last().push(c),
        ),
    decreases s.len(),
{
    lemma_split_dashes_len(s);
    if s.len() == 0 {
        assert(s.push(c).drop_first() =~= s);
        if c == '-' {
            assert(s.push(c)[0] == c);
            assert(spec_split_dashes(s.push(c)) =~~= spec_split_dashes(s).push(
                Seq::<char>::empty(),
            ));
        } else {
            assert(s.push(c)[0] == c);
            assert(spec_split_dashes(s.push(c)) =~~= spec_split_dashes(s).update(
                0,
                spec_split_dashes(s).last().push(c),
            ));
        }
    } else {
        let t = s.drop_first();
        assert(s.push(c).drop_first() =~= t.push(c));
        assert(s.push(c)[0] == s[0]);
        lemma_split_dashes_push(t, c);
        lemma_split_dashes_len(t);
        lemma_split_dashes_len(t.push(c));
        if c == '-' {
            assert(spec_split_dashes(s.push(c)) =~~= spec_split_dashes(s).push(
                Seq::<char>::empty(),
            ));
        } else {
            assert(spec_split_dashes(s.push(c)) =~~= spec_split_dashes(s).update(
                spec_split_dashes(s).len() - 1,
                spec_split_dashes(s).last().push(c),
            ));
        }
    }
}

/// Smallest value whose hexadecimal form needs more than 32 digits:
/// 2 to the power 124.
pub const POW2_124: u128 = 0x10000000000000000000000000000000;

/// Whether a group, possibly still being read, can no longer parse: it
/// already has a character that is no hexadecimal digit, or its value
/// already exceeds 128 bits. Appending characters never repairs either.
pub open spec fn spec_doomed_part(p: Seq<char>) -> bool {
    ||| exists|i: int| 0 <= i < p.len() && !spec_is_hex_digit(#[trigger] p[i])
    ||| spec_hex_value(p) > u128::MAX as int
}

/// A doomed group stays doomed when extended by any character.
proof fn lemma_doomed_push(p: Seq<char>, c: char)
    requires
        spec_doomed_part(p),
    ensures
        spec_doomed_part(p.push(c)),
{
    if exists|i: int| 0 <= i < p.len() && !spec_is_hex_digit(#[trigger] p[i]) {
        let i = choose|i: int| 0 <= i < p.len() && !spec_is_hex_digit(#[trigger] p[i]);
        assert(p.push(c)[i] == p[i]);
    } else {
        assert(p.push(c).drop_last() =~= p);
        assert(p.push(c).last() == c);
    }
}

/// A complete doomed group does not parse.
proof fn lemma_doomed_not_valid(p: Seq<char>)
    requires
        spec_doomed_part(p),
    ensures
        !spec_valid_hex_part(p),
{
}

/// The value of a group grows by one digit at its end.
proof fn lemma_hex_value_push(p: Seq<char>, c: char)
    ensures
        spec_hex_value(p.push(c)) == 16 * spec_hex_value(p) + spec_hex_digit_value(c),
{
    assert(p.push(c).drop_last() =~= p);
    assert(p.push(c).last() == c);
}

/// Combination of the five group values into one 128-bit value, as the
/// shifted sum taken modulo 2 to the power 128.
pub open spec fn spec_combine_uuid(v0: int, v1: int, v2: int, v3: int, v4: int) -> int {
    (v0 * POW2_96 + v1 * POW2_80 + v2 * POW2_64 + v3 * POW2_48 + v4) % (u128::MAX as int + 1)
}

/// Parse semantics of the X.667 hexadecimal text form: split on dashes;
/// every group must be a 128-bit hexadecimal number, else `ParseInt`;
/// there must be exactly five groups, else `Incomplete`; the value is the
/// groups' shifted sum.
pub open spec fn spec_parse_uuid128(s: Seq<char>) -> Result<u128, ParseUuidError> {
    let parts = spec_split_dashes(s);
    if exists|j: int| 0 <= j < parts.len() && !spec_valid_hex_part(#[trigger] parts[j]) {
        Err(ParseUuidError::ParseInt)
    } else if parts.len() != 5 {
        Err(ParseUuidError::Incomplete)
    } else {
        Ok(
            spec_combine_uuid(
                spec_hex_value(parts[0]),
                spec_hex_value(parts[1]),
                spec_hex_value(parts[2]),
                spec_hex_value(parts[3]),
                spec_hex_value(parts[4]),
            ) as u128,
        )
    }
}

/// The value of a hexadecimal digit character, of either case.
fn hex_digit_value(c: char) -> (r: Option<u8>)
    ensures
        r matches Some(d) ==> spec_hex_digit_value(c) == d as int && d < 16,
        r is None ==> spec_hex_digit_value(c) == -1,
{
    let v = c as u32;
    if 48 <= v && v <= 57 {
        Some((v - 48) as u8)
    } else if 97 <= v && v <= 102 {
        Some((v - 87) as u8)
    } else if 65 <= v && v <= 70 {
        Some((v - 55) as u8)
    } else {
        None
    }
}

/// Wrapping addition is addition modulo 2 to the power 128.
proof fn lemma_wrapping_add_mod(x: u128, y: u128)
    ensures
        x.wrapping_add(y) as int == (x as int + y as int) % (u128::MAX as int + 1),
{
    let m = u128::MAX as int + 1;
    if x + y > u128::MAX {
        vstd::arithmetic::div_mod::lemma_mod_multiples_vanish(-1, x as int + y as int, m);
        vstd::arithmetic::div_mod::lemma_small_mod((x + y - m) as nat, m as nat);
    } else {
        vstd::arithmetic::div_mod::lemma_small_mod((x + y) as nat, m as nat);
    }
}

/// Parse the X.667 hexadecimal representation of a 128-bit UUID: five
/// dash-separated groups of hexadecimal digits. Yields `ParseInt` when a
/// group is empty, has a character that is no hexadecimal digit, or
/// exceeds 128 bits; `Incomplete` when the group count is not five.
pub fn string_to_uuid128(s: String) -> (r: Result<Uuid128, ParseUuidError>)
    ensures
        r == spec_parse_uuid128(s@),
{
    let s_str = s.as_str();
    let n = s_str.unicode_len();
    let mut parts: Vec<u128> = Vec::new();
    let mut acc: u128 = 0;
    let mut digits: usize = 0;
    let mut bad: bool = false;
    let mut i: usize = 0;
    while i < n
        invariant
            s_str@ == s@,
            n == s@.len(),
            i <= n,
            !bad ==> {
                let sp = spec_split_dashes(s@.take(i as int));
                &&& sp.len() == parts@.len() + 1
                &&& forall|j: int|
                    0 <= j < parts@.len() ==> spec_valid_hex_part(#[trigger] sp[j])
                        && parts@[j] as int == spec_hex_value(sp[j])
                &&& forall|k: int| 0 <= k < sp.last().len() ==> spec_is_hex_digit(
                    #[trigger] sp.last()[k],
                )
                &&& acc as int == spec_hex_value(sp.last())
                &&& digits == sp.last().len()
                &&& digits <= i
            },
            bad ==> {
                let sp = spec_split_dashes(s@.take(i as int));
                ||| exists|j: int|
                    0 <= j < sp.len() - 1 && !spec_valid_hex_part(#[trigger] sp[j])
                ||| spec_doomed_part(sp.last())
            },
        decreases n - i,
    {
        let ghost prefix = s@.take(i as int);
        let ghost sp = spec_split_dashes(prefix);
        let c = s_str.get_char(i);
        proof {
            assert(s@.take(i as int + 1) =~= prefix.push(s@[i as int]));
            lemma_split_dashes_push(prefix, c);
            lemma_split_dashes_len(prefix);
        }
        if c == '-' {
            if !bad {
                if digits == 0 {
                    bad = true;
                    proof {
                        let sp2 = spec_split_dashes(prefix.push(c));
                        assert(sp2[sp.len() - 1] == sp.last());
                        assert(!spec_valid_hex_part(sp2[sp.len() - 1]));
                    }
                } else {
                    parts.push(acc);
                    acc = 0;
                    digits = 0;
                    proof {
                        let sp2 = spec_split_dashes(prefix.push(c));
                        assert(sp2[sp.len() - 1] == sp.last());
                        assert(spec_valid_hex_part(sp2[sp.len() - 1]));
                        assert(forall|j: int|
                            0 <= j < parts@.len() - 1 ==> sp2[j] == #[trigger] sp[j]);
                    }
                }
            } else {
                proof {
                    let sp2 = spec_split_dashes(prefix.push(c));
                    if spec_doomed_part(sp.last()) {
                        assert(sp2[sp.len() - 1] == sp.last());
                        lemma_doomed_not_valid(sp.last());
                    } else {
                        let j = choose|j: int|
                            0 <= j < sp.len() - 1 && !spec_valid_hex_part(#[trigger] sp[j]);
                        assert(sp2[j] == sp[j]);
                    }
                }
            }
        } else {
            if !bad {
                match hex_digit_value(c) {
                    None => {
                        bad = true;
                        proof {
                            let sp2 = spec_split_dashes(prefix.push(c));
                            assert(sp2.last() == sp.last().push(c));
                            assert(sp2.last().last() == c);
                            assert(!spec_is_hex_digit(sp2.last()[sp2.last().len() - 1]));
                        }
                    },
                    Some(d) => {
                        if acc >= POW2_124 {
                            bad = true;
                            proof {
                                let sp2 = spec_split_dashes(prefix.push(c));
                                assert(sp2.last() == sp.last().push(c));
                                lemma_hex_value_push(sp.last(), c);
                                assert(spec_hex_value(sp2.last()) > u128::MAX as int);
                            }
                        } else {
                            acc = acc * 16 + d as u128;
                            digits = digits + 1;
                            proof {
                                let sp2 = spec_split_dashes(prefix.push(c));
                                assert(sp2.last() == sp.last().push(c));
                                lemma_hex_value_push(sp.last(), c);
                                assert(forall|j: int|
                                    0 <= j < parts@.len() ==> sp2[j] == #[trigger] sp[j]);
                                assert(forall|k: int|
                                    0 <= k < sp.last().len() ==> sp2.last()[k] == #[trigger] sp
                                        .last()[k]);
                            }
                        }
                    },
                }
            } else {
                proof {
                    let sp2 = spec_split_dashes(prefix.push(c));
                    if spec_doomed_part(sp.last()) {
                        assert(sp2.last() == sp.last().push(c));
                        lemma_doomed_push(sp.last(), c);
                    } else {
                        let j = choose|j: int|
                            0 <= j < sp.len() - 1 && !spec_valid_hex_part(#[trigger] sp[j]);
                        assert(sp2[j] == sp[j]);
                    }
                }
            }
        }
        i = i + 1;
    }
    proof {
        assert(s@.take(n as int) =~= s@);
        lemma_split_dashes_len(s@);
    }
    let ghost sp = spec_split_dashes(s@);
    if bad {
        proof {
            if spec_doomed_part(sp.last()) {
                lemma_doomed_not_valid(sp.last());
                assert(!spec_valid_hex_part(sp[sp.len() - 1]));
            }
        }
        return Err(ParseUuidError::ParseInt);
    }
    if digits == 0 {
        proof {
            assert(!spec_valid_hex_part(sp[sp.len() - 1]));
        }
        return Err(ParseUuidError::ParseInt);
    }
    parts.push(acc);
    proof {
        assert(spec_valid_hex_part(sp[sp.len() - 1]));
        assert(forall|j: int| 0 <= j < sp.len() ==> spec_valid_hex_part(#[trigger] sp[j]));
    }
    if parts.len() != 5 {
        return Err(ParseUuidError::Incomplete);
    }
    let ghost m = u128::MAX as int + 1;
    let w0 = (parts[0] % 0x100000000u128) * POW2_96;
    let w1 = (parts[1] % POW2_48) * POW2_80;
    let w2 = (parts[2] % POW2_64) * POW2_64;
    let w3 = (parts[3] % POW2_80) * POW2_48;
    let w4 = parts[4];
    proof {
        assert((parts@[0] % 0x100000000u128) * POW2_96 <= u128::MAX) by (nonlinear_arith);
        assert((parts@[1] % POW2_48) * POW2_80 <= u128::MAX) by (nonlinear_arith);
        assert((parts@[2] % POW2_64) * POW2_64 <= u128::MAX) by (nonlinear_arith);
        assert((parts@[3] % POW2_80) * POW2_48 <= u128::MAX) by (nonlinear_arith);
    }
    let r = w0.wrapping_add(w1).wrapping_add(w2).wrapping_add(w3).wrapping_add(w4);
    proof {
        let v0 = parts@[0] as int;
        let v1 = parts@[1] as int;
        let v2 = parts@[2] as int;
        let v3 = parts@[3] as int;
        let v4 = parts@[4] as int;
        vstd::arithmetic::div_mod::lemma_truncate_middle(v0, POW2_96 as int, 0x100000000);
        vstd::arithmetic::div_mod::lemma_truncate_middle(v1, POW2_80 as int, POW2_48 as int);
        vstd::arithmetic::div_mod::lemma_truncate_middle(v2, POW2_64 as int, POW2_64 as int);
        vstd::arithmetic::div_mod::lemma_truncate_middle(v3, POW2_48 as int, POW2_80 as int);
        assert(w0 as int == (v0 * POW2_96) % m) by {
            assert(POW2_96 as int * v0 == v0 * POW2_96) by (nonlinear_arith);
            assert(POW2_96 as int * (v0 % 0x100000000) == (v0 % 0x100000000) * POW2_96)
                by (nonlinear_arith);
        }
        assert(w1 as int == (v1 * POW2_80) % m) by {
            assert(POW2_80 as int * v1 == v1 * POW2_80) by (nonlinear_arith);
            assert(POW2_80 as int * (v1 % POW2_48 as int) == (v1 % POW2_48 as int) * POW2_80)
                by (nonlinear_arith);
        }
        assert(w2 as int == (v2 * POW2_64) % m) by {
            assert(POW2_64 as int * v2 == v2 * POW2_64) by (nonlinear_arith);
            assert(POW2_64 as int * (v2 % POW2_64 as int) == (v2 % POW2_64 as int) * POW2_64)
                by (nonlinear_arith);
        }
        assert(w3 as int == (v3 * POW2_48) % m) by {
            assert(POW2_48 as int * v3 == v3 * POW2_48) by (nonlinear_arith);
            assert(POW2_48 as int * (v3 % POW2_80 as int) == (v3 % POW2_80 as int) * POW2_48)
                by (nonlinear_arith);
        }
        lemma_wrapping_add_mod(w0, w1);
        vstd::arithmetic::div_mod::lemma_add_mod_noop(v0 * POW2_96, v1 * POW2_80, m);
        lemma_wrapping_add_mod(w0.wrapping_add(w1), w2);
        vstd::arithmetic::div_mod::lemma_add_mod_noop(
            v0 * POW2_96 + v1 * POW2_80,
            v2 * POW2_64,
            m,
        );
        lemma_wrapping_add_mod(w0.wrapping_add(w1).wrapping_add(w2), w3);
        vstd::arithmetic::div_mod::lemma_add_mod_noop(
            v0 * POW2_96 + v1 * POW2_80 + v2 * POW2_64,
            v3 * POW2_48,
            m,
        );
        lemma_wrapping_add_mod(w0.wrapping_add(w1).wrapping_add(w2).wrapping_add(w3), w4);
        vstd::arithmetic::div_mod::lemma_small_mod(v4 as nat, m as nat);
        vstd::arithmetic::div_mod::lemma_add_mod_noop(
            v0 * POW2_96 + v1 * POW2_80 + v2 * POW2_64 + v3 * POW2_48,
            v4,
            m,
        );
        assert(r as int == spec_combine_uuid(v0, v1, v2, v3, v4));
    }
    Ok(r)
}

/// A sequence without dashes splits to itself, as its only group.
proof fn lemma_split_dashes_no_dash(a: Seq<char>)
    requires
        forall|i: int| 0 <= i < a.len() ==> a[i] != '-',
    ensures
        spec_split_dashes(a) == seq![a],
    decreases a.len(),
{
    if a.len() == 0 {
        assert(spec_split_dashes(a) =~~= seq![a]);
    } else {
        lemma_split_dashes_no_dash(a.drop_first());
        assert(seq![a[0]] + a.drop_first() =~= a);
        assert(spec_split_dashes(a) =~~= seq![a]);
    }
}

/// Splitting takes a dash-free prefix up to the first dash as one group,
/// then splits what follows the dash.
proof fn lemma_split_dashes_concat(a: Seq<char>, rest: Seq<char>)
    requires
        forall|i: int| 0 <= i < a.len() ==> a[i] != '-',
    ensures
        spec_split_dashes(a + seq!['-'] + rest) == seq![a] + spec_split_dashes(rest),
    decreases a.len(),
{
    lemma_split_dashes_len(rest);
    if a.len() == 0 {
        let s = a + seq!['-'] + rest;
        assert(s[0] == '-');
        assert(s.drop_first() =~= rest);
        assert(spec_split_dashes(s) =~~= seq![a] + spec_split_dashes(rest));
    } else {
        let s = a + seq!['-'] + rest;
        assert(s[0] == a[0]);
        assert(s.drop_first() =~= a.drop_first() + seq!['-'] + rest);
        lemma_split_dashes_concat(a.drop_first(), rest);
        lemma_split_dashes_len(a.drop_first() + seq!['-'] + rest);
        assert(seq![a[0]] + (seq![a.drop_first()] + spec_split_dashes(rest))[0] =~= a);
        assert((seq![a.drop_first()] + spec_split_dashes(rest)).drop_first() =~= spec_split_dashes(
            rest,
        ));
        assert(spec_split_dashes(s) =~~= seq![a] + spec_split_dashes(rest));
    }
}

/// Formatted digits hold no dash, whatever the value and width.
proof fn lemma_hex_digits_no_dash(v: nat, n: nat)
    ensures
        spec_hex_digits(v, n).len() == n,
        forall|i: int| 0 <= i < n ==> spec_hex_digits(v, n)[i] != '-',
    decreases n,
{
    if n > 0 {
        lemma_hex_digits_no_dash(v / 16, (n - 1) as nat);
        let p = spec_hex_digits(v / 16, (n - 1) as nat);
        assert(forall|i: int| 0 <= i < n - 1 ==> spec_hex_digits(v, n)[i] == p[i]);
        assert(spec_hex_digits(v, n)[n - 1] == spec_hex_char((v % 16) as int));
    }
}

/// The formatted digits of a value that fits the width read back as that
/// value: they are hexadecimal digits throughout, `n` of them.
proof fn lemma_hex_digits_value(v: nat, n: nat)
    requires
        v < pow16(n),
    ensures
        spec_hex_digits(v, n).len() == n,
        forall|i: int| 0 <= i < n ==> spec_is_hex_digit(#[trigger] spec_hex_digits(v, n)[i]),
        spec_hex_value(spec_hex_digits(v, n)) == v,
    decreases n,
{
    if n > 0 {
        assert(v as int / 16 < pow16((n - 1) as nat)) by {
            vstd::arithmetic::div_mod::lemma_multiply_divide_lt(
                v as int,
                16,
                pow16((n - 1) as nat),
            );
        }
        lemma_hex_digits_value(v / 16, (n - 1) as nat);
        let p = spec_hex_digits(v / 16, (n - 1) as nat);
        let c = spec_hex_char((v % 16) as int);
        lemma_hex_value_push(p, c);
        assert(spec_hex_digit_value(c) == v % 16);
        vstd::arithmetic::div_mod::lemma_fundamental_div_mod(v as int, 16);
        assert(forall|i: int|
            0 <= i < n ==> spec_is_hex_digit(#[trigger] spec_hex_digits(v, n)[i])) by {
            assert(forall|i: int| 0 <= i < n - 1 ==> spec_hex_digits(v, n)[i] == p[i]);
            assert(spec_hex_digits(v, n)[n - 1] == c);
        }
    }
}

/// A formatted group is a well-formed hexadecimal group with its value.
proof fn lemma_uuid_group(v: nat, n: nat)
    requires
        0 < n,
        v < pow16(n),
        pow16(n) <= u128::MAX as int + 1,
    ensures
        spec_valid_hex_part(spec_hex_digits(v, n)),
        spec_hex_value(spec_hex_digits(v, n)) == v,
{
    lemma_hex_digits_value(v, n);
}

/// The handful of powers of 16 the UUID text form is built from.
proof fn lemma_pow16_values()
    ensures
        pow16(4) == 0x10000,
        pow16(8) == 0x100000000,
        pow16(12) == POW2_48 as int,
{
    assert(pow16(0) == 1);
    assert(pow16(1) == 16);
    assert(pow16(2) == 0x100);
    assert(pow16(3) == 0x1000);
    assert(pow16(4) == 0x10000);
    assert(pow16(5) == 0x100000);
    assert(pow16(6) == 0x1000000);
    assert(pow16(7) == 0x10000000);
    assert(pow16(8) == 0x100000000);
    assert(pow16(9) == 0x1000000000);
    assert(pow16(10) == 0x10000000000);
    assert(pow16(11) == 0x100000000000);
    assert(pow16(12) == 0x1000000000000);
}

/// The text of a UUID splits back into exactly its five digit groups.
proof fn lemma_uuid_text_groups(uuid128: u128)
    ensures
        spec_split_dashes(spec_uuid128_chars(uuid128)) == seq![
            spec_hex_digits((uuid128 / POW2_96) as nat, 8),
            spec_hex_digits(((uuid128 / POW2_80) % 0x10000) as nat, 4),
            spec_hex_digits(((uuid128 / POW2_64) % 0x10000) as nat, 4),
            spec_hex_digits(((uuid128 / POW2_48) % 0x10000) as nat, 4),
            spec_hex_digits((uuid128 % POW2_48) as nat, 12),
        ],
{
    let g0 = spec_hex_digits((uuid128 / POW2_96) as nat, 8);
    let g1 = spec_hex_digits(((uuid128 / POW2_80) % 0x10000) as nat, 4);
    let g2 = spec_hex_digits(((uuid128 / POW2_64) % 0x10000) as nat, 4);
    let g3 = spec_hex_digits(((uuid128 / POW2_48) % 0x10000) as nat, 4);
    let g4 = spec_hex_digits((uuid128 % POW2_48) as nat, 12);
    lemma_hex_digits_no_dash((uuid128 / POW2_96) as nat, 8);
    lemma_hex_digits_no_dash((((uuid128 / POW2_80) % 0x10000)) as nat, 4);
    lemma_hex_digits_no_dash((((uuid128 / POW2_64) % 0x10000)) as nat, 4);
    lemma_hex_digits_no_dash((((uuid128 / POW2_48) % 0x10000)) as nat, 4);
    lemma_hex_digits_no_dash((uuid128 % POW2_48) as nat, 12);
    let r4 = g4;
    let r3 = g3 + seq!['-'] + r4;
    let r2 = g2 + seq!['-'] + r3;
    let r1 = g1 + seq!['-'] + r2;
    assert(spec_uuid128_chars(uuid128) =~= g0 + seq!['-'] + r1);
    lemma_split_dashes_concat(g0, r1);
    lemma_split_dashes_concat(g1, r2);
    lemma_split_dashes_concat(g2, r3);
    lemma_split_dashes_concat(g3, r4);
    lemma_split_dashes_no_dash(g4);
    assert(spec_split_dashes(spec_uuid128_chars(uuid128)) =~~= seq![g0, g1, g2, g3, g4]);
}

/// The five digit-group values of a UUID recombine to that UUID.
proof fn lemma_uuid_combine(uuid128: u128)
    ensures
        spec_combine_uuid(
            uuid128 as int / POW2_96 as int,
            (uuid128 as int / POW2_80 as int) % 0x10000,
            (uuid128 as int / POW2_64 as int) % 0x10000,
            (uuid128 as int / POW2_48 as int) % 0x10000,
            uuid128 as int % POW2_48 as int,
        ) == uuid128 as int,
{
    let u = uuid128 as int;
    let m = u128::MAX as int + 1;
    let v0 = u / POW2_96 as int;
    let v1 = (u / POW2_80 as int) % 0x10000;
    let v2 = (u / POW2_64 as int) % 0x10000;
    let v3 = (u / POW2_48 as int) % 0x10000;
    let v4 = u % POW2_48 as int;
    let q48 = u / POW2_48 as int;
    let q64 = u / POW2_64 as int;
    let q80 = u / POW2_80 as int;
    assert(u == POW2_48 * q48 + v4) by {
        vstd::arithmetic::div_mod::lemma_fundamental_div_mod(u, POW2_48 as int);
    }
    assert(q48 == 0x10000 * q64 + v3) by {
        vstd::arithmetic::div_mod::lemma_fundamental_div_mod(q48, 0x10000);
        vstd::arithmetic::div_mod::lemma_div_denominator(u, POW2_48 as int, 0x10000);
    }
    assert(q64 == 0x10000 * q80 + v2) by {
        vstd::arithmetic::div_mod::lemma_fundamental_div_mod(q64, 0x10000);
        vstd::arithmetic::div_mod::lemma_div_denominator(u, POW2_64 as int, 0x10000);
    }
    assert(q80 == 0x10000 * v0 + v1) by {
        vstd::arithmetic::div_mod::lemma_fundamental_div_mod(q80, 0x10000);
        vstd::arithmetic::div_mod::lemma_div_denominator(u, POW2_80 as int, 0x10000);
    }
    assert(u == v0 * POW2_96 + v1 * POW2_80 + v2 * POW2_64 + v3 * POW2_48 + v4)
        by (nonlinear_arith)
        requires
            u == POW2_48 * q48 + v4,
            q48 == 0x10000 * q64 + v3,
            q64 == 0x10000 * q80 + v2,
            q80 == 0x10000 * v0 + v1,
    ;
    vstd::arithmetic::div_mod::lemma_small_mod(u as nat, m as nat);
}

/// Round trip: parsing the formatted text of any 128-bit UUID yields
/// exactly that value.
pub proof fn lemma_uuid_text_round_trip(uuid128: u128)
    ensures
        spec_parse_uuid128(spec_uuid128_chars(uuid128)) == Ok::<u128, ParseUuidError>(uuid128),
{
    let u = uuid128 as int;
    let v0 = u / POW2_96 as int;
    let v1 = (u / POW2_80 as int) % 0x10000;
    let v2 = (u / POW2_64 as int) % 0x10000;
    let v3 = (u / POW2_48 as int) % 0x10000;
    let v4 = u % POW2_48 as int;
    lemma_pow16_values();
    assert(0 <= v0 < 0x100000000) by {
        vstd::arithmetic::div_mod::lemma_div_pos_is_pos(u, POW2_96 as int);
        vstd::arithmetic::div_mod::lemma_multiply_divide_lt(u, POW2_96 as int, 0x100000000);
    }
    assert(0 <= v1 < 0x10000 && 0 <= v2 < 0x10000 && 0 <= v3 < 0x10000) by {
        vstd::arithmetic::div_mod::lemma_mod_bound(u / POW2_80 as int, 0x10000);
        vstd::arithmetic::div_mod::lemma_mod_bound(u / POW2_64 as int, 0x10000);
        vstd::arithmetic::div_mod::lemma_mod_bound(u / POW2_48 as int, 0x10000);
    }
    assert(0 <= v4 < POW2_48 as int) by {
        vstd::arithmetic::div_mod::lemma_mod_bound(u, POW2_48 as int);
    }
    lemma_uuid_group(v0 as nat, 8);
    lemma_uuid_group(v1 as nat, 4);
    lemma_uuid_group(v2 as nat, 4);
    lemma_uuid_group(v3 as nat, 4);
    lemma_uuid_group(v4 as nat, 12);
    lemma_uuid_text_groups(uuid128);
    let parts = spec_split_dashes(spec_uuid128_chars(uuid128));
    assert(parts.len() == 5);
    assert(forall|j: int| 0 <= j < parts.len() ==> spec_valid_hex_part(#[trigger] parts[j]))
        by {
        assert(spec_valid_hex_part(parts[0]));
        assert(spec_valid_hex_part(parts[1]));
        assert(spec_valid_hex_part(parts[2]));
        assert(spec_valid_hex_part(parts[3]));
        assert(spec_valid_hex_part(parts[4]));
    }
    lemma_uuid_combine(uuid128);
}

} // verus!
