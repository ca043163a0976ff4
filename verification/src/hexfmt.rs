//! Fixed-width hexadecimal fields of the text wire encoding.

use vstd::prelude::*;
use vstd::arithmetic::div_mod::{lemma_div_pos_is_pos, lemma_fundamental_div_mod, lemma_mod_bound};

verus! {

/// The lower-case hexadecimal digit of a value below sixteen.
pub open spec fn spec_hex_char(n: u8) -> char {
    if n == 0 { '0' } else if n == 1 { '1' } else if n == 2 { '2' } else if n == 3 { '3' }
    else if n == 4 { '4' } else if n == 5 { '5' } else if n == 6 { '6' } else if n == 7 { '7' }
    else if n == 8 { '8' } else if n == 9 { '9' } else if n == 10 { 'a' } else if n == 11 { 'b' }
    else if n == 12 { 'c' } else if n == 13 { 'd' } else if n == 14 { 'e' } else { 'f' }
}

/// The value of a lower-case hexadecimal digit; `None` on any other
/// character.
pub open spec fn spec_hex_val(c: char) -> Option<u8> {
    if c == '0' { Some(0u8) } else if c == '1' { Some(1u8) } else if c == '2' { Some(2u8) }
    else if c == '3' { Some(3u8) } else if c == '4' { Some(4u8) } else if c == '5' { Some(5u8) }
    else if c == '6' { Some(6u8) } else if c == '7' { Some(7u8) } else if c == '8' { Some(8u8) }
    else if c == '9' { Some(9u8) } else if c == 'a' { Some(10u8) } else if c == 'b' { Some(11u8) }
    else if c == 'c' { Some(12u8) } else if c == 'd' { Some(13u8) } else if c == 'e' { Some(14u8) }
    else if c == 'f' { Some(15u8) } else { None }
}

/// Sixteen to the given power: the range of a hexadecimal field.
pub open spec fn pow16(w: nat) -> nat
    decreases w,
{
    if w == 0 {
        1
    } else {
        16 * pow16((w - 1) as nat)
    }
}

/// The fixed-width hexadecimal form of a value, most significant digit
/// first.
pub open spec fn spec_hex(x: nat, w: nat) -> Seq<char>
    decreases w,
{
    if w == 0 {
        Seq::empty()
    } else {
        spec_hex(x / 16, (w - 1) as nat).push(spec_hex_char((x % 16) as u8))
    }
}

/// Whether every character of the field is a hexadecimal digit.
pub open spec fn all_hex(s: Seq<char>) -> bool {
    forall|i: int| 0 <= i < s.len() ==> (#[trigger] spec_hex_val(s[i])) is Some
}

/// The value of a hexadecimal field, most significant digit first.
pub open spec fn spec_unhex(s: Seq<char>) -> nat
    decreases s.len(),
{
    if s.len() == 0 {
        0
    } else {
        spec_unhex(s.drop_last()) * 16 + spec_hex_val(s.last()).unwrap_or(0u8) as nat
    }
}

/// A fixed-width hexadecimal form has its width, is made of digits, and
/// parses back to the value it was printed from.
pub proof fn lemma_hex_round_trip(x: nat, w: nat)
    requires
        x < pow16(w),
    ensures
        spec_hex(x, w).len() == w,
        all_hex(spec_hex(x, w)),
        spec_unhex(spec_hex(x, w)) == x,
    decreases w,
{
    if w == 0 {
    } else {
        let rest = spec_hex(x / 16, (w - 1) as nat);
        let c = spec_hex_char((x % 16) as u8);
        lemma_mod_bound(x as int, 16);
        lemma_div_pos_is_pos(x as int, 16);
        assert(x / 16 < pow16((w - 1) as nat)) by (nonlinear_arith)
            requires x < pow16(w), pow16(w) == 16 * pow16((w - 1) as nat), x >= 0
        ;
        lemma_hex_round_trip(x / 16, (w - 1) as nat);
        let s = spec_hex(x, w);
        assert(s == rest.push(c));
        assert(s.drop_last() =~= rest);
        assert(spec_hex_val(c) == Some((x % 16) as u8));
        assert(all_hex(s)) by {
            assert forall|i: int| 0 <= i < s.len() implies (#[trigger] spec_hex_val(s[i])) is Some by {
                if i < s.len() - 1 {
                    assert(s[i] == rest[i]);
                } else {
                    assert(s[i] == c);
                }
            }
        }
        lemma_fundamental_div_mod(x as int, 16);
    }
}

/// A field of hexadecimal digits parses below sixteen to the power of its
/// width.
pub proof fn lemma_unhex_bound(s: Seq<char>)
    requires
        all_hex(s),
    ensures
        spec_unhex(s) < pow16(s.len()),
    decreases s.len(),
{
    if s.len() == 0 {
    } else {
        assert(all_hex(s.drop_last())) by {
            assert forall|i: int| 0 <= i < s.len() - 1 implies (#[trigger] spec_hex_val(
                s.drop_last()[i],
            )) is Some by {
                assert(s.drop_last()[i] == s[i]);
            }
        }
        lemma_unhex_bound(s.drop_last());
        assert(spec_hex_val(s.last()).unwrap_or(0u8) < 16);
        assert(spec_unhex(s.drop_last()) * 16 + 16 <= pow16(s.len())) by (nonlinear_arith)
            requires
                spec_unhex(s.drop_last()) < pow16((s.len() - 1) as nat),
                pow16(s.len() as nat) == 16 * pow16((s.len() - 1) as nat),
        ;
    }
}

/// The width of every hexadecimal form.
pub proof fn lemma_hex_len(x: nat, w: nat)
    ensures
        spec_hex(x, w).len() == w,
    decreases w,
{
    if w > 0 {
        lemma_hex_len(x / 16, (w - 1) as nat);
    }
}

/// The range of a sixteen-digit field covers exactly the 64-bit values.
pub proof fn lemma_pow16_16()
    ensures
        pow16(16) == 0x1_0000_0000_0000_0000,
        pow16(2) == 0x100,
{
    reveal_with_fuel(pow16, 17);
}

/// One hexadecimal digit as a string slice.
fn hex_digit_str(n: u8) -> (r: &'static str)
    requires
        n < 16,
    ensures
        r@ =~= seq![spec_hex_char(n)],
{
    proof {
        reveal_strlit("0");
        reveal_strlit("1");
        reveal_strlit("2");
        reveal_strlit("3");
        reveal_strlit("4");
        reveal_strlit("5");
        reveal_strlit("6");
        reveal_strlit("7");
        reveal_strlit("8");
        reveal_strlit("9");
        reveal_strlit("a");
        reveal_strlit("b");
        reveal_strlit("c");
        reveal_strlit("d");
        reveal_strlit("e");
        reveal_strlit("f");
    }
    if n == 0 { "0" } else if n == 1 { "1" } else if n == 2 { "2" } else if n == 3 { "3" }
    else if n == 4 { "4" } else if n == 5 { "5" } else if n == 6 { "6" } else if n == 7 { "7" }
    else if n == 8 { "8" } else if n == 9 { "9" } else if n == 10 { "a" } else if n == 11 { "b" }
    else if n == 12 { "c" } else if n == 13 { "d" } else if n == 14 { "e" } else { "f" }
}

/// The value of one hexadecimal character.
fn hex_digit_val(c: char) -> (r: Option<u8>)
    ensures
        r == spec_hex_val(c),
{
    if c == '0' { Some(0) } else if c == '1' { Some(1) } else if c == '2' { Some(2) }
    else if c == '3' { Some(3) } else if c == '4' { Some(4) } else if c == '5' { Some(5) }
    else if c == '6' { Some(6) } else if c == '7' { Some(7) } else if c == '8' { Some(8) }
    else if c == '9' { Some(9) } else if c == 'a' { Some(10) } else if c == 'b' { Some(11) }
    else if c == 'c' { Some(12) } else if c == 'd' { Some(13) } else if c == 'e' { Some(14) }
    else if c == 'f' { Some(15) } else { None }
}

/// Append the fixed-width hexadecimal form of `x`.
pub fn push_hex(out: &mut String, x: u64, w: usize)
    requires
        w <= 16,
    ensures
        final(out)@ == old(out)@ + spec_hex(x as nat, w as nat),
    decreases w,
{
    if w == 0 {
        proof {
            assert(final(out)@ =~= old(out)@ + spec_hex(x as nat, 0));
        }
    } else {
        push_hex(out, x / 16, w - 1);
        let d = (x % 16) as u8;
        out.append(hex_digit_str(d));
        proof {
            assert(final(out)@ =~= old(out)@ + spec_hex(x as nat, w as nat));
        }
    }
}

/// Parse a fixed-width hexadecimal field at `i`.
pub open spec fn st_hex(s: Seq<char>, i: int, w: int) -> Option<(u64, int)> {
    if 0 <= i && i + w <= s.len() && all_hex(s.subrange(i, i + w)) {
        Some((spec_unhex(s.subrange(i, i + w)) as u64, i + w))
    } else {
        None
    }
}

/// Read a fixed-width hexadecimal field at `at`.
pub fn read_hex(s: &str, at: usize, w: usize) -> (r: Option<u64>)
    requires
        at + w <= s@.len(),
        s@.len() <= usize::MAX,
        w <= 16,
    ensures
        match r {
            Some(x) => st_hex(s@, at as int, w as int) == Some((x, at as int + w as int)),
            None => st_hex(s@, at as int, w as int) is None,
        },
{
    let ghost sub = s@.subrange(at as int, at as int + w as int);
    let mut acc: u64 = 0;
    let mut j: usize = 0;
    proof {
        lemma_pow16_16();
        assert(sub.subrange(0, 0) =~= Seq::<char>::empty());
    }
    while j < w
        invariant
            at + w <= s@.len(),
            s@.len() <= usize::MAX,
            w <= 16,
            j <= w,
            sub == s@.subrange(at as int, at as int + w as int),
            all_hex(sub.subrange(0, j as int)),
            acc == spec_unhex(sub.subrange(0, j as int)),
            acc < pow16(j as nat),
            pow16(16) == 0x1_0000_0000_0000_0000,
            pow16(2) == 0x100,
        decreases w - j,
    {
        let c = s.get_char(at + j);
        proof {
            assert(sub[j as int] == s@[at + j]);
        }
        match hex_digit_val(c) {
            Some(d) => {
                proof {
                    assert(sub.subrange(0, j + 1).drop_last() =~= sub.subrange(0, j as int));
                    assert(sub.subrange(0, j + 1).last() == sub[j as int]);
                    assert(acc * 16 + d < 16 * pow16(j as nat)) by (nonlinear_arith)
                        requires acc < pow16(j as nat), d < 16
                    ;
                    lemma_pow16_monotone(j as nat + 1, 16);
                    assert(all_hex(sub.subrange(0, j + 1))) by {
                        assert forall|k: int| 0 <= k < j + 1 implies (#[trigger] spec_hex_val(
                            sub.subrange(0, j + 1)[k],
                        )) is Some by {
                            if k < j {
                                assert(sub.subrange(0, j + 1)[k] == sub.subrange(0, j as int)[k]);
                            } else {
                                assert(sub.subrange(0, j + 1)[k] == sub[j as int]);
                            }
                        }
                    }
                }
                acc = acc * 16 + d as u64;
                j = j + 1;
            },
            None => {
                proof {
                    assert(!all_hex(sub));
                }
                return None;
            },
        }
    }
    proof {
        assert(sub.subrange(0, w as int) =~= sub);
    }
    Some(acc)
}

/// Smaller widths cover smaller ranges.
proof fn lemma_pow16_monotone(a: nat, b: nat)
    requires
        a <= b,
    ensures
        pow16(a) <= pow16(b),
    decreases b,
{
    if a < b {
        lemma_pow16_monotone(a, (b - 1) as nat);
        assert(pow16((b - 1) as nat) <= 16 * pow16((b - 1) as nat)) by (nonlinear_arith)
            requires pow16((b - 1) as nat) >= 0
        ;
    }
}

/// Parsing a hexadecimal field printed inside a larger text yields the
/// value back and stops right after it.
pub proof fn lemma_rt_hex(s: Seq<char>, i: int, x: u64, w: int)
    requires
        0 <= i,
        0 <= w <= 16,
        x < pow16(w as nat),
        i + w <= s.len(),
        s.subrange(i, i + w) == spec_hex(x as nat, w as nat),
    ensures
        st_hex(s, i, w) == Some((x, i + w)),
{
    lemma_hex_round_trip(x as nat, w as nat);
}

/// A field of hexadecimal digits is exactly the printed form of its own
/// value: parsing and re-printing gives the field back.
pub proof fn lemma_unhex_sound(s: Seq<char>)
    requires
        all_hex(s),
    ensures
        spec_hex(spec_unhex(s), s.len()) == s,
    decreases s.len(),
{
    if s.len() == 0 {
        assert(spec_hex(spec_unhex(s), 0) =~= s);
    } else {
        let front = s.drop_last();
        let c = s.last();
        let v = spec_hex_val(c).unwrap_or(0u8);
        assert(all_hex(front)) by {
            assert forall|i: int| 0 <= i < front.len() implies (#[trigger] spec_hex_val(
                front[i],
            )) is Some by {
                assert(front[i] == s[i]);
            }
        }
        lemma_unhex_sound(front);
        let x = spec_unhex(s);
        assert(x == spec_unhex(front) * 16 + v);
        assert(x / 16 == spec_unhex(front) && x % 16 == v) by (nonlinear_arith)
            requires x == spec_unhex(front) * 16 + v, 0 <= v < 16, spec_unhex(front) >= 0
        ;
        assert(spec_hex_char((x % 16) as u8) == c);
        assert(spec_hex(x, s.len()) =~= s);
    }
}

/// What the fixed-width parser accepts is exactly a printed field: a
/// parsed value re-prints to the very characters it was read from.
pub proof fn lemma_sound_hex(s: Seq<char>, i: int, w: int, x: u64, j: int)
    requires
        st_hex(s, i, w) == Some((x, j)),
        0 <= w <= 16,
    ensures
        0 <= i,
        j == i + w,
        j <= s.len(),
        x < pow16(w as nat),
        s.subrange(i, j) == spec_hex(x as nat, w as nat),
{
    let sub = s.subrange(i, i + w);
    lemma_unhex_bound(sub);
    lemma_pow16_monotone(w as nat, 16);
    lemma_pow16_16();
    lemma_unhex_sound(sub);
}

} // verus!
