//! Fixed-width uppercase hexadecimal rendering, used for hash tokens and
//! trace identifiers.

use vstd::prelude::*;

verus! {

/// The uppercase hexadecimal digit for a value below 16.
pub open spec fn hex_digit(d: int) -> char {
    if d == 0 {
        '0'
    } else if d == 1 {
        '1'
    } else if d == 2 {
        '2'
    } else if d == 3 {
        '3'
    } else if d == 4 {
        '4'
    } else if d == 5 {
        '5'
    } else if d == 6 {
        '6'
    } else if d == 7 {
        '7'
    } else if d == 8 {
        '8'
    } else if d == 9 {
        '9'
    } else if d == 10 {
        'A'
    } else if d == 11 {
        'B'
    } else if d == 12 {
        'C'
    } else if d == 13 {
        'D'
    } else if d == 14 {
        'E'
    } else {
        'F'
    }
}

/// Sixteen to the power `e`.
pub open spec fn pow16(e: int) -> int
    decreases e,
{
    if e <= 0 {
        1
    } else {
        16 * pow16(e - 1)
    }
}

/// `v` written in base sixteen with exactly `width` uppercase digits,
/// most significant first.
pub open spec fn hex_chars(v: int, width: int) -> Seq<char> {
    Seq::new(width as nat, |k: int| hex_digit((v / pow16(width - 1 - k)) % 16))
}

fn hex_digit_str(d: u32) -> (r: &'static str)
    requires
        d < 16,
    ensures
        r@ == seq![hex_digit(d as int)],
{
    proof {
        reveal_strlit("0");
        reveal_strlit("1");
        reveal_strlit("2");
        reveal_strlit("3");
        reveal_strlit("4");
        reveal_strlit("5");
        reveal_strlit("6");
        reveal_strlit("7");
        reveal_strlit("8");
        reveal_strlit("9");
        reveal_strlit("A");
        reveal_strlit("B");
        reveal_strlit("C");
        reveal_strlit("D");
        reveal_strlit("E");
        reveal_strlit("F");
    }
    match d {
        0 => "0",
        1 => "1",
        2 => "2",
        3 => "3",
        4 => "4",
        5 => "5",
        6 => "6",
        7 => "7",
        8 => "8",
        9 => "9",
        10 => "A",
        11 => "B",
        12 => "C",
        13 => "D",
        14 => "E",
        _ => "F",
    }
}

/// Appends the eight-digit uppercase hexadecimal form of `v` to `out`.
pub fn append_hex8(out: &mut String, v: u32)
    ensures
        final(out)@ == old(out)@ + hex_chars(v as int, 8),
{
    let ghost base = out@;
    let mut p: u32 = 0x10000000;
    let mut j: usize = 0;
    proof {
        assert(pow16(7) == 0x10000000) by {
            reveal_with_fuel(pow16, 9);
        }
        assert(out@ =~= base + hex_chars(v as int, 8).take(0));
    }
    while j < 8
        invariant
            0 <= j <= 8,
            j < 8 ==> p as int == pow16(7 - j),
            out@ == base + hex_chars(v as int, 8).take(j as int),
        decreases 8 - j,
    {
        proof {
            assert(pow16(7 - j as int) >= 1) by {
                lemma_pow16_pos(7 - j as int);
            }
        }
        let d: u32 = (v / p) % 16;
        out.append(hex_digit_str(d));
        proof {
            assert(hex_chars(v as int, 8)[j as int] == hex_digit(d as int));
            assert(out@ =~= base + hex_chars(v as int, 8).take(j as int + 1));
            if j < 7 {
                assert(pow16(7 - (j as int + 1)) == pow16(7 - j as int) / 16) by {
                    assert(pow16(7 - j as int) == 16 * pow16(6 - j as int));
                    lemma_pow16_pos(6 - j as int);
                    assert((16 * pow16(6 - j as int)) / 16 == pow16(6 - j as int))
                        by (nonlinear_arith)
                        requires
                            pow16(6 - j as int) >= 1,
                    ;
                }
            }
        }
        p = p / 16;
        j = j + 1;
    }
    proof {
        assert(hex_chars(v as int, 8).take(8) =~= hex_chars(v as int, 8));
    }
}

/// Appends the sixteen-digit uppercase hexadecimal form of `v` to `out`.
pub fn append_hex16(out: &mut String, v: u64)
    ensures
        final(out)@ == old(out)@ + hex_chars(v as int, 16),
{
    let ghost base = out@;
    let mut p: u64 = 0x1000000000000000;
    let mut j: usize = 0;
    proof {
        assert(pow16(15) == 0x1000000000000000) by {
            reveal_with_fuel(pow16, 17);
        }
        assert(out@ =~= base + hex_chars(v as int, 16).take(0));
    }
    while j < 16
        invariant
            0 <= j <= 16,
            j < 16 ==> p as int == pow16(15 - j),
            out@ == base + hex_chars(v as int, 16).take(j as int),
        decreases 16 - j,
    {
        proof {
            assert(pow16(15 - j as int) >= 1) by {
                lemma_pow16_pos(15 - j as int);
            }
        }
        let d: u64 = (v / p) % 16;
        out.append(hex_digit_str(d as u32));
        proof {
            assert(hex_chars(v as int, 16)[j as int] == hex_digit(d as int));
            assert(out@ =~= base + hex_chars(v as int, 16).take(j as int + 1));
            if j < 15 {
                assert(pow16(15 - (j as int + 1)) == pow16(15 - j as int) / 16) by {
                    assert(pow16(15 - j as int) == 16 * pow16(14 - j as int));
                    lemma_pow16_pos(14 - j as int);
                    assert((16 * pow16(14 - j as int)) / 16 == pow16(14 - j as int))
                        by (nonlinear_arith)
                        requires
                            pow16(14 - j as int) >= 1,
                    ;
                }
            }
        }
        p = p / 16;
        j = j + 1;
    }
    proof {
        assert(hex_chars(v as int, 16).take(16) =~= hex_chars(v as int, 16));
    }
}

/// Powers of sixteen are positive.
pub proof fn lemma_pow16_pos(e: int)
    ensures
        pow16(e) >= 1,
    decreases e,
{
    if e > 0 {
        lemma_pow16_pos(e - 1);
    }
}

} // verus!
