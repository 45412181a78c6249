//! Textual encodings used in guest-visible discovery strings: lower-case
//! hexadecimal with zero padding and plain decimal, both over ASCII bytes.

use vstd::prelude::*;

verus! {

/// ASCII byte for one hexadecimal digit (`0`-`9`, then `a`-`f`).
pub open spec fn hex_digit(v: nat) -> u8
    recommends
        v < 16,
{
    if v < 10 {
        (0x30 + v) as u8
    } else {
        (0x57 + v) as u8
    }
}

/// ASCII byte for one decimal digit.
pub open spec fn dec_digit(v: nat) -> u8
    recommends
        v < 10,
{
    (0x30 + v) as u8
}

/// Hexadecimal digits of `v`, most significant first, no padding.
pub open spec fn hex_digits(v: nat) -> Seq<u8>
    decreases v,
{
    if v < 16 {
        seq![hex_digit(v)]
    } else {
        hex_digits(v / 16).push(hex_digit(v % 16))
    }
}

/// Decimal digits of `v`, most significant first, no padding.
pub open spec fn dec_digits(v: nat) -> Seq<u8>
    decreases v,
{
    if v < 10 {
        seq![dec_digit(v)]
    } else {
        dec_digits(v / 10).push(dec_digit(v % 10))
    }
}

/// `v` in hexadecimal, left-padded with `0` bytes to at least `w` digits.
/// This is the shape `{:08x}` formatting gives a `u64` when `w` is 8.
pub open spec fn hex_padded(v: nat, w: nat) -> Seq<u8> {
    if hex_digits(v).len() >= w {
        hex_digits(v)
    } else {
        Seq::new((w - hex_digits(v).len()) as nat, |i: int| 0x30u8) + hex_digits(v)
    }
}

/// Hexadecimal digits lie between ASCII `0` and ASCII `f`.
pub proof fn lemma_hex_digits_printable(v: nat)
    ensures
        forall|i: int|
            0 <= i < hex_digits(v).len() ==> 0x30 <= #[trigger] hex_digits(v)[i] <= 0x66,
    decreases v,
{
    if v >= 16 {
        lemma_hex_digits_printable(v / 16);
        assert(hex_digits(v) == hex_digits(v / 16).push(hex_digit(v % 16)));
        assert forall|i: int| 0 <= i < hex_digits(v).len() implies 0x30 <= #[trigger] hex_digits(
            v,
        )[i] <= 0x66 by {
            if i < hex_digits(v / 16).len() {
                assert(hex_digits(v)[i] == hex_digits(v / 16)[i]);
            } else {
                assert(hex_digits(v)[i] == hex_digit(v % 16));
            }
        }
    }
}

/// Decimal digits are always ASCII `0`-`9`.
pub proof fn lemma_dec_digits_printable(v: nat)
    ensures
        forall|i: int|
            0 <= i < dec_digits(v).len() ==> 0x30 <= #[trigger] dec_digits(v)[i] <= 0x39,
    decreases v,
{
    if v >= 10 {
        lemma_dec_digits_printable(v / 10);
        assert(dec_digits(v) == dec_digits(v / 10).push(dec_digit(v % 10)));
        assert forall|i: int| 0 <= i < dec_digits(v).len() implies 0x30 <= #[trigger] dec_digits(
            v,
        )[i] <= 0x39 by {
            if i < dec_digits(v / 10).len() {
                assert(dec_digits(v)[i] == dec_digits(v / 10)[i]);
            } else {
                assert(dec_digits(v)[i] == dec_digit(v % 10));
            }
        }
    }
}

/// Two numbers with the same decimal digit string are the same number.
pub proof fn lemma_dec_digits_injective(a: nat, b: nat)
    requires
        dec_digits(a) == dec_digits(b),
    ensures
        a == b,
    decreases a,
{
    lemma_dec_digits_len_one(a);
    lemma_dec_digits_len_one(b);
    if a < 10 && b < 10 {
        assert(dec_digits(a)[0] == dec_digit(a));
        assert(dec_digits(b)[0] == dec_digit(b));
    } else if a >= 10 && b >= 10 {
        assert(dec_digits(a).last() == dec_digit(a % 10));
        assert(dec_digits(b).last() == dec_digit(b % 10));
        assert(dec_digits(a).drop_last() =~= dec_digits(a / 10));
        assert(dec_digits(b).drop_last() =~= dec_digits(b / 10));
        lemma_dec_digits_injective(a / 10, b / 10);
    }
}

proof fn lemma_dec_digits_len_one(v: nat)
    ensures
        dec_digits(v).len() == 1 <==> v < 10,
        dec_digits(v).len() >= 1,
    decreases v,
{
    if v >= 10 {
        lemma_dec_digits_len_one(v / 10);
    }
}

/// Numbers with the same hexadecimal digit string are the same number.
pub proof fn lemma_hex_digits_injective(a: nat, b: nat)
    requires
        hex_digits(a) == hex_digits(b),
    ensures
        a == b,
    decreases a,
{
    lemma_hex_digits_len_one(a);
    lemma_hex_digits_len_one(b);
    if a < 16 && b < 16 {
        assert(hex_digits(a)[0] == hex_digit(a));
        assert(hex_digits(b)[0] == hex_digit(b));
    } else if a >= 16 && b >= 16 {
        assert(hex_digits(a).last() == hex_digit(a % 16));
        assert(hex_digits(b).last() == hex_digit(b % 16));
        assert(hex_digits(a).drop_last() =~= hex_digits(a / 16));
        assert(hex_digits(b).drop_last() =~= hex_digits(b / 16));
        lemma_hex_digits_injective(a / 16, b / 16);
    }
}

proof fn lemma_hex_digits_len_one(v: nat)
    ensures
        hex_digits(v).len() == 1 <==> v < 16,
        hex_digits(v).len() >= 1,
    decreases v,
{
    if v >= 16 {
        lemma_hex_digits_len_one(v / 16);
    }
}

/// Equal zero-padded hexadecimal strings come from equal numbers.
pub proof fn lemma_hex_padded_injective(a: nat, b: nat, w: nat)
    requires
        hex_padded(a, w) == hex_padded(b, w),
    ensures
        a == b,
{
    lemma_hex_no_leading_zero(a);
    lemma_hex_no_leading_zero(b);
    let da = hex_digits(a);
    let db = hex_digits(b);
    if da.len() >= w && db.len() >= w {
        lemma_hex_digits_injective(a, b);
    } else if da.len() < w && db.len() < w {
        let pa = Seq::new((w - da.len()) as nat, |i: int| 0x30u8);
        let pb = Seq::new((w - db.len()) as nat, |i: int| 0x30u8);
        if da.len() == db.len() {
            assert(da =~= (pa + da).subrange(pa.len() as int, w as int));
            assert(db =~= (pb + db).subrange(pb.len() as int, w as int));
            lemma_hex_digits_injective(a, b);
        } else if da.len() < db.len() {
            // then db's first digit sits inside pa's zero padding, yet a
            // multi-digit string never begins with a zero
            assert((pb + db)[pb.len() as int] == db[0]);
            assert((pa + da)[pb.len() as int] == 0x30);
            assert(db.len() > 1);
        } else {
            assert((pa + da)[pa.len() as int] == da[0]);
            assert((pb + db)[pa.len() as int] == 0x30);
            assert(da.len() > 1);
        }
    } else if da.len() >= w {
        // hex_padded(b, w) has length w <= da.len() == hex_padded(a, w).len()
        lemma_hex_digits_len_one(a);
        lemma_hex_digits_len_one(b);
        let pb = Seq::new((w - db.len()) as nat, |i: int| 0x30u8);
        if da.len() > w {
            assert(hex_padded(a, w).len() != hex_padded(b, w).len());
        } else {
            assert(da =~= (pb + db).subrange(pb.len() as int, w as int).insert(
                0,
                (pb + db)[0],
            )) by {
                assert(da.len() == w && db.len() < w);
            }
            assert(false) by {
                lemma_padded_mismatch(a, b, w);
            }
        }
    } else {
        assert(false) by {
            lemma_padded_mismatch(b, a, w);
        }
    }
}

/// A multi-digit hexadecimal string never starts with the `0` byte.
proof fn lemma_hex_no_leading_zero(v: nat)
    ensures
        hex_digits(v).len() > 1 ==> hex_digits(v)[0] != 0x30,
        hex_digits(v)[0] == hex_digit(v) || hex_digits(v)[0] == hex_digits(v / 16)[0],
    decreases v,
{
    if v >= 16 {
        lemma_hex_no_leading_zero(v / 16);
        lemma_hex_digits_len_one(v / 16);
        assert(hex_digits(v)[0] == hex_digits(v / 16)[0]);
        if hex_digits(v / 16).len() == 1 {
            assert(hex_digits(v / 16)[0] == hex_digit(v / 16));
            assert(v / 16 >= 1);
        }
    }
}

proof fn lemma_padded_mismatch(a: nat, b: nat, w: nat)
    requires
        hex_digits(a).len() >= w,
        hex_digits(b).len() < w,
    ensures
        hex_padded(a, w) != hex_padded(b, w),
{
    lemma_hex_no_leading_zero(a);
    lemma_hex_digits_len_one(a);
    lemma_hex_digits_len_one(b);
    let da = hex_digits(a);
    let db = hex_digits(b);
    let pb = Seq::new((w - db.len()) as nat, |i: int| 0x30u8);
    if da.len() == w {
        // the padded forms have equal length; compare the leading byte
        assert(w > db.len() >= 1);
        assert((pb + db)[0] == 0x30);
        if da.len() > 1 {
            assert(da[0] != 0x30);
        } else {
            assert(db.len() < w == 1);
        }
    } else {
        assert(hex_padded(a, w).len() == da.len() > w == hex_padded(b, w).len());
    }
}

/// `v` in lower-case hexadecimal, zero-padded to at least eight digits.
pub fn hex_u64_padded8(v: u64) -> (r: Vec<u8>)
    ensures
        r@ == hex_padded(v as nat, 8),
{
    let mut out: Vec<u8> = Vec::new();
    let mut x: u64 = v;
    loop
        invariant_except_break
            hex_digits(v as nat) == hex_digits(x as nat) + out@,
        ensures
            out@ == hex_digits(v as nat),
        decreases x,
    {
        let ghost prev = out@;
        let d: u8 = (x % 16) as u8;
        let b: u8 = if d < 10 {
            0x30 + d
        } else {
            0x57 + d
        };
        assert(b == hex_digit((x as nat) % 16));
        out.insert(0, b);
        assert(out@ =~= seq![hex_digit((x as nat) % 16)] + prev);
        if x < 16 {
            assert(hex_digits(x as nat) == seq![hex_digit(x as nat)]);
            assert(hex_digits(v as nat) =~= hex_digits(x as nat).drop_last() + out@);
            assert(hex_digits(x as nat).drop_last() =~= Seq::<u8>::empty());
            assert(hex_digits(v as nat) =~= out@);
            break;
        }
        assert(hex_digits(x as nat) == hex_digits((x as nat) / 16).push(
            hex_digit((x as nat) % 16),
        ));
        assert(hex_digits((x as nat) / 16).push(hex_digit((x as nat) % 16)) + prev
            =~= hex_digits((x as nat) / 16) + out@);
        x = x / 16;
    }
    let ghost digits = hex_digits(v as nat);
    assert(out@ =~= Seq::new(0, |i: int| 0x30u8) + digits);
    while out.len() < 8
        invariant
            out@.len() >= digits.len(),
            out@ == Seq::new((out@.len() - digits.len()) as nat, |i: int| 0x30u8) + digits,
            out@.len() <= 8 || out@ == digits,
        decreases 8 - out@.len(),
    {
        let ghost prev = out@;
        out.insert(0, 0x30);
        assert(out@ =~= Seq::new((out@.len() - digits.len()) as nat, |i: int| 0x30u8) + digits);
    }
    assert(out@ =~= hex_padded(v as nat, 8));
    out
}

/// One decimal digit as a character.
pub open spec fn dec_char(v: nat) -> char
    recommends
        v < 10,
{
    if v == 0 {
        '0'
    } else if v == 1 {
        '1'
    } else if v == 2 {
        '2'
    } else if v == 3 {
        '3'
    } else if v == 4 {
        '4'
    } else if v == 5 {
        '5'
    } else if v == 6 {
        '6'
    } else if v == 7 {
        '7'
    } else if v == 8 {
        '8'
    } else {
        '9'
    }
}

/// Decimal digits of `v` as characters, most significant first.
pub open spec fn dec_chars(v: nat) -> Seq<char>
    decreases v,
{
    if v < 10 {
        seq![dec_char(v)]
    } else {
        dec_chars(v / 10).push(dec_char(v % 10))
    }
}

/// A signed value in decimal characters: a minus sign before the
/// magnitude when negative.
pub open spec fn signed_dec_chars(v: int) -> Seq<char> {
    if v < 0 {
        seq!['-'] + dec_chars((-v) as nat)
    } else {
        dec_chars(v as nat)
    }
}

fn digit_str(d: u32) -> (r: &'static str)
    requires
        d < 10,
    ensures
        r@ == seq![dec_char(d as nat)],
{
    proof {
        reveal_strlit("0");
        reveal_strlit("1");
        reveal_strlit("2");
        reveal_strlit("3");
        reveal_strlit("4");
        reveal_strlit("5");
        reveal_strlit("6");
        reveal_strlit("7");
        reveal_strlit("8");
        reveal_strlit("9");
    }
    let r = if d == 0 {
        "0"
    } else if d == 1 {
        "1"
    } else if d == 2 {
        "2"
    } else if d == 3 {
        "3"
    } else if d == 4 {
        "4"
    } else if d == 5 {
        "5"
    } else if d == 6 {
        "6"
    } else if d == 7 {
        "7"
    } else if d == 8 {
        "8"
    } else {
        "9"
    };
    assert(r@ =~= seq![dec_char(d as nat)]);
    r
}

/// `v` in decimal, as a string.
pub fn dec_u32_string(v: u32) -> (r: String)
    ensures
        r@ == dec_chars(v as nat),
    decreases v,
{
    if v < 10 {
        let r = digit_str(v).to_owned();
        assert(r@ =~= dec_chars(v as nat));
        r
    } else {
        let mut r = dec_u32_string(v / 10);
        r.append(digit_str(v % 10));
        assert(r@ =~= dec_chars(v as nat));
        r
    }
}

/// A signed value in decimal, as a string.
pub fn dec_i32_string(v: i32) -> (r: String)
    ensures
        r@ == signed_dec_chars(v as int),
{
    if v >= 0 {
        dec_u32_string(v as u32)
    } else {
        let mag: u32 = (-(v as i64)) as u32;
        let mut r = String::from_str("-");
        proof {
            reveal_strlit("-");
        }
        let digits = dec_u32_string(mag);
        r.append(digits.as_str());
        assert(r@ =~= signed_dec_chars(v as int));
        r
    }
}

/// `v` in decimal, no padding.
pub fn dec_u32(v: u32) -> (r: Vec<u8>)
    ensures
        r@ == dec_digits(v as nat),
{
    let mut out: Vec<u8> = Vec::new();
    let mut x: u32 = v;
    loop
        invariant_except_break
            dec_digits(v as nat) == dec_digits(x as nat) + out@,
        ensures
            out@ == dec_digits(v as nat),
        decreases x,
    {
        let ghost prev = out@;
        let d: u8 = (x % 10) as u8;
        out.insert(0, 0x30 + d);
        assert(out@ =~= seq![dec_digit((x as nat) % 10)] + prev);
        if x < 10 {
            assert(dec_digits(x as nat) == seq![dec_digit(x as nat)]);
            assert(dec_digits(x as nat).drop_last() =~= Seq::<u8>::empty());
            assert(dec_digits(v as nat) =~= out@);
            break;
        }
        assert(dec_digits(x as nat) == dec_digits((x as nat) / 10).push(
            dec_digit((x as nat) % 10),
        ));
        assert(dec_digits((x as nat) / 10).push(dec_digit((x as nat) % 10)) + prev
            =~= dec_digits((x as nat) / 10) + out@);
        x = x / 10;
    }
    assert(out@ == dec_digits(v as nat));
    out
}

} // verus!
