//! Colours by their names, and numbers by their words.
use vstd::prelude::*;

use vstd::arithmetic::div_mod::lemma_fundamental_div_mod;
use vstd::arithmetic::power2::{lemma_pow2_pos, pow2};

use crate::color::{banner_color, color_value, ink_on, line_color, palette, trail_color, Rgb};
use crate::num::Num;
use crate::text::{dec, is_digit, is_space, printing_can_be_read_back, trimmed};

verus! {

/// The character of a hexadecimal digit, small or capital.
pub open spec fn hex_char(d: int, capital: bool) -> char {
    (if d < 10 {
        48 + d
    } else if capital {
        55 + d
    } else {
        87 + d
    }) as char
}

/// A number sign and six hexadecimal digits name a colour: two for red, two for green, two
/// for blue, the higher digit first, in small letters or capitals.
pub proof fn six_digits_name_red_green_and_blue(
    d0: int,
    d1: int,
    d2: int,
    d3: int,
    d4: int,
    d5: int,
    capital: bool,
    s: Seq<char>,
)
    requires
        0 <= d0 < 16 && 0 <= d1 < 16 && 0 <= d2 < 16 && 0 <= d3 < 16 && 0 <= d4 < 16 && 0 <= d5 < 16,
        s == seq![
            '#',
            hex_char(d0, capital),
            hex_char(d1, capital),
            hex_char(d2, capital),
            hex_char(d3, capital),
            hex_char(d4, capital),
            hex_char(d5, capital),
        ],
    ensures
        color_value(s) is Some,
        color_value(s)->0.r == 16 * d0 + d1,
        color_value(s)->0.g == 16 * d2 + d3,
        color_value(s)->0.b == 16 * d4 + d5,
        trail_color(s) == color_value(s)->0,
        banner_color(s) == color_value(s)->0,
{
    assert(!is_space(s[0]));
    assert(!is_space(s.last()));
    assert(trimmed(s) == s);
    assert(s.drop_first().len() == 6);
}

/// A number sign in front of fewer or more than six characters names none.
pub proof fn other_lengths_name_no_color(s: Seq<char>)
    requires
        s.len() > 0,
        s[0] == '#',
        s.len() != 7,
        !is_space(s.last()),
    ensures
        color_value(s) is None,
        trail_color(s) == (Rgb { r: 200, g: 200, b: 200 }),
        banner_color(s) == (Rgb { r: 0x33, g: 0x44, b: 0x55 }),
{
    assert(trimmed(s) == s);
}

/// A capital C and a number name the colour of that number in the palette, which has ten.
pub proof fn numbers_name_the_palette(n: nat)
    requires
        n <= usize::MAX,
    ensures
        color_value(seq!['C'] + dec(n)) == Some(palette(n as int % 10)),
{
    let s = seq!['C'] + dec(n);
    printing_can_be_read_back(n);
    assert(s[1] == dec(n)[0]);
    assert(is_digit(s.last())) by {
        assert(s.last() == dec(n)[dec(n).len() - 1]);
    }
    assert(!is_space(s[0]));
    assert(!is_space(s.last()));
    assert(trimmed(s) == s);
    assert(s.drop_first() =~= dec(n));
    let max = usize::MAX as nat;
    assert(crate::text::unsigned_number(dec(n), max) == Ok::<nat, crate::text::NumberError>(n));
}

/// The ten colours of the palette.
pub proof fn the_palette_has_ten_colors()
    ensures
        palette(0) == (Rgb { r: 0x1f, g: 0x77, b: 0xb4 }),
        palette(1) == (Rgb { r: 0xff, g: 0x7f, b: 0x0e }),
        palette(2) == (Rgb { r: 0x2c, g: 0xa0, b: 0x2c }),
        palette(3) == (Rgb { r: 0xd6, g: 0x27, b: 0x28 }),
        palette(4) == (Rgb { r: 0x94, g: 0x67, b: 0xbd }),
        palette(5) == (Rgb { r: 0x8c, g: 0x56, b: 0x4b }),
        palette(6) == (Rgb { r: 0xe3, g: 0x77, b: 0xc2 }),
        palette(7) == (Rgb { r: 0x7f, g: 0x7f, b: 0x7f }),
        palette(8) == (Rgb { r: 0xbc, g: 0xbd, b: 0x22 }),
        palette(9) == (Rgb { r: 0x17, g: 0xbe, b: 0xcf }),
{
}

/// The single letters that name a colour.
pub proof fn letters_name_colors(c: char)
    requires
        !is_space(c),
    ensures
        ({
            let v = color_value(seq![c]);
            &&& c == 'k' ==> v == Some(Rgb { r: 20, g: 20, b: 20 })
            &&& c == 'w' ==> v == Some(Rgb { r: 255, g: 255, b: 255 })
            &&& c == 'r' ==> v == Some(Rgb { r: 0xd6, g: 0x27, b: 0x28 })
            &&& c == 'g' ==> v == Some(Rgb { r: 0x2c, g: 0xa0, b: 0x2c })
            &&& c == 'b' ==> v == Some(Rgb { r: 0x1f, g: 0x77, b: 0xb4 })
            &&& c == 'c' ==> v == Some(Rgb { r: 0x17, g: 0xbe, b: 0xcf })
            &&& c == 'm' ==> v == Some(Rgb { r: 0xe3, g: 0x77, b: 0xc2 })
            &&& c == 'y' ==> v == Some(Rgb { r: 0xbc, g: 0xbd, b: 0x22 })
            &&& c != 'k' && c != 'w' && c != 'r' && c != 'g' && c != 'b' && c != 'c' && c != 'm' && c
                != 'y' ==> v is None
        }),
{
    let s = seq![c];
    assert(trimmed(s) == s);
    reveal_strlit("k");
    reveal_strlit("w");
    reveal_strlit("r");
    reveal_strlit("g");
    reveal_strlit("b");
    reveal_strlit("c");
    reveal_strlit("m");
    reveal_strlit("y");
    assert("k"@ =~= seq!['k']);
    assert("w"@ =~= seq!['w']);
    assert("r"@ =~= seq!['r']);
    assert("g"@ =~= seq!['g']);
    assert("b"@ =~= seq!['b']);
    assert("c"@ =~= seq!['c']);
    assert("m"@ =~= seq!['m']);
    assert("y"@ =~= seq!['y']);
    assert(s[0] == c);
}

/// A line is painted as it asks; one that asks for nothing that is known takes the colour of
/// its place, and every tenth place has the same.
pub proof fn lines_take_the_color_of_their_place(spec: Seq<char>, i: int)
    ensures
        color_value(spec) is Some ==> line_color(spec, i) == color_value(spec)->0,
        color_value(spec) is None ==> line_color(spec, i + 10) == line_color(spec, i),
        color_value(spec) is None && 0 <= i < 10 ==> line_color(spec, i) == palette(i),
{
}

/// Text is dark on a light background and light on a dark one: what is dark enough for light
/// text stays so when it is made darker.
pub proof fn text_stands_out(a: Rgb, b: Rgb)
    ensures
        ink_on(a) == (Rgb { r: 20, g: 20, b: 20 }) || ink_on(a) == (Rgb { r: 255, g: 255, b: 255 }),
        ink_on(Rgb { r: 255, g: 255, b: 255 }) == (Rgb { r: 20, g: 20, b: 20 }),
        ink_on(Rgb { r: 0, g: 0, b: 0 }) == (Rgb { r: 255, g: 255, b: 255 }),
        b.r <= a.r && b.g <= a.g && b.b <= a.b && ink_on(a) == (Rgb { r: 255, g: 255, b: 255 })
            ==> ink_on(b) == (Rgb { r: 255, g: 255, b: 255 }),
        ink_on(a) == (Rgb { r: 20, g: 20, b: 20 }) <==> a.r + a.g + a.b > 380,
{
}

// ---------------------------------------------------------------- numbers

/// The whole part of a number is the largest whole number that it reaches.
pub proof fn whole_parts_are_reached(v: Num)
    requires
        v.unit() < 0,
    ensures
        v.whole() * pow2((-v.unit()) as nat) <= v.significand(),
        v.significand() < (v.whole() + 1) * pow2((-v.unit()) as nat),
{
    let p = pow2((-v.unit()) as nat) as int;
    lemma_pow2_pos((-v.unit()) as nat);
    let m = v.significand() as int;
    lemma_fundamental_div_mod(m, p);
    assert((m / p) * p <= m && m < (m / p + 1) * p) by (nonlinear_arith)
        requires
            m == p * (m / p) + m % p,
            0 <= m % p < p,
    ;
}

/// The nearest whole number is no more than one half away, and a half goes up.
pub proof fn nearest_numbers_are_half_away(v: Num)
    requires
        v.unit() < 0,
    ensures
        ({
            let p = pow2((-v.unit()) as nat);
            let m = v.significand();
            &&& 2 * v.nearest() * p <= 2 * m + p
            &&& 2 * m + p < 2 * v.nearest() * p + 2 * p
        }),
{
    let p = pow2((-v.unit()) as nat) as int;
    lemma_pow2_pos((-v.unit()) as nat);
    let m = 2 * v.significand() + p;
    let d = 2 * p;
    lemma_fundamental_div_mod(m, d);
    let q = m / d;
    assert(2 * q * p <= m && m < 2 * q * p + 2 * p) by (nonlinear_arith)
        requires
            m == d * q + m % d,
            0 <= m % d < d,
            d == 2 * p,
    ;
}

/// Rounding takes the sign along: a number and its negative round to a number and its
/// negative, up to the largest that fits.
pub proof fn rounding_keeps_the_sign(a: Num, b: Num)
    requires
        a.bits < 0x8000_0000_0000_0000,
        b.bits == a.bits + 0x8000_0000_0000_0000,
        !a.nan(),
        a.nearest() <= 0x7FFF_FFFF_FFFF_FFFF,
    ensures
        b.rounded() == -a.rounded(),
        a.rounded() == a.nearest(),
{
}

/// Of two numbers the one with the larger word is the larger where both are positive, and
/// the smaller where both are negative; no negative number is above a positive one, and no
/// comparison holds of what is not a number.
pub proof fn numbers_are_ordered_by_their_words(a: Num, b: Num)
    ensures
        a.bits <= 0x7FF0_0000_0000_0000 && b.bits <= 0x7FF0_0000_0000_0000 ==> (a.below(b) <==> a.bits
            < b.bits),
        0x8000_0000_0000_0000 <= a.bits <= 0xFFF0_0000_0000_0000 && 0x8000_0000_0000_0000 <= b.bits
            <= 0xFFF0_0000_0000_0000 ==> (a.below(b) <==> a.bits > b.bits),
        0x8000_0000_0000_0000 < a.bits <= 0xFFF0_0000_0000_0000 && b.bits <= 0x7FF0_0000_0000_0000
            ==> a.below(b) && !b.below(a),
        0x7FF0_0000_0000_0000 < a.bits < 0x8000_0000_0000_0000 || a.bits > 0xFFF0_0000_0000_0000
            ==> !a.below(b) && !b.below(a),
{
}

/// A number kept within bounds lies within them, and is itself where it did already.
pub proof fn numbers_are_kept_within_their_bounds(v: Num, lo: Num, hi: Num)
    requires
        !hi.below(lo),
        !lo.nan(),
        !hi.nan(),
    ensures
        !v.kept_within(lo, hi).below(lo),
        !hi.below(v.kept_within(lo, hi)),
        !v.below(lo) && !hi.below(v) ==> v.kept_within(lo, hi) == v,
        v.below(lo) ==> v.kept_within(lo, hi) == lo,
        hi.below(v) ==> v.kept_within(lo, hi) == hi,
{
}

} // verus!
