use vstd::prelude::*;

verus! {

/// The ASCII code of the digit `d`.
pub open spec fn digit_byte(d: nat) -> u8 {
    (48 + d) as u8
}

/// The decimal representation of `n` in ASCII, without leading zeros.
pub open spec fn decimal(n: nat) -> Seq<u8>
    decreases n,
{
    if n < 10 {
        seq![digit_byte(n)]
    } else {
        decimal(n / 10).push(digit_byte(n % 10))
    }
}

/// The number that a string of ASCII decimal digits stands for.
pub open spec fn decimal_value(s: Seq<u8>) -> nat
    decreases s.len(),
{
    if s.len() == 0 {
        0
    } else {
        decimal_value(s.drop_last()) * 10 + (s.last() - 48) as nat
    }
}

/// One line of the plain PPM pixel list: the three channel values in
/// decimal, separated by spaces and ended by a newline.
pub open spec fn rgb_line(r: nat, g: nat, b: nat) -> Seq<u8> {
    decimal(r) + seq![32u8] + decimal(g) + seq![32u8] + decimal(b) + seq![10u8]
}

/// The header of a plain (`P3`) PPM image of `width` by `height` pixels
/// with channel values up to 255: `P3\n<width> <height>\n255\n`.
pub open spec fn ppm_header(width: nat, height: nat) -> Seq<u8> {
    seq![80u8, 51u8, 10u8] + decimal(width) + seq![32u8] + decimal(height) + seq![
        10u8,
        50u8,
        53u8,
        53u8,
        10u8,
    ]
}

/// Appends the decimal digits of `n` to `out`.
pub fn push_decimal(out: &mut Vec<u8>, n: u64)
    ensures
        final(out)@ == old(out)@ + decimal(n as nat),
    decreases n,
{
    if n >= 10 {
        push_decimal(out, n / 10);
    }
    let digit: u8 = (n % 10) as u8;
    out.push(48 + digit);
    proof {
        if n < 10 {
            assert(n % 10 == n);
        }
    }
    assert(final(out)@ =~= old(out)@ + decimal(n as nat)) by {
        if n >= 10 {
            assert(decimal(n as nat) == decimal((n / 10) as nat).push(digit_byte((n % 10) as nat)));
        }
    }
}

/// Appends the PPM pixel line of the channel values `r`, `g`, `b`.
pub fn push_rgb_line(out: &mut Vec<u8>, r: u64, g: u64, b: u64)
    ensures
        final(out)@ == old(out)@ + rgb_line(r as nat, g as nat, b as nat),
{
    push_decimal(out, r);
    out.push(32);
    push_decimal(out, g);
    out.push(32);
    push_decimal(out, b);
    out.push(10);
    assert(final(out)@ =~= old(out)@ + rgb_line(r as nat, g as nat, b as nat));
}

/// Appends the PPM header of a `width` by `height` image.
pub fn push_ppm_header(out: &mut Vec<u8>, width: u64, height: u64)
    ensures
        final(out)@ == old(out)@ + ppm_header(width as nat, height as nat),
{
    out.push(80);
    out.push(51);
    out.push(10);
    push_decimal(out, width);
    out.push(32);
    push_decimal(out, height);
    out.push(10);
    out.push(50);
    out.push(53);
    out.push(53);
    out.push(10);
    assert(final(out)@ =~= old(out)@ + ppm_header(width as nat, height as nat));
}

/// Law: the decimal text of `n` is a non-empty string of ASCII digits with
/// no leading zero (but for `0` itself), and it reads back as `n`.
pub proof fn lemma_decimal_round_trip(n: nat)
    ensures
        decimal(n).len() >= 1,
        forall|i: int| 0 <= i < decimal(n).len() ==> 48 <= #[trigger] decimal(n)[i] <= 57,
        n > 0 ==> decimal(n)[0] != 48,
        decimal_value(decimal(n)) == n,
    decreases n,
{
    if n < 10 {
        let s = decimal(n);
        assert(s.drop_last() =~= Seq::<u8>::empty());
        assert(s.last() == digit_byte(n));
        assert(decimal_value(s) == decimal_value(s.drop_last()) * 10 + (s.last() - 48) as nat);
    } else {
        lemma_decimal_round_trip(n / 10);
        let s = decimal(n);
        assert(s.drop_last() =~= decimal(n / 10));
        assert(s[0] == decimal(n / 10)[0]);
        assert(s.last() == digit_byte(n % 10));
        assert(decimal_value(s) == decimal_value(s.drop_last()) * 10 + (s.last() - 48) as nat);
        assert((n / 10) * 10 + n % 10 == n);
    }
}

/// `s` is an ASCII digit string.
pub open spec fn all_digits(s: Seq<u8>) -> bool {
    forall|i: int| 0 <= i < s.len() ==> 48 <= #[trigger] s[i] <= 57
}

/// `s` is two non-empty digit strings joined by one space, which read back
/// as `a` and `b` in that order.
pub open spec fn reads_as_pair(s: Seq<u8>, a: nat, b: nat) -> bool {
    exists|p: int|
        0 < p < s.len() - 1 && s[p] == 32u8 && #[trigger] all_digits(s.subrange(0, p))
            && all_digits(s.subrange(p + 1, s.len() as int)) && decimal_value(s.subrange(0, p))
            == a && decimal_value(s.subrange(p + 1, s.len() as int)) == b
}

/// Law: a pixel line is three non-empty digit strings separated by single
/// spaces and ended by a newline, which read back as `r`, `g` and `b` in
/// that order.
pub proof fn lemma_rgb_line_reads_back(r: nat, g: nat, b: nat)
    ensures
        ({
            let line = rgb_line(r, g, b);
            &&& line.len() >= 6
            &&& line.last() == 10u8
            &&& exists|p: int|
                0 < p < line.len() - 1 && line[p] == 32u8 && #[trigger] all_digits(
                    line.subrange(0, p),
                ) && decimal_value(line.subrange(0, p)) == r && reads_as_pair(
                    line.subrange(p + 1, line.len() - 1),
                    g,
                    b,
                )
        }),
{
    lemma_decimal_round_trip(r);
    lemma_decimal_round_trip(g);
    lemma_decimal_round_trip(b);
    let line = rgb_line(r, g, b);
    let dr = decimal(r);
    let dg = decimal(g);
    let db = decimal(b);
    let p = dr.len() as int;
    assert(line.subrange(0, p) =~= dr);
    let rest = line.subrange(p + 1, line.len() - 1);
    assert(rest =~= dg + seq![32u8] + db);
    let q = dg.len() as int;
    assert(rest.subrange(0, q) =~= dg);
    assert(rest.subrange(q + 1, rest.len() as int) =~= db);
    assert(all_digits(rest.subrange(0, q)));
    assert(reads_as_pair(rest, g, b));
    assert(all_digits(line.subrange(0, p)));
}

/// Law: a PPM header is `P3`, a newline, the width and the height as digit
/// strings joined by one space (reading back as width, then height), a
/// newline, and the maximum channel value `255` with a final newline.
pub proof fn lemma_ppm_header_reads_back(width: nat, height: nat)
    ensures
        ({
            let header = ppm_header(width, height);
            &&& header.len() >= 11
            &&& header.subrange(0, 3) == seq![80u8, 51u8, 10u8]
            &&& header.subrange(header.len() - 5, header.len() as int) == seq![
                10u8,
                50u8,
                53u8,
                53u8,
                10u8,
            ]
            &&& reads_as_pair(header.subrange(3, header.len() - 5), width, height)
        }),
{
    lemma_decimal_round_trip(width);
    lemma_decimal_round_trip(height);
    let header = ppm_header(width, height);
    let dw = decimal(width);
    let dh = decimal(height);
    assert(header.subrange(0, 3) =~= seq![80u8, 51u8, 10u8]);
    assert(header.subrange(header.len() - 5, header.len() as int) =~= seq![
        10u8,
        50u8,
        53u8,
        53u8,
        10u8,
    ]);
    let mid = header.subrange(3, header.len() - 5);
    assert(mid =~= dw + seq![32u8] + dh);
    let p = dw.len() as int;
    assert(mid.subrange(0, p) =~= dw);
    assert(mid.subrange(p + 1, mid.len() as int) =~= dh);
    assert(all_digits(mid.subrange(0, p)));
    assert(reads_as_pair(mid, width, height));
}

} // verus!
