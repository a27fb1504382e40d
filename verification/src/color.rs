//! Colours as four floats, and their hexadecimal form.

use crate::text::chars_of;
use crate::vertex::{ColorBits, F32Bits, F32_ONE};
use vstd::arithmetic::power2;
use vstd::prelude::*;
use vstd::string::*;

verus! {

/// A colour: red, green, blue and opacity, as bits of floats.
#[derive(Clone, Copy, Debug, PartialEq, Eq, Structural)]
pub struct Color {
    pub r: F32Bits,
    pub g: F32Bits,
    pub b: F32Bits,
    pub a: F32Bits,
}

/// Whether `bits` are those of the float nearest to `n / 255`. A float from
/// 2^-8 on with 24 significant bits `m` has the value `m / 2^s`.
pub open spec fn is_unit_bits(n: u8, bits: F32Bits) -> bool {
    if n == 0 {
        bits == 0
    } else {
        exists|s: nat, m: int| #[trigger] is_nearest(n as int, s, m) && bits == float_bits(s, m)
    }
}

/// Whether `m / 2^s` has 24 significant bits and is nearer to `n / 255` than
/// half a unit of its last bit.
pub open spec fn is_nearest(n: int, s: nat, m: int) -> bool {
    &&& 23 <= s <= 31
    &&& 0x80_0000 <= m < 0x100_0000
    &&& -127 <= m * 255 - n * power2::pow2(s) <= 127
}

/// The bits of the float `m / 2^s`.
pub open spec fn float_bits(s: nat, m: int) -> int {
    (150 - s) * 0x80_0000 + (m - 0x80_0000)
}

/// The bits of the float nearest to `n / 255`.
pub open spec fn unit(n: u8) -> F32Bits {
    choose|bits: F32Bits| is_unit_bits(n, bits)
}

/// Where `m / 2^s` is nearest to `n / 255`, `n * 2^s` is a multiple of 2^23, from
/// 255 up to 509 times.
proof fn lemma_scale(n: int, s: nat, m: int) -> (k: int)
    requires
        is_nearest(n, s, m),
    ensures
        k == n * power2::pow2((s - 23) as nat),
        n * power2::pow2(s) == k * 0x80_0000,
        255 <= k < 510,
{
    power2::lemma2_to64();
    power2::lemma_pow2_adds(23, (s - 23) as nat);
    let k = n * power2::pow2((s - 23) as nat);
    assert(n * (0x80_0000 * power2::pow2((s - 23) as nat)) == 0x80_0000 * (n * power2::pow2(
        (s - 23) as nat,
    ))) by (nonlinear_arith);
    k
}

proof fn lemma_unit_at(n: u8, s: nat, x: int)
    requires
        n > 0,
        23 <= s <= 31,
        x == n * power2::pow2(s),
        255 * 0x80_0000 <= x <= 509 * 0x80_0000,
    ensures
        is_unit_bits(n, unit(n)),
{
    let m = (x + 127) / 255;
    assert(is_nearest(n as int, s, m));
    let bits = float_bits(s, m) as F32Bits;
    assert(is_unit_bits(n, bits));
}

/// Law: some float is the nearest to `n / 255`.
pub proof fn lemma_unit_exists(n: u8)
    ensures
        is_unit_bits(n, unit(n)),
{
    if n == 0 {
        assert(is_unit_bits(n, 0));
    } else {
        power2::lemma2_to64();
        if n >= 255 {
            lemma_unit_at(n, 23, n * 0x800000);
        } else if n >= 128 {
            lemma_unit_at(n, 24, n * 0x1000000);
        } else if n >= 64 {
            lemma_unit_at(n, 25, n * 0x2000000);
        } else if n >= 32 {
            lemma_unit_at(n, 26, n * 0x4000000);
        } else if n >= 16 {
            lemma_unit_at(n, 27, n * 0x8000000);
        } else if n >= 8 {
            lemma_unit_at(n, 28, n * 0x10000000);
        } else if n >= 4 {
            lemma_unit_at(n, 29, n * 0x20000000);
        } else if n >= 2 {
            lemma_unit_at(n, 30, n * 0x40000000);
        } else {
            lemma_unit_at(n, 31, n * 0x80000000);
        }
    }
}

/// Law: one float is the nearest to `n / 255`.
pub proof fn lemma_unit_is_one(n: u8, a: F32Bits, b: F32Bits)
    requires
        is_unit_bits(n, a),
        is_unit_bits(n, b),
    ensures
        a == b,
        a == unit(n),
{
    lemma_same_unit(n, a, b);
    lemma_same_unit(n, a, unit(n));
}

proof fn lemma_same_unit(n: u8, a: F32Bits, b: F32Bits)
    requires
        is_unit_bits(n, a),
        is_unit_bits(n, b),
    ensures
        a == b,
{
    if n != 0 {
        let (s, m) = choose|s: nat, m: int| #[trigger]
            is_nearest(n as int, s, m) && a == float_bits(s, m);
        let (t, l) = choose|s: nat, m: int| #[trigger]
            is_nearest(n as int, s, m) && b == float_bits(s, m);
        lemma_scale(n as int, s, m);
        lemma_scale(n as int, t, l);
        if s < t {
            lemma_scales_double(n as int, s, t);
        } else if t < s {
            lemma_scales_double(n as int, t, s);
        }
    }
}

proof fn lemma_scales_double(n: int, s: nat, t: nat)
    requires
        0 <= n,
        23 <= s < t,
    ensures
        n * power2::pow2((t - 23) as nat) >= 2 * (n * power2::pow2((s - 23) as nat)),
{
    let p = power2::pow2((s - 23) as nat);
    let q = power2::pow2((t - s) as nat);
    power2::lemma_pow2_adds((s - 23) as nat, (t - s) as nat);
    power2::lemma_pow2_unfold((t - s) as nat);
    power2::lemma_pow2_pos((t - s - 1) as nat);
    assert(n * (p * q) >= 2 * (n * p)) by (nonlinear_arith)
        requires
            0 <= n,
            0 <= p,
            q >= 2,
    ;
}

/// The bits of the float nearest to `n / 255`.
pub fn unit_bits(n: u8) -> (r: F32Bits)
    ensures
        r == unit(n),
        is_unit_bits(n, r),
{
    let r = nearest_unit(n);
    proof {
        lemma_unit_is_one(n, r, r);
    }
    r
}

fn nearest_unit(n: u8) -> (r: F32Bits)
    ensures
        is_unit_bits(n, r),
{
    if n == 0 {
        return 0;
    }
    proof {
        power2::lemma2_to64();
    }
    let mut x: u64 = n as u64 * 0x80_0000;
    let mut s: u32 = 23;
    while x < 0x7f80_0000
        invariant
            1 <= n,
            23 <= s <= 31,
            x == n * power2::pow2(s as nat),
            x < 0xff00_0000,
            s > 23 ==> x >= power2::pow2(s as nat),
            power2::pow2(31) == 0x8000_0000,
        decreases 0xff00_0000 - x,
    {
        proof {
            power2::lemma_pow2_unfold((s + 1) as nat);
            if s == 31 {
                assert(x >= 0x8000_0000);
            }
            assert(n * (2 * power2::pow2(s as nat)) == 2 * (n * power2::pow2(s as nat)))
                by (nonlinear_arith);
            assert(n * power2::pow2((s + 1) as nat) >= power2::pow2((s + 1) as nat))
                by (nonlinear_arith)
                requires
                    n >= 1,
            ;
            assert(x >= 1) by {
                power2::lemma_pow2_pos(s as nat);
                assert(n * power2::pow2(s as nat) >= 1) by (nonlinear_arith)
                    requires
                        n >= 1,
                        power2::pow2(s as nat) >= 1,
                ;
            }
        }
        x = 2 * x;
        s = s + 1;
    }
    let m: u64 = (x + 127) / 255;
    assert(-127 <= m * 255 - x <= 127);
    assert(m < 0x100_0000) by {
        if m >= 0x100_0000 {
            assert(x >= 0xff00_0000 - 127);
            lemma_gap(n as int, s as nat);
        }
    }
    assert(is_nearest(n as int, s as nat, m as int));
    (150 - s) * 0x80_0000 + (m as u32 - 0x80_0000)
}

/// A multiple of 2^23 that is below 255 * 2^24 is not just below it.
proof fn lemma_gap(n: int, s: nat)
    requires
        23 <= s <= 31,
        n * power2::pow2(s) < 0xff00_0000,
    ensures
        n * power2::pow2(s) <= 0xff00_0000 - 0x80_0000,
{
    power2::lemma2_to64();
    power2::lemma_pow2_adds(23, (s - 23) as nat);
    let k = n * power2::pow2((s - 23) as nat);
    assert(n * (0x80_0000 * power2::pow2((s - 23) as nat)) == 0x80_0000 * (n * power2::pow2(
        (s - 23) as nat,
    ))) by (nonlinear_arith);
    assert(k < 0x1fe);
}

impl Color {
    /// A colour from its four parts.
    pub fn new(r: F32Bits, g: F32Bits, b: F32Bits, a: F32Bits) -> (c: Color)
        ensures
            c == (Color { r, g, b, a }),
    {
        Color { r, g, b, a }
    }

    /// Whether a colour has the parts `r / 255` and so on.
    pub open spec fn is_u8(self, r: u8, g: u8, b: u8, a: u8) -> bool {
        is_unit_bits(r, self.r) && is_unit_bits(g, self.g) && is_unit_bits(b, self.b)
            && is_unit_bits(a, self.a)
    }

    /// The colour with the parts `r / 255` and so on.
    pub open spec fn of_u8(r: u8, g: u8, b: u8, a: u8) -> Color {
        Color { r: unit(r), g: unit(g), b: unit(b), a: unit(a) }
    }

    /// The colour with the parts `r / 255` and so on.
    pub fn from_u8(r: u8, g: u8, b: u8, a: u8) -> (c: Color)
        ensures
            c == Color::of_u8(r, g, b, a),
            c.is_u8(r, g, b, a),
    {
        Color { r: unit_bits(r), g: unit_bits(g), b: unit_bits(b), a: unit_bits(a) }
    }

    /// The same colour with another opacity.
    pub fn with_alpha(&self, a: F32Bits) -> (c: Color)
        ensures
            c == (Color { a, ..*self }),
    {
        Color { a, ..*self }
    }

    /// The same colour, invisible.
    pub fn transparent(&self) -> (c: Color)
        ensures
            c == (Color { a: 0, ..*self }),
    {
        Color { a: 0, ..*self }
    }

    /// The same colour, opaque.
    pub fn opaque(&self) -> (c: Color)
        ensures
            c == (Color { a: F32_ONE, ..*self }),
    {
        Color { a: F32_ONE, ..*self }
    }

    /// The four parts in order.
    pub fn bits(&self) -> (r: ColorBits)
        ensures
            r@ == seq![self.r, self.g, self.b, self.a],
    {
        let r = [self.r, self.g, self.b, self.a];
        assert(r@ =~= seq![self.r, self.g, self.b, self.a]);
        r
    }
}

impl Default for Color {
    fn default() -> (c: Color)
        ensures
            c == (Color { r: 0, g: 0, b: 0, a: 0 }),
    {
        Color { r: 0, g: 0, b: 0, a: 0 }
    }
}

// ---------------------------------------------------------------------------
// Hexadecimal form
// ---------------------------------------------------------------------------

/// The value of a hexadecimal digit.
pub open spec fn digit_value(c: char) -> Option<u8> {
    if '0' <= c <= '9' {
        Some((c as int - '0' as int) as u8)
    } else if 'a' <= c <= 'f' {
        Some((c as int - 'a' as int + 10) as u8)
    } else if 'A' <= c <= 'F' {
        Some((c as int - 'A' as int + 10) as u8)
    } else {
        None
    }
}

fn read_digit(c: char) -> (r: Option<u8>)
    ensures
        r == digit_value(c),
        r matches Some(d) ==> d < 16,
{
    if '0' <= c && c <= '9' {
        Some((c as u32 - '0' as u32) as u8)
    } else if 'a' <= c && c <= 'f' {
        Some((c as u32 - 'a' as u32 + 10) as u8)
    } else if 'A' <= c && c <= 'F' {
        Some((c as u32 - 'A' as u32 + 10) as u8)
    } else {
        None
    }
}

/// The value of one digit, which stands for both digits of a byte.
pub open spec fn short_byte(c: char) -> Option<u8> {
    match digit_value(c) {
        Some(d) => Some((d * 17) as u8),
        None => None,
    }
}

/// The value of two digits.
pub open spec fn long_byte(c: char, d: char) -> Option<u8> {
    match (digit_value(c), digit_value(d)) {
        (Some(high), Some(low)) => Some((high * 16 + low) as u8),
        _ => None,
    }
}

fn read_short(c: char) -> (r: Option<u8>)
    ensures
        r == short_byte(c),
{
    match read_digit(c) {
        Some(d) => Some(d * 17),
        None => None,
    }
}

fn read_long(c: char, d: char) -> (r: Option<u8>)
    ensures
        r == long_byte(c, d),
{
    match (read_digit(c), read_digit(d)) {
        (Some(high), Some(low)) => Some(high * 16 + low),
        _ => None,
    }
}

/// A text without number signs at its start.
pub open spec fn without_signs(s: Seq<char>) -> Seq<char>
    decreases s.len(),
{
    if s.len() > 0 && s[0] == '#' {
        without_signs(s.skip(1))
    } else {
        s
    }
}

/// Four bytes, if there are four.
pub open spec fn four(
    r: Option<u8>,
    g: Option<u8>,
    b: Option<u8>,
    a: Option<u8>,
) -> Option<(u8, u8, u8, u8)> {
    if r is Some && g is Some && b is Some && a is Some {
        Some((r->0, g->0, b->0, a->0))
    } else {
        None
    }
}

/// The four bytes of a colour in hexadecimal form: `#RGB`, `#RGBA`, `#RRGGBB`
/// or `#RRGGBBAA`.
pub open spec fn hex_bytes(text: Seq<char>) -> Option<(u8, u8, u8, u8)> {
    let s = without_signs(text);
    if s.len() == 3 {
        four(short_byte(s[0]), short_byte(s[1]), short_byte(s[2]), Some(255))
    } else if s.len() == 4 {
        four(short_byte(s[0]), short_byte(s[1]), short_byte(s[2]), short_byte(s[3]))
    } else if s.len() == 6 {
        four(long_byte(s[0], s[1]), long_byte(s[2], s[3]), long_byte(s[4], s[5]), Some(255))
    } else if s.len() == 8 {
        four(
            long_byte(s[0], s[1]),
            long_byte(s[2], s[3]),
            long_byte(s[4], s[5]),
            long_byte(s[6], s[7]),
        )
    } else {
        None
    }
}

fn collect(r: Option<u8>, g: Option<u8>, b: Option<u8>, a: Option<u8>) -> (c: Option<(
    u8,
    u8,
    u8,
    u8,
)>)
    ensures
        c == four(r, g, b, a),
{
    match (r, g, b, a) {
        (Some(r), Some(g), Some(b), Some(a)) => Some((r, g, b, a)),
        _ => None,
    }
}

/// Reads the four bytes of a colour in hexadecimal form.
pub fn parse_hex(hex: &str) -> (r: Option<(u8, u8, u8, u8)>)
    ensures
        r == hex_bytes(hex@),
{
    let c = chars_of(hex);
    let mut i: usize = 0;
    assert(hex@.skip(0) =~= hex@);
    while i < c.len() && c[i] == '#'
        invariant
            i <= c.len(),
            c@ == hex@,
            without_signs(hex@.skip(i as int)) == without_signs(hex@),
        decreases c.len() - i,
    {
        assert(hex@.skip(i as int).skip(1) =~= hex@.skip(i + 1));
        i = i + 1;
    }
    let ghost s = hex@.skip(i as int);
    assert(without_signs(s) == s);
    match c.len() - i {
        3 => collect(read_short(c[i]), read_short(c[i + 1]), read_short(c[i + 2]), Some(255)),
        4 => collect(
            read_short(c[i]),
            read_short(c[i + 1]),
            read_short(c[i + 2]),
            read_short(c[i + 3]),
        ),
        6 => collect(
            read_long(c[i], c[i + 1]),
            read_long(c[i + 2], c[i + 3]),
            read_long(c[i + 4], c[i + 5]),
            Some(255),
        ),
        8 => collect(
            read_long(c[i], c[i + 1]),
            read_long(c[i + 2], c[i + 3]),
            read_long(c[i + 4], c[i + 5]),
            read_long(c[i + 6], c[i + 7]),
        ),
        _ => None,
    }
}

impl Color {
    /// The colour with a hexadecimal form.
    pub open spec fn of_hex(text: Seq<char>) -> Option<Color> {
        match hex_bytes(text) {
            Some((r, g, b, a)) => Some(Color::of_u8(r, g, b, a)),
            None => None,
        }
    }

    /// The colour with a hexadecimal form.
    pub fn from_hex(hex: &str) -> (r: Option<Color>)
        ensures
            r == Color::of_hex(hex@),
            r matches Some(c) ==> (hex_bytes(hex@) matches Some((red, green, blue, opacity))
                && c.is_u8(red, green, blue, opacity)),
    {
        match parse_hex(hex) {
            Some((r, g, b, a)) => Some(Color::from_u8(r, g, b, a)),
            None => None,
        }
    }
}

/// Whether all characters are hexadecimal digits.
pub open spec fn all_hex(s: Seq<char>) -> bool {
    forall|i: int| 0 <= i < s.len() ==> digit_value(#[trigger] s[i]) is Some
}

/// A text with each character twice.
pub open spec fn doubled(s: Seq<char>) -> Seq<char> {
    Seq::new(2 * s.len(), |i: int| s[i / 2])
}

proof fn lemma_without_sign(s: Seq<char>)
    requires
        all_hex(s),
    ensures
        without_signs(s) == s,
        without_signs(seq!['#'] + s) == s,
{
    if s.len() > 0 {
        assert(digit_value(s[0]) is Some);
    }
    assert((seq!['#'] + s).skip(1) =~= s);
}

/// Law: three or four digits stand for each of them twice, six digits are opaque,
/// and the number sign may be left out.
pub proof fn lemma_hex_forms(s: Seq<char>)
    requires
        all_hex(s),
    ensures
        Color::of_hex(seq!['#'] + s) == Color::of_hex(s),
        Color::of_hex(s) is Some <==> (s.len() == 3 || s.len() == 4 || s.len() == 6 || s.len()
            == 8),
        s.len() == 3 || s.len() == 4 ==> Color::of_hex(seq!['#'] + s) == Color::of_hex(
            seq!['#'] + doubled(s),
        ),
        s.len() == 3 ==> Color::of_hex(seq!['#'] + s) == Color::of_hex(seq!['#'] + (s + seq!['F'])),
        s.len() == 6 ==> Color::of_hex(seq!['#'] + s) == Color::of_hex(
            seq!['#'] + (s + seq!['F', 'F']),
        ),
{
    let twice = doubled(s);
    assert forall|i: int| 0 <= i < twice.len() implies digit_value(#[trigger] twice[i]) is Some by {
        assert(twice[i] == s[i / 2]);
    }
    lemma_without_sign(s);
    lemma_without_sign(twice);
    lemma_without_sign(s + seq!['F']);
    lemma_without_sign(s + seq!['F', 'F']);
    if s.len() == 3 || s.len() == 4 {
        assert(forall|i: int| 0 <= i < s.len() ==> short_byte(s[i]) == long_byte(s[i], s[i]));
        assert(twice[0] == s[0] && twice[1] == s[0] && twice[2] == s[1] && twice[3] == s[1]);
        assert(twice[4] == s[2] && twice[5] == s[2]);
        if s.len() == 4 {
            assert(twice[6] == s[3] && twice[7] == s[3]);
        }
    }
}

/// Law: digits in upper and in lower case stand for the same.
pub proof fn lemma_hex_case(s: Seq<char>, t: Seq<char>)
    requires
        all_hex(s),
        s.len() == t.len(),
        forall|i: int| 0 <= i < s.len() ==> digit_value(#[trigger] s[i]) == digit_value(t[i]),
    ensures
        Color::of_hex(s) == Color::of_hex(t),
        Color::of_hex(seq!['#'] + s) == Color::of_hex(seq!['#'] + t),
{
    assert forall|i: int| 0 <= i < t.len() implies digit_value(#[trigger] t[i]) is Some by {
        assert(digit_value(s[i]) == digit_value(t[i]));
    }
    lemma_without_sign(s);
    lemma_without_sign(t);
}

/// The digit with a value below 16.
pub open spec fn hex_digit(d: int) -> char {
    if d < 10 {
        ('0' as int + d) as char
    } else {
        ('A' as int + (d - 10)) as char
    }
}

/// The two digits of a byte.
pub open spec fn byte_text(n: u8) -> Seq<char> {
    seq![hex_digit(n as int / 16), hex_digit(n as int % 16)]
}

/// Four bytes in hexadecimal form, `#RRGGBBAA`.
pub open spec fn hex_text(r: u8, g: u8, b: u8, a: u8) -> Seq<char> {
    seq!['#'] + byte_text(r) + byte_text(g) + byte_text(b) + byte_text(a)
}

fn push_digit(out: &mut String, d: u8)
    requires
        d < 16,
    ensures
        final(out)@ == old(out)@.push(hex_digit(d as int)),
{
    let c: char = match d {
        0 => '0',
        1 => '1',
        2 => '2',
        3 => '3',
        4 => '4',
        5 => '5',
        6 => '6',
        7 => '7',
        8 => '8',
        9 => '9',
        10 => 'A',
        11 => 'B',
        12 => 'C',
        13 => 'D',
        14 => 'E',
        _ => 'F',
    };
    out.push(c);
}

fn push_byte(out: &mut String, n: u8)
    ensures
        final(out)@ == old(out)@ + byte_text(n),
{
    let ghost before = out@;
    push_digit(out, n / 16);
    push_digit(out, n % 16);
    assert(out@ =~= before + byte_text(n));
}

/// Four bytes in hexadecimal form, `#RRGGBBAA`.
pub fn bytes_to_hex(r: u8, g: u8, b: u8, a: u8) -> (s: String)
    ensures
        s@ == hex_text(r, g, b, a),
{
    let mut s = String::new();
    s.push('#');
    push_byte(&mut s, r);
    push_byte(&mut s, g);
    push_byte(&mut s, b);
    push_byte(&mut s, a);
    assert(s@ =~= hex_text(r, g, b, a));
    s
}

proof fn lemma_digit_reads_back(d: int)
    requires
        0 <= d < 16,
    ensures
        digit_value(hex_digit(d)) == Some(d as u8),
        hex_digit(d) != '#',
{
}

/// Law: what is written in hexadecimal form reads back as the same bytes.
pub proof fn lemma_hex_reads_back(r: u8, g: u8, b: u8, a: u8)
    ensures
        hex_bytes(hex_text(r, g, b, a)) == Some((r, g, b, a)),
{
    let t = hex_text(r, g, b, a);
    let s = t.skip(1);
    lemma_digit_reads_back(r as int / 16);
    lemma_digit_reads_back(r as int % 16);
    lemma_digit_reads_back(g as int / 16);
    lemma_digit_reads_back(g as int % 16);
    lemma_digit_reads_back(b as int / 16);
    lemma_digit_reads_back(b as int % 16);
    lemma_digit_reads_back(a as int / 16);
    lemma_digit_reads_back(a as int % 16);
    assert(s =~= byte_text(r) + byte_text(g) + byte_text(b) + byte_text(a));
    assert(without_signs(s) == s);
    assert(without_signs(t) == s);
}

// ---------------------------------------------------------------------------
// From parts back to bytes
// ---------------------------------------------------------------------------

/// The multiple of `step` that is nearest to `p`; of two, the even one.
pub open spec fn nearest_multiple(p: int, step: int) -> int {
    let low = p / step;
    let rest = p % step;
    if 2 * rest < step || (2 * rest == step && low % 2 == 0) {
        low * step
    } else {
        (low + 1) * step
    }
}

/// 255 times a number of 24 bits, kept to 24 significant bits as a product of
/// floats is.
pub open spec fn times_255(m: int) -> int {
    let p = 255 * m;
    nearest_multiple(
        p,
        if p < 0x8000_0000 {
            128
        } else {
            256
        },
    )
}

/// The byte of a colour's part `x`: the product of floats `x * 255`, cut to a
/// whole number, and kept between 0 and 255. What is negative or no number gives
/// 0. From 1 on the product is at least 255, and below 2^-8 it is below 1. In
/// between, `x` is `m / 2^s` with 24 significant bits `m`.
pub open spec fn part_byte(x: F32Bits) -> u8 {
    if x > 0x7f80_0000 {
        0
    } else if x >= 0x3f80_0000 {
        255
    } else if x < 0x3b80_0000 {
        0
    } else {
        let m = 0x80_0000 + x as int % 0x80_0000;
        let s = 150 - x as int / 0x80_0000;
        (times_255(m) / power2::pow2(s as nat) as int) as u8
    }
}

/// The byte of a colour's part.
pub fn byte_of(x: F32Bits) -> (r: u8)
    ensures
        r == part_byte(x),
{
    if x > 0x7f80_0000 {
        return 0;
    }
    if x >= 0x3f80_0000 {
        return 255;
    }
    if x < 0x3b80_0000 {
        return 0;
    }
    let m: u64 = 0x80_0000 + x as u64 % 0x80_0000;
    let s: u32 = 150 - x / 0x80_0000;
    let p: u64 = 255 * m;
    let step: u64 = if p < 0x8000_0000 {
        128
    } else {
        256
    };
    let low: u64 = p / step;
    let rest: u64 = p % step;
    let kept: u64 = if 2 * rest < step || (2 * rest == step && low % 2 == 0) {
        low * step
    } else {
        (low + 1) * step
    };
    assert(kept == times_255(m as int));
    let mut whole: u64 = kept;
    let mut i: u32 = 0;
    proof {
        power2::lemma2_to64();
        assert(kept <= 255 * 0x100_0000);
    }
    while i < s
        invariant
            i <= s <= 31,
            whole == kept as int / power2::pow2(i as nat) as int,
            kept <= 255 * 0x100_0000,
        decreases s - i,
    {
        proof {
            power2::lemma_pow2_pos(i as nat);
            power2::lemma_pow2_unfold((i + 1) as nat);
            vstd::arithmetic::div_mod::lemma_div_denominator(
                kept as int,
                power2::pow2(i as nat) as int,
                2,
            );
            assert(power2::pow2(i as nat) as int * 2 == power2::pow2((i + 1) as nat) as int);
        }
        whole = whole / 2;
        i = i + 1;
    }
    proof {
        lemma_part_fits(kept as int, s as nat);
    }
    whole as u8
}

/// Fewer than 256 times 2^24, by at least 2^24, are at most 255.
proof fn lemma_part_fits(kept: int, s: nat)
    requires
        0 <= kept <= 255 * 0x100_0000,
        24 <= s <= 31,
    ensures
        0 <= kept / power2::pow2(s) as int <= 255,
{
    power2::lemma2_to64();
    power2::lemma_pow2_adds(24, (s - 24) as nat);
    power2::lemma_pow2_pos((s - 24) as nat);
    let d = power2::pow2(s) as int;
    assert(d >= 0x100_0000) by (nonlinear_arith)
        requires
            d == 0x100_0000 * power2::pow2((s - 24) as nat),
            power2::pow2((s - 24) as nat) >= 1,
    ;
    assert(0 <= kept / d <= 255) by (nonlinear_arith)
        requires
            0 <= kept <= 255 * 0x100_0000,
            d >= 0x100_0000,
    ;
}

/// Law: no byte is lost on the way to a colour's part and back.
pub proof fn lemma_byte_reads_back(n: u8)
    ensures
        part_byte(unit(n)) == n,
{
    lemma_unit_exists(n);
    let x = unit(n);
    if n != 0 {
        let (s, m) = choose|s: nat, m: int| #[trigger]
            is_nearest(n as int, s, m) && x == float_bits(s, m);
        let k = lemma_scale(n as int, s, m);
        power2::lemma2_to64();
        if s == 23 {
            assert(power2::pow2((s - 23) as nat) == 1);
            assert(k == n) by (nonlinear_arith)
                requires
                    k == n * power2::pow2((s - 23) as nat),
                    power2::pow2((s - 23) as nat) == 1,
            ;
            assert(m == 0x80_0000);
        } else {
            power2::lemma_pow2_unfold((s - 23) as nat);
            assert(k % 2 == 0) by {
                let h = power2::pow2((s - 24) as nat);
                assert(n * (2 * h) == 2 * (n * h)) by (nonlinear_arith);
            }
            assert(x as int / 0x80_0000 == 150 - s);
            assert(x as int % 0x80_0000 == m - 0x80_0000);
            assert(255 * m >= 0x8000_0000) by {
                if k == 256 {
                    assert(m == 8421505);
                }
            }
            assert(times_255(m) == k * 0x80_0000);
            let d = power2::pow2(s) as int;
            power2::lemma_pow2_pos(s);
            assert((n * d) / d == n) by (nonlinear_arith)
                requires
                    d > 0,
            ;
        }
    }
}

impl Color {
    /// The four parts as bytes.
    pub fn to_u8(&self) -> (r: [u8; 4])
        ensures
            r@ == seq![
                part_byte(self.r),
                part_byte(self.g),
                part_byte(self.b),
                part_byte(self.a),
            ],
    {
        let r = [byte_of(self.r), byte_of(self.g), byte_of(self.b), byte_of(self.a)];
        assert(r@ =~= seq![
            part_byte(self.r),
            part_byte(self.g),
            part_byte(self.b),
            part_byte(self.a),
        ]);
        r
    }

    /// The colour in hexadecimal form.
    pub open spec fn hex(self) -> Seq<char> {
        hex_text(part_byte(self.r), part_byte(self.g), part_byte(self.b), part_byte(self.a))
    }

    /// The colour in hexadecimal form, `#RRGGBBAA`.
    pub fn to_hex(&self) -> (s: String)
        ensures
            s@ == self.hex(),
    {
        bytes_to_hex(byte_of(self.r), byte_of(self.g), byte_of(self.b), byte_of(self.a))
    }
}

/// Law: a colour made of bytes is written with these bytes, and reads back as the
/// same colour.
pub proof fn lemma_color_reads_back(r: u8, g: u8, b: u8, a: u8)
    ensures
        Color::of_u8(r, g, b, a).hex() == hex_text(r, g, b, a),
        Color::of_hex(Color::of_u8(r, g, b, a).hex()) == Some(Color::of_u8(r, g, b, a)),
{
    lemma_byte_reads_back(r);
    lemma_byte_reads_back(g);
    lemma_byte_reads_back(b);
    lemma_byte_reads_back(a);
    lemma_hex_reads_back(r, g, b, a);
}

} // verus!
