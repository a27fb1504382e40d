//! What holds of keys, colours and texts: what is held, what is written and read,
//! and which line of a shader an error is about.

use vstd::prelude::*;
use vstd::string::*;
use crate::color;
use crate::color::{byte_of, parse_hex, Color};
use crate::decimal;
use crate::decimal::decimal_string;
use crate::input;
use crate::input::{map_key_event, map_modifiers, KeyEvent, LogicalKey, Modifiers};
use crate::pipeline::MaterialTarget;
use crate::shader;
use crate::shader::{
    default_geo_instance_vertex_wgsl, default_sdf_instance_vertex_wgsl, default_shape_vertex_wgsl,
    material_fragment_source, offset_naga_error,
    MATERIAL_INPUT_WGSL, SHAPE_FRAGMENT_MAIN_WGSL, SHAPE_FRAGMENT_SUPPORT_WGSL,
    TEXT_FRAGMENT_MAIN_WGSL, TEXT_FRAGMENT_SUPPORT_WGSL, TEXT_VERTEX_OUTPUT_WGSL,
};
use crate::text;
use crate::text::{
    count_line_feeds, find_from, find_line_end, parse_u32, replace_all, skip_space,
    skip_space_back,
};
use crate::vertex::{ColorBits, F32Bits};

verus! {

// ---------------------------------------------------------------------------
// Keys
// ---------------------------------------------------------------------------

/// Law: each single modifier key holds itself and no other, and none holds none.
pub proof fn lemma_single_modifiers(m: Modifiers, s: bool, c: bool, a: bool, u: bool)
    requires
        call_ensures(Modifiers::shift, (&m,), s),
        call_ensures(Modifiers::ctrl, (&m,), c),
        call_ensures(Modifiers::alt, (&m,), a),
        call_ensures(Modifiers::super_key, (&m,), u),
    ensures
        call_ensures(Modifiers::none, (), m) ==> !s && !c && !a && !u,
        call_ensures(Modifiers::shift_only, (), m) ==> s && !c && !a && !u,
        call_ensures(Modifiers::ctrl_only, (), m) ==> !s && c && !a && !u,
        call_ensures(Modifiers::alt_only, (), m) ==> !s && !c && a && !u,
        call_ensures(Modifiers::super_only, (), m) ==> !s && !c && !a && u,
{
    Modifiers::lemma_single_keys();
}

/// Law: the keys that are held are those that the windowing system says: bit 2 is
/// shift, bit 5 control, bit 8 alt and bit 11 super.
pub proof fn lemma_modifiers_are_those_held(
    state: u32,
    m: Modifiers,
    s: bool,
    c: bool,
    a: bool,
    u: bool,
)
    requires
        call_ensures(map_modifiers, (state,), m),
        call_ensures(Modifiers::shift, (&m,), s),
        call_ensures(Modifiers::ctrl, (&m,), c),
        call_ensures(Modifiers::alt, (&m,), a),
        call_ensures(Modifiers::super_key, (&m,), u),
    ensures
        s <==> state & 0x4 != 0,
        c <==> state & 0x20 != 0,
        a <==> state & 0x100 != 0,
        u <==> state & 0x800 != 0,
{
    input::lemma_modifier_bits(state);
}

/// Law: a key event has all that was said of the key, and there is none for a key
/// whose position is not known.
pub proof fn lemma_key_events_have_their_parts(
    key: Option<u32>,
    logical: LogicalKey,
    pressed: bool,
    typed: Option<String>,
    repeat: bool,
    r: Option<KeyEvent>,
)
    requires
        call_ensures(map_key_event, (key, logical, pressed, typed, repeat), r),
    ensures
        r is Some <==> key is Some,
        r is Some ==> r->0.key == key->0 && r->0.logical_key == logical && r->0.pressed == pressed
            && r->0.text == typed && r->0.repeat == repeat,
{
}

// ---------------------------------------------------------------------------
// Colours
// ---------------------------------------------------------------------------

/// Law: colours have the parts that they are given, in order; opacity is changed
/// alone.
pub proof fn lemma_colors_have_their_parts(
    red: F32Bits,
    green: F32Bits,
    blue: F32Bits,
    opacity: F32Bits,
    was: Color,
    c: Color,
    bits: ColorBits,
)
    ensures
        call_ensures(Color::new, (red, green, blue, opacity), c) ==> c.r == red && c.g == green
            && c.b == blue && c.a == opacity,
        call_ensures(Color::with_alpha, (&was, opacity), c) ==> c.a == opacity && c.r == was.r
            && c.g == was.g && c.b == was.b,
        call_ensures(Color::transparent, (&was,), c) ==> c.a == 0 && c.r == was.r && c.g == was.g
            && c.b == was.b,
        call_ensures(Color::opaque, (&was,), c) ==> c.a == 0x3f80_0000 && c.r == was.r && c.g
            == was.g && c.b == was.b,
        call_ensures(Color::bits, (&was,), bits) ==> bits@.len() == 4 && bits@[0] == was.r
            && bits@[1] == was.g && bits@[2] == was.b && bits@[3] == was.a,
{
}

/// Law: a colour that is made of bytes has these bytes.
pub proof fn lemma_bytes_of_color_read_back(r: u8, g: u8, b: u8, a: u8, c: Color, back: [u8; 4])
    requires
        call_ensures(Color::from_u8, (r, g, b, a), c),
        call_ensures(Color::to_u8, (&c,), back),
    ensures
        back@.len() == 4 && back@[0] == r && back@[1] == g && back@[2] == b && back@[3] == a,
{
    color::lemma_byte_reads_back(r);
    color::lemma_byte_reads_back(g);
    color::lemma_byte_reads_back(b);
    color::lemma_byte_reads_back(a);
}

/// Law: a colour that is made of bytes and written in hexadecimal form reads back
/// as the same colour, and so do the bytes.
pub proof fn lemma_written_color_reads_back(
    r: u8,
    g: u8,
    b: u8,
    a: u8,
    c: Color,
    hex: String,
    s: &str,
    back: Option<Color>,
    bytes: Option<(u8, u8, u8, u8)>,
)
    requires
        call_ensures(Color::from_u8, (r, g, b, a), c),
        call_ensures(Color::to_hex, (&c,), hex),
        s@ == hex@,
        call_ensures(Color::from_hex, (s,), back),
        call_ensures(parse_hex, (s,), bytes),
    ensures
        back == Some(c),
        bytes == Some((r, g, b, a)),
{
    color::lemma_color_reads_back(r, g, b, a);
    color::lemma_hex_reads_back(r, g, b, a);
}

/// Law: a part of one or more is the largest byte, one below zero or that is no
/// number is the least.
pub proof fn lemma_parts_are_clamped(x: F32Bits, r: u8)
    requires
        call_ensures(byte_of, (x,), r),
    ensures
        0x3f80_0000 <= x <= 0x7f80_0000 ==> r == 255,
        x > 0x7f80_0000 ==> r == 0,
        x == 0 ==> r == 0,
{
}

// ---------------------------------------------------------------------------
// Texts
// ---------------------------------------------------------------------------

/// Law: the white space that is skipped at the start is all of it and only that.
pub proof fn lemma_skipped_is_space(s: Seq<char>, i: int)
    ensures
        text::trimmed_start(s).len() <= s.len(),
        text::trimmed_start(s).len() > 0 ==> !text::is_space(text::trimmed_start(s)[0]),
        text::trimmed_start(s) == s.skip(s.len() - text::trimmed_start(s).len()),
        0 <= i < s.len() - text::trimmed_start(s).len() ==> text::is_space(s[i]),
    decreases s.len(),
{
    if s.len() > 0 && text::is_space(s[0]) {
        let rest = s.skip(1);
        lemma_skipped_is_space(rest, i - 1);
        let t = text::trimmed_start(rest);
        assert(rest.skip(rest.len() - t.len()) =~= s.skip(s.len() - t.len()));
    } else {
        assert(s.skip(0) =~= s);
    }
}

/// Law: the white space that is skipped at the end is all of it and only that.
pub proof fn lemma_skipped_back_is_space(s: Seq<char>, i: int)
    ensures
        text::trimmed_end(s).len() <= s.len(),
        text::trimmed_end(s).len() > 0 ==> !text::is_space(text::trimmed_end(s).last()),
        text::trimmed_end(s) == s.take(text::trimmed_end(s).len() as int),
        text::trimmed_end(s).len() <= i < s.len() ==> text::is_space(s[i]),
    decreases s.len(),
{
    if s.len() > 0 && text::is_space(s.last()) {
        let rest = s.drop_last();
        lemma_skipped_back_is_space(rest, i);
        let t = text::trimmed_end(rest);
        assert(rest.take(t.len() as int) =~= s.take(t.len() as int));
    } else {
        assert(s.take(s.len() as int) =~= s);
    }
}

/// Law: spaces, tabs and line ends are white space; what is printed is not.
pub proof fn lemma_what_is_space(c: char)
    ensures
        text::is_space(' ') && text::is_space('\t') && text::is_space('\n') && text::is_space('\r'),
        '!' <= c <= '~' ==> !text::is_space(c),
{
}

/// Law: what is found is the first place where the pattern stands.
pub proof fn lemma_found_is_first(s: Seq<char>, pat: Seq<char>, from: int, i: int)
    requires
        0 <= from,
        pat.len() > 0,
    ensures
        text::found_from(s, pat, from) matches Some(at) ==> from <= at && text::stands_at(
            s,
            pat,
            at,
        ),
        text::found_from(s, pat, from) matches Some(at) && from <= i < at ==> !text::stands_at(
            s,
            pat,
            i,
        ),
        text::found_from(s, pat, from) is None && from <= i ==> !text::stands_at(s, pat, i),
    decreases s.len() - from,
{
    if from < s.len() && from + pat.len() <= s.len() && !text::stands_at(s, pat, from) {
        lemma_found_is_first(s, pat, from + 1, i);
    }
}

/// Law: the end of a line is the next line feed, or the end of the text.
pub proof fn lemma_line_ends_at_next_feed(s: Seq<char>, from: int, i: int)
    requires
        0 <= from <= s.len(),
    ensures
        from <= text::line_end(s, from) <= s.len(),
        text::line_end(s, from) < s.len() ==> s[text::line_end(s, from)] == '\n',
        from <= i < text::line_end(s, from) ==> s[i] != '\n',
    decreases s.len() - from,
{
    if from < s.len() && s[from] != '\n' {
        lemma_line_ends_at_next_feed(s, from + 1, i);
    }
}

/// Law: a text is a line for each line feed, and one more if something stands
/// behind the last; a carriage return before a line feed does not count.
pub proof fn lemma_lines_end_at_feeds(s: Seq<char>, from: int, to: int)
    requires
        0 <= from <= to < s.len(),
        s[to] == '\n',
        forall|i: int| from <= i < to ==> s[i] != '\n',
    ensures
        ({
            let lines = text::lines_from(s, from);
            let raw = s.subrange(from, to);
            &&& lines.len() == 1 + text::lines_from(s, to + 1).len()
            &&& lines.skip(1) == text::lines_from(s, to + 1)
            &&& to > from && s[to - 1] == '\r' ==> lines[0] == s.subrange(from, to - 1)
            &&& to == from || s[to - 1] != '\r' ==> lines[0] == raw
        }),
        text::lines_from(s, s.len() as int).len() == 0,
{
    lemma_line_end_is(s, from, to);
    let raw = s.subrange(from, to);
    let rest = text::lines_from(s, to + 1);
    let lines = text::lines_from(s, from);
    assert(lines == seq![text::without_return(raw)] + rest);
    assert(lines.skip(1) =~= rest);
    if to > from {
        assert(raw.last() == s[to - 1]);
        assert(raw.drop_last() =~= s.subrange(from, to - 1));
    }
}

proof fn lemma_line_end_is(s: Seq<char>, from: int, to: int)
    requires
        0 <= from <= to < s.len(),
        s[to] == '\n',
        forall|i: int| from <= i < to ==> s[i] != '\n',
    ensures
        text::line_end(s, from) == to,
    decreases to - from,
{
    if from < to {
        lemma_line_end_is(s, from + 1, to);
    }
}

/// Law: the line feeds of two texts are those of the texts in a row, a text without
/// any has none, and one line feed is one.
pub proof fn lemma_feeds_add_up(a: Seq<char>, b: Seq<char>)
    ensures
        text::line_feeds(a + b) == text::line_feeds(a) + text::line_feeds(b),
        (forall|i: int| 0 <= i < a.len() ==> a[i] != '\n') ==> text::line_feeds(a) == 0,
        text::line_feeds(seq!['\n']) == 1,
        text::line_feeds(a.push('\n')) == text::line_feeds(a) + 1,
    decreases a.len() + b.len(),
{
    reveal_with_fuel(text::line_feeds, 2);
    assert(a.push('\n').drop_last() =~= a);
    assert(seq!['\n'].drop_last() =~= seq![]);
    if b.len() > 0 {
        lemma_feeds_add_up(a, b.drop_last());
        assert((a + b).drop_last() =~= a + b.drop_last());
    } else {
        assert(a + b =~= a);
        if a.len() > 0 {
            lemma_feeds_add_up(a.drop_last(), b);
        }
    }
}

/// Law: a number that was written is read back, with or without a plus sign; a text
/// with anything else in it, or with nothing, is no number.
pub proof fn lemma_number_reads_back(n: u32, s: Seq<char>)
    ensures
        text::parsed_u32(decimal::decimal_text(n as nat)) == Some(n),
        text::parsed_u32(seq!['+'] + decimal::decimal_text(n as nat)) == Some(n),
        s.len() == 0 ==> text::parsed_u32(s) is None,
        (exists|i: int|
            0 <= i < s.len() && !('0' <= #[trigger] s[i] <= '9') && !(i == 0 && s[i] == '+'))
            ==> text::parsed_u32(s) is None,
        s == seq!['+'] ==> text::parsed_u32(s) is None,
{
    let d = decimal::decimal_text(n as nat);
    decimal::lemma_decimal_reads_back(n as nat);
    assert((seq!['+'] + d).skip(1) =~= d);
    if exists|i: int|
        0 <= i < s.len() && !('0' <= #[trigger] s[i] <= '9') && !(i == 0 && s[i] == '+') {
        let i = choose|i: int|
            0 <= i < s.len() && !('0' <= #[trigger] s[i] <= '9') && !(i == 0 && s[i] == '+');
        if s[0] == '+' {
            assert(s.skip(1)[i - 1] == s[i]);
        }
    }
}

/// Law: the first place where a pattern stands is replaced, what is before it stays,
/// and the rest is done in the same way.
pub proof fn lemma_first_place_is_replaced(
    s: Seq<char>,
    pat: Seq<char>,
    by: Seq<char>,
    at: int,
)
    requires
        pat.len() > 0,
        text::stands_at(s, pat, at),
        forall|i: int| 0 <= i < at ==> !text::stands_at(s, pat, i),
    ensures
        text::replaced(s, pat, by) == s.take(at) + by + text::replaced(
            s.skip(at + pat.len()),
            pat,
            by,
        ),
    decreases at,
{
    if at == 0 {
        assert(s.take(0) + by =~= by);
    } else {
        let rest = s.skip(1);
        assert(!text::stands_at(s, pat, 0));
        assert(rest.subrange(at - 1, at - 1 + pat.len()) =~= s.subrange(at, at + pat.len()));
        assert forall|i: int| 0 <= i < at - 1 implies !text::stands_at(rest, pat, i) by {
            if text::stands_at(rest, pat, i) {
                assert(rest.subrange(i, i + pat.len()) =~= s.subrange(i + 1, i + 1 + pat.len()));
                assert(text::stands_at(s, pat, i + 1));
            }
        }
        lemma_first_place_is_replaced(rest, pat, by, at - 1);
        assert(rest.skip(at - 1 + pat.len()) =~= s.skip(at + pat.len()));
        assert(seq![s[0]] + (rest.take(at - 1) + by + text::replaced(
            s.skip(at + pat.len()),
            pat,
            by,
        )) =~= s.take(at) + by + text::replaced(s.skip(at + pat.len()), pat, by));
    }
}

/// Law: the helpers on texts do what these laws say.
pub proof fn lemma_helpers_do_as_said(
    chars: Vec<char>,
    pat: Vec<char>,
    from: usize,
    to: usize,
    i: int,
    first: usize,
    last: usize,
    found: Option<usize>,
    end: usize,
    n: Option<u32>,
)
    requires
        from <= to <= chars@.len(),
        pat@.len() > 0,
        call_ensures(skip_space, (&chars, from, to), first),
        call_ensures(skip_space_back, (&chars, from, to), last),
        call_ensures(find_from, (&chars, &pat, from), found),
        call_ensures(find_line_end, (&chars, from), end),
        call_ensures(parse_u32, (&chars, from, to), n),
    ensures
        first < to ==> !text::is_space(chars@[first as int]),
        from <= i < first ==> text::is_space(chars@[i]),
        from < last ==> !text::is_space(chars@[last - 1]),
        last <= i < to ==> text::is_space(chars@[i]),
        found is Some ==> found->0 >= from && text::stands_at(chars@, pat@, found->0 as int),
        found is Some && from <= i < found->0 ==> !text::stands_at(chars@, pat@, i),
        found is None && from <= i ==> !text::stands_at(chars@, pat@, i),
        end < chars@.len() ==> chars@[end as int] == '\n',
        from <= i < end ==> chars@[i] != '\n',
        from == to ==> n is None,
{
    let part = chars@.subrange(from as int, to as int);
    lemma_skipped_is_space(part, i - from);
    lemma_skipped_back_is_space(part, i - from);
    lemma_found_is_first(chars@, pat@, from as int, i);
    lemma_line_ends_at_next_feed(chars@, from as int, i);
    lemma_number_reads_back(0, part);
    let t = text::trimmed_start(part);
    assert(chars@.subrange(first as int, to as int) == t);
    assert(t.len() == to - first);
    if first < to {
        assert(t[0] == chars@[first as int]);
    }
    if from <= i < first {
        assert(part[i - from] == chars@[i]);
    }
    let e = text::trimmed_end(part);
    assert(chars@.subrange(from as int, last as int) == e);
    if from < last {
        assert(e.last() == chars@[last - 1]);
    }
    if last <= i < to {
        assert(part[i - from] == chars@[i]);
    }
}

/// Law: a number that is written in base ten reads back, whichever it is.
pub proof fn lemma_written_number_reads_back(
    n: u32,
    s: String,
    chars: Vec<char>,
    to: usize,
    r: Option<u32>,
)
    requires
        call_ensures(decimal_string, (n as u64,), s),
        chars@ == s@,
        to == chars@.len(),
        call_ensures(parse_u32, (&chars, 0, to), r),
    ensures
        r == Some(n),
{
    lemma_number_reads_back(n, s@);
    assert(chars@.subrange(0, to as int) =~= s@);
}

/// Law: replacing in a text replaces the first place where the pattern stands, and a
/// text without it stays.
pub proof fn lemma_replacing_replaces(s: &str, pat: &str, by: &str, r: String, at: int)
    requires
        pat@.len() > 0,
        call_ensures(replace_all, (s, pat, by), r),
        forall|i: int| 0 <= i < at ==> !text::stands_at(s@, pat@, i),
    ensures
        !text::holds(s@, pat@) ==> r@ == s@,
        text::stands_at(s@, pat@, at) ==> (s@.take(at) + by@).is_prefix_of(r@),
{
    if !text::holds(s@, pat@) {
        text::lemma_replaced_same(s@, pat@, by@);
    }
    if text::stands_at(s@, pat@, at) {
        lemma_first_place_is_replaced(s@, pat@, by@, at);
    }
}

/// Law: the line feeds that are counted are those of the text.
pub proof fn lemma_counted_feeds(s: &str, n: usize, m: usize, t: &str)
    requires
        call_ensures(count_line_feeds, (s,), n),
        call_ensures(count_line_feeds, (t,), m),
        t@ == s@.push('\n'),
    ensures
        m == n + 1,
{
    lemma_feeds_add_up(s@, seq![]);
}

// ---------------------------------------------------------------------------
// Shaders
// ---------------------------------------------------------------------------

/// Law: the first own line is line one, the next line of the own code has the next
/// number, and the last one the number of lines; lines before keep their number, and
/// behind the own code lines are counted from one again.
pub proof fn lemma_own_lines_count_from_one(n: int, start: int, len: int)
    requires
        0 < start,
        0 < len,
    ensures
        shader::own_line(start, start, len) == 1,
        shader::own_line(start + len - 1, start, len) == len,
        start <= n < start + len - 1 ==> shader::own_line(n + 1, start, len) == shader::own_line(
            n,
            start,
            len,
        ) + 1,
        n < start ==> shader::own_line(n, start, len) == n,
        shader::own_line(start + len, start, len) == 1,
        n >= start + len ==> shader::own_line(n + 1, start, len) == shader::own_line(n, start, len)
            + 1,
{
}

/// Law: a material's own code stands in its fragment stage behind what every
/// material of its target is given and before the entry point of its target, and
/// the line that is told is the one on which it starts.
pub proof fn lemma_own_code_starts_at_its_line(
    source: &str,
    target: MaterialTarget,
    ssaa: bool,
    r: (String, u32),
)
    requires
        call_ensures(material_fragment_source, (source, target, ssaa), r),
    ensures
        exists|from: int| #[trigger]
            text::stands_at(r.0@, source@, from) && r.1 == (text::line_feeds(r.0@.take(from))
                + 1) as u32 && ({
                let rest = r.0@.skip(from + source@.len());
                &&& rest.len() > 0
                &&& target == MaterialTarget::Shape ==> rest.skip(1) == SHAPE_FRAGMENT_MAIN_WGSL@
                &&& target == MaterialTarget::Text ==> rest.skip(1) == TEXT_FRAGMENT_MAIN_WGSL@
                &&& text::holds(r.0@.take(from), MATERIAL_INPUT_WGSL@)
                &&& target == MaterialTarget::Shape ==> text::holds(
                    r.0@.take(from),
                    SHAPE_FRAGMENT_SUPPORT_WGSL@,
                )
                &&& target == MaterialTarget::Text ==> text::holds(
                    r.0@.take(from),
                    TEXT_FRAGMENT_SUPPORT_WGSL@,
                )
            }),
{
    reveal_strlit("\n");
    let head = shader::preamble(target, ssaa);
    let main = shader::entry_point(target);
    let from = head.len() as int;
    let all = r.0@;
    assert(all == head + source@ + "\n"@ + main);
    assert(all.subrange(from, from + source@.len()) =~= source@);
    assert(text::stands_at(all, source@, from));
    assert(all.take(from) =~= head);
    let rest = all.skip(from + source@.len());
    assert(rest =~= "\n"@ + main);
    assert(rest.skip(1) =~= main);
    let given = MATERIAL_INPUT_WGSL@;
    if target == MaterialTarget::Shape {
        let output = if ssaa {
            shader::per_sample_position(shader::SHAPE_VERTEX_OUTPUT_WGSL@)
        } else {
            shader::SHAPE_VERTEX_OUTPUT_WGSL@
        };
        let support = SHAPE_FRAGMENT_SUPPORT_WGSL@;
        let a = output.len() as int + 1;
        let b = a + given.len() + 1;
        assert(head.subrange(a, a + given.len()) =~= given);
        assert(text::stands_at(head, given, a));
        assert(head.subrange(b, b + support.len()) =~= support);
        assert(text::stands_at(head, support, b));
    } else {
        let support = TEXT_FRAGMENT_SUPPORT_WGSL@;
        let a = TEXT_VERTEX_OUTPUT_WGSL@.len() as int + 1;
        let b = a + given.len() + 1;
        assert(head.subrange(a, a + given.len()) =~= given);
        assert(text::stands_at(head, given, a));
        assert(head.subrange(b, b + support.len()) =~= support);
        assert(text::stands_at(head, support, b));
    }
}

/// Law: without supersampling the vertex stage of instanced meshes is as it is
/// given; with it, no local position is interpolated per pixel any more.
pub proof fn lemma_instanced_mesh_stage(source: &str, ssaa: bool, r: String)
    requires
        call_ensures(default_geo_instance_vertex_wgsl, (source, ssaa), r),
    ensures
        !ssaa ==> r@ == source@,
        ssaa ==> !text::holds(r@, "@interpolate(linear) local_pos"@),
        ssaa && !text::holds(source@, "@interpolate(linear) local_pos"@) ==> r@ == source@,
{
    shader::lemma_interpolation_is_replaced(source@);
}

/// Law: the vertex stages of meshes and of instanced distance shapes are made in the
/// same way: with supersampling as they are given, without it so that nothing is
/// interpolated per sample.
pub proof fn lemma_mesh_stage(source: &str, ssaa: bool, mesh: String, sdf: String)
    requires
        call_ensures(default_shape_vertex_wgsl, (source, ssaa), mesh),
        call_ensures(default_sdf_instance_vertex_wgsl, (source, ssaa), sdf),
    ensures
        mesh@ == sdf@,
        ssaa ==> mesh@ == source@,
        !ssaa ==> !text::holds(mesh@, "@interpolate(linear, sample)"@),
        !ssaa && !text::holds(source@, "@interpolate(linear, sample)"@) ==> mesh@ == source@,
{
    shader::lemma_interpolation_is_replaced(source@);
}

proof fn lemma_no_bar_before(s: Seq<char>, i: int, at: int)
    requires
        0 <= i <= at < s.len(),
        s[at] == '│',
        forall|k: int| i <= k < at ==> s[k] != '│',
    ensures
        shader::bar_from(s, i) == at,
    decreases at - i,
{
    if i < at {
        lemma_no_bar_before(s, i + 1, at);
    }
}

proof fn lemma_spaces_are_trimmed(spaces: Seq<char>, s: Seq<char>)
    requires
        forall|i: int| 0 <= i < spaces.len() ==> text::is_space(#[trigger] spaces[i]),
        s.len() > 0,
        !text::is_space(s[0]),
    ensures
        text::trimmed_start(spaces + s) == s,
    decreases spaces.len(),
{
    if spaces.len() > 0 {
        let rest = spaces.skip(1);
        assert((spaces + s).skip(1) =~= rest + s);
        assert forall|i: int| 0 <= i < rest.len() implies text::is_space(#[trigger] rest[i]) by {
            assert(rest[i] == spaces[i + 1]);
        }
        assert(text::is_space(spaces[0]));
        lemma_spaces_are_trimmed(rest, s);
    } else {
        assert(spaces + s =~= s);
    }
}

/// Law: a line of an error that shows a numbered line of the shader shows, with the
/// same text, the number of the own line.
pub proof fn lemma_shown_line_is_own(
    spaces: Seq<char>,
    n: u32,
    shown: Seq<char>,
    start: int,
    len: int,
)
    requires
        forall|i: int| 0 <= i < spaces.len() ==> #[trigger] spaces[i] == ' ',
        0 < start,
        0 <= len,
    ensures
        ({
            let line = spaces + decimal::decimal_text(n as nat) + seq![' ', '│'] + shown;
            let own = decimal::decimal_text(shader::own_line(n as int, start, len) as nat);
            let r = shader::rewritten(line, start, len);
            &&& r.len() >= own.len() + 2 + shown.len()
            &&& (own + seq![' ', '│'] + shown).is_suffix_of(r)
            &&& text::trimmed_start(r) == own + seq![' ', '│'] + shown
        }),
{
    let d = decimal::decimal_text(n as nat);
    decimal::lemma_decimal_reads_back(n as nat);
    let t = d + seq![' ', '│'] + shown;
    let line = spaces + d + seq![' ', '│'] + shown;
    assert(line =~= spaces + t);
    assert forall|i: int| 0 <= i < spaces.len() implies text::is_space(#[trigger] spaces[i]) by {
        assert(spaces[i] == ' ');
    }
    assert(t[0] == d[0]);
    assert(!text::is_space(d[0]));
    lemma_spaces_are_trimmed(spaces, t);
    let bar = d.len() as int + 1;
    assert(t[bar] == '│');
    assert forall|k: int| 0 <= k < bar implies t[k] != '│' by {
        if k < d.len() {
            assert(t[k] == d[k]);
        }
    }
    lemma_no_bar_before(t, 0, bar);
    let before = t.take(bar);
    assert(before =~= d.push(' '));
    assert(before.drop_last() =~= d);
    assert(d.last() == d[d.len() - 1]);
    assert(!text::is_space(d.last()));
    reveal_with_fuel(text::trimmed_end, 2);
    assert(text::trimmed_end(before) == d);
    lemma_number_reads_back(n, d);
    let own_n = shader::own_line(n as int, start, len) as nat;
    let own = decimal::decimal_text(own_n);
    decimal::lemma_decimal_reads_back(own_n);
    lemma_padded_is_spaces(own);
    let p = shader::padded(own);
    let blank = p.take(p.len() - own.len());
    assert(p =~= blank + own);
    let tail = own + seq![' ', '│'] + shown;
    let r = shader::rewritten(line, start, len);
    assert(t.skip(bar + 1) =~= shown);
    assert(r =~= p + seq![' ', '│'] + shown);
    assert(r =~= blank + tail);
    assert forall|i: int| 0 <= i < blank.len() implies text::is_space(#[trigger] blank[i]) by {
        assert(blank[i] == p[i]);
    }
    assert(tail[0] == own[0]);
    assert(!text::is_space(own[0]));
    lemma_spaces_are_trimmed(blank, tail);
    assert(tail.is_suffix_of(r));
}

proof fn lemma_padded_is_spaces(s: Seq<char>)
    ensures
        shader::padded(s).len() >= s.len(),
        s.is_suffix_of(shader::padded(s)),
        forall|i: int|
            0 <= i < shader::padded(s).len() - s.len() ==> #[trigger] shader::padded(s)[i] == ' ',
    decreases 4 - s.len(),
{
    if s.len() < 4 {
        let more = seq![' '] + s;
        lemma_padded_is_spaces(more);
        let p = shader::padded(s);
        assert(p == shader::padded(more));
        assert(more.is_suffix_of(p));
        let m = p.subrange(p.len() - more.len(), p.len() as int);
        assert(more =~= m);
        let q = p.subrange(p.len() - s.len(), p.len() as int);
        assert forall|i: int| 0 <= i < s.len() implies s[i] == #[trigger] q[i] by {
            assert(more[i + 1] == m[i + 1]);
        }
        assert(s =~= q);
        assert forall|i: int| 0 <= i < p.len() - s.len() implies #[trigger] p[i] == ' ' by {
            if i == p.len() - s.len() - 1 {
                assert(m[0] == ' ');
            }
        }
    } else {
        assert(s =~= s.subrange(0, s.len() as int));
    }
}

/// Law: a line of an error that shows no line of the shader stays as it is.
pub proof fn lemma_other_lines_stay(line: Seq<char>, start: int, len: int)
    requires
        forall|i: int| 0 <= i < line.len() ==> line[i] != '│',
    ensures
        shader::rewritten(line, start, len) == line,
{
    let t = text::trimmed_start(line);
    lemma_skipped_is_space(line, 0);
    assert forall|i: int| 0 <= i < t.len() implies t[i] != '│' by {
        assert(t[i] == line[i + line.len() - t.len()]);
    }
    lemma_bar_is_missing(t, 0);
}

proof fn lemma_bar_is_missing(s: Seq<char>, i: int)
    requires
        0 <= i,
        forall|k: int| 0 <= k < s.len() ==> s[k] != '│',
    ensures
        shader::bar_from(s, i) == s.len(),
    decreases s.len() - i,
{
    if i < s.len() {
        lemma_bar_is_missing(s, i + 1);
    }
}

/// Law: the place that an error names is told by the number of the own line, and
/// all else of the text stays; a text that names no place stays as it is.
pub proof fn lemma_named_place_is_own(
    head: Seq<char>,
    n: u32,
    tail: Seq<char>,
    start: int,
    len: int,
    other: Seq<char>,
)
    requires
        0 < start,
        0 <= len,
        forall|i: int|
            0 <= i < head.len() ==> !text::stands_at(
                head + "shader.wgsl:"@ + decimal::decimal_text(n as nat) + ":"@ + tail,
                "shader.wgsl:"@,
                i,
            ),
    ensures
        shader::relocated(
            head + "shader.wgsl:"@ + decimal::decimal_text(n as nat) + ":"@ + tail,
            start,
            len,
        ) == head + "shader.wgsl:"@ + decimal::decimal_text(
            shader::own_line(n as int, start, len) as nat,
        ) + ":"@ + tail,
        !text::holds(other, "shader.wgsl:"@) ==> shader::relocated(other, start, len) == other,
{
    let name = "shader.wgsl:"@;
    assert(name.len() == 12) by {
        reveal_strlit("shader.wgsl:");
    }
    lemma_place_between(head, name, n, tail, start, len);
    if !text::holds(other, name) && text::found_from(other, name, 0) is Some {
        lemma_found_is_first(other, name, 0, 0);
        assert(text::holds(other, name));
    }
}

proof fn lemma_found_at(s: Seq<char>, pat: Seq<char>, from: int, at: int)
    requires
        0 <= from <= at,
        pat.len() > 0,
        text::stands_at(s, pat, at),
        forall|i: int| from <= i < at ==> !text::stands_at(s, pat, i),
    ensures
        text::found_from(s, pat, from) == Some(at),
    decreases at - from,
{
    if from < at {
        lemma_found_at(s, pat, from + 1, at);
    }
}

proof fn lemma_place_between(
    head: Seq<char>,
    name: Seq<char>,
    n: u32,
    tail: Seq<char>,
    start: int,
    len: int,
)
    requires
        name == "shader.wgsl:"@,
        name.len() == 12,
        0 < start,
        0 <= len,
        forall|i: int|
            0 <= i < head.len() ==> !text::stands_at(
                head + name + decimal::decimal_text(n as nat) + ":"@ + tail,
                name,
                i,
            ),
    ensures
        shader::relocated(
            head + name + decimal::decimal_text(n as nat) + ":"@ + tail,
            start,
            len,
        ) == head + name + decimal::decimal_text(shader::own_line(n as int, start, len) as nat)
            + ":"@ + tail,
{
    let colon = ":"@;
    assert(colon.len() == 1 && colon[0] == ':') by {
        reveal_strlit(":");
    }
    let d = decimal::decimal_text(n as nat);
    decimal::lemma_decimal_reads_back(n as nat);
    let s = head + name + d + colon + tail;
    let pos = head.len() as int;
    let from = pos + name.len();
    let end = from + d.len();
    assert(text::stands_at(s, name, pos)) by {
        assert(s.subrange(pos, pos + name.len()) =~= name);
    }
    lemma_found_at(s, name, 0, pos);
    assert(text::stands_at(s, colon, end)) by {
        assert(s.subrange(end, end + 1) =~= colon);
    }
    assert forall|i: int| from <= i < end implies !text::stands_at(s, colon, i) by {
        assert(s[i] == d[i - from]);
        assert(s.subrange(i, i + 1)[0] == s[i]);
    }
    lemma_found_at(s, colon, from, end);
    assert(s.subrange(from, end) =~= d);
    lemma_number_reads_back(n, d);
    let own = decimal::decimal_text(shader::own_line(n as int, start, len) as nat);
    assert(shader::relocated(s, start, len) == s.take(from) + own + s.skip(end));
    assert(s.take(from) =~= head + name);
    assert(s.skip(end) =~= colon + tail);
    assert(head + name + own + (colon + tail) =~= head + name + own + colon + tail);
}

/// Law: an error of one line that names no place and shows no line is told as it
/// is, with a line feed behind it.
pub proof fn lemma_plain_error_is_told(msg: &str, start: u32, len: u32, r: String)
    requires
        start > 0,
        start + len <= u32::MAX,
        msg@.len() > 0,
        forall|i: int| 0 <= i < msg@.len() ==> msg@[i] != '\n' && msg@[i] != '│',
        !text::holds(msg@ + seq!['\n'], "shader.wgsl:"@),
        call_ensures(offset_naga_error, (msg, start, len), r),
    ensures
        r@ == msg@ + seq!['\n'],
{
    let s = msg@;
    lemma_line_ends_at_next_feed(s, 0, text::line_end(s, 0));
    if text::line_end(s, 0) < s.len() {
        assert(s[text::line_end(s, 0)] == '\n');
    }
    assert(s.skip(0) =~= s);
    let lines = text::lines_from(s, 0);
    assert(lines =~= seq![s]);
    lemma_other_lines_stay(s, start as int, len as int);
    reveal_with_fuel(shader::all_rewritten, 2);
    assert(lines.skip(1) =~= seq![]);
    let told = shader::all_rewritten(lines, start as int, len as int);
    assert(told =~= s + seq!['\n']);
    reveal_strlit("shader.wgsl:");
    let name = "shader.wgsl:"@;
    let missed = text::found_from(told, name, 0);
    if missed is Some {
        lemma_found_is_first(told, name, 0, missed->0);
        assert(text::holds(told, name));
    }
}

} // verus!
