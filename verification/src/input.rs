//! Modifier keys, touches and the other input events.

use std::collections::{HashMap, HashSet};
use vstd::prelude::*;
use winit::keyboard::ModifiersState;
use crate::vertex::{F32Bits, F64Bits};

verus! {

/// A set of modifier keys. It never holds anything but the four keys.
#[derive(Debug, Clone, Copy, PartialEq, Eq, Hash, Structural)]
pub struct Modifiers(u8);

impl Modifiers {
    /// The keys as bits: 1 shift, 2 control, 4 alt, 8 super.
    pub closed spec fn bits(self) -> u8 {
        self.0
    }

    /// The keys with the given bits.
    pub closed spec fn of_bits(bits: u8) -> Modifiers {
        Modifiers(bits)
    }

    #[verifier::type_invariant]
    spec fn only_keys(self) -> bool {
        self.0 < 16
    }

    /// No modifier key.
    pub fn none() -> (r: Self)
        ensures
            r.bits() == 0,
            r == Modifiers::of_bits(0),
    {
        Modifiers(0)
    }

    /// The shift key alone.
    pub fn shift_only() -> (r: Self)
        ensures
            r.bits() == 1,
            r == Modifiers::of_bits(1),
    {
        Modifiers(1)
    }

    /// The control key alone.
    pub fn ctrl_only() -> (r: Self)
        ensures
            r.bits() == 2,
            r == Modifiers::of_bits(2),
    {
        Modifiers(2)
    }

    /// The alt key alone.
    pub fn alt_only() -> (r: Self)
        ensures
            r.bits() == 4,
            r == Modifiers::of_bits(4),
    {
        Modifiers(4)
    }

    /// The super (logo) key alone.
    pub fn super_only() -> (r: Self)
        ensures
            r.bits() == 8,
            r == Modifiers::of_bits(8),
    {
        Modifiers(8)
    }

    /// Whether shift is held.
    pub fn shift(&self) -> (r: bool)
        ensures
            r == (self.bits() & 1 != 0),
    {
        self.0 & 1 != 0
    }

    /// Whether control is held.
    pub fn ctrl(&self) -> (r: bool)
        ensures
            r == (self.bits() & 2 != 0),
    {
        self.0 & 2 != 0
    }

    /// Whether alt is held.
    pub fn alt(&self) -> (r: bool)
        ensures
            r == (self.bits() & 4 != 0),
    {
        self.0 & 4 != 0
    }

    /// Whether super is held.
    pub fn super_key(&self) -> (r: bool)
        ensures
            r == (self.bits() & 8 != 0),
    {
        self.0 & 8 != 0
    }

    /// Whether no modifier key is held.
    pub fn is_empty(&self) -> (r: bool)
        ensures
            r == (self.bits() == 0),
            r == (*self == Modifiers::of_bits(0)),
            r == (self.bits() & 1 == 0 && self.bits() & 2 == 0 && self.bits() & 4 == 0
                && self.bits() & 8 == 0),
            self.bits() < 16,
    {
        proof {
            use_type_invariant(self);
            Modifiers::lemma_empty_holds_no_key(*self);
        }
        self.0 == 0
    }
}

impl Default for Modifiers {
    fn default() -> (r: Self)
        ensures
            r.bits() == 0,
            r == Modifiers::of_bits(0),
    {
        Modifiers::none()
    }
}

impl std::ops::BitOr for Modifiers {
    type Output = Self;

    fn bitor(self, rhs: Self) -> (r: Self)
        ensures
            r.bits() == self.bits() | rhs.bits(),
    {
        proof {
            use_type_invariant(&self);
            use_type_invariant(&rhs);
            let x = self.0;
            let y = rhs.0;
            assert(x | y < 16) by (bit_vector)
                requires
                    x < 16,
                    y < 16,
            ;
        }
        Modifiers(self.0 | rhs.0)
    }
}

impl vstd::std_specs::ops::BitOrSpecImpl for Modifiers {
    open spec fn obeys_bitor_spec() -> bool {
        true
    }

    open spec fn bitor_req(self, rhs: Self) -> bool {
        true
    }

    closed spec fn bitor_spec(self, rhs: Self) -> Self {
        Modifiers(self.0 | rhs.0)
    }
}

impl std::ops::BitAnd for Modifiers {
    type Output = Self;

    fn bitand(self, rhs: Self) -> (r: Self)
        ensures
            r.bits() == self.bits() & rhs.bits(),
    {
        proof {
            use_type_invariant(&self);
            let x = self.0;
            let y = rhs.0;
            assert(x & y < 16) by (bit_vector)
                requires
                    x < 16,
            ;
        }
        Modifiers(self.0 & rhs.0)
    }
}

impl vstd::std_specs::ops::BitAndSpecImpl for Modifiers {
    open spec fn obeys_bitand_spec() -> bool {
        true
    }

    open spec fn bitand_req(self, rhs: Self) -> bool {
        true
    }

    closed spec fn bitand_spec(self, rhs: Self) -> Self {
        Modifiers(self.0 & rhs.0)
    }
}

impl Modifiers {
    /// Law: a key is in `a | b` if it is in `a` or in `b`, and in `a & b` if it
    /// is in both.
    pub proof fn lemma_or_and_key_by_key(a: Modifiers, b: Modifiers, key: u8)
        requires
            key == 1 || key == 2 || key == 4 || key == 8,
        ensures
            (vstd::std_specs::ops::BitOrSpec::bitor_spec(a, b).bits() & key != 0) == (a.bits() & key
                != 0 || b.bits() & key != 0),
            (vstd::std_specs::ops::BitAndSpec::bitand_spec(a, b).bits() & key != 0) == (a.bits()
                & key != 0 && b.bits() & key != 0),
    {
        let x = a.0;
        let y = b.0;
        assert((((x | y) & key) != 0) == (x & key != 0 || y & key != 0)) by (bit_vector);
        assert((((x & y) & key) != 0) == (x & key != 0 && y & key != 0)) by (bit_vector)
            requires
                key == 1 || key == 2 || key == 4 || key == 8,
        ;
    }

    /// Law: the bits of `a | b` and `a & b` are those of `a` and `b`, joined and
    /// met; sets with the same bits are the same.
    pub proof fn lemma_or_and_bits(a: Modifiers, b: Modifiers)
        ensures
            vstd::std_specs::ops::BitOrSpec::bitor_spec(a, b).bits() == a.bits() | b.bits(),
            vstd::std_specs::ops::BitAndSpec::bitand_spec(a, b).bits() == a.bits() & b.bits(),
            a.bits() == b.bits() ==> a == b,
            Modifiers::of_bits(a.bits()) == a,
    {
    }

    /// Law: `|` and `&` do not depend on the order of what they are given, give
    /// back what they are given twice, and `(a | b) & a` and `(a & b) | a` are
    /// `a`.
    pub proof fn lemma_or_and_sets(a: Modifiers, b: Modifiers)
        ensures
            vstd::std_specs::ops::BitOrSpec::bitor_spec(a, b)
                == vstd::std_specs::ops::BitOrSpec::bitor_spec(b, a),
            vstd::std_specs::ops::BitAndSpec::bitand_spec(a, b)
                == vstd::std_specs::ops::BitAndSpec::bitand_spec(b, a),
            vstd::std_specs::ops::BitOrSpec::bitor_spec(a, a) == a,
            vstd::std_specs::ops::BitAndSpec::bitand_spec(a, a) == a,
            vstd::std_specs::ops::BitAndSpec::bitand_spec(
                vstd::std_specs::ops::BitOrSpec::bitor_spec(a, b),
                a,
            ) == a,
            vstd::std_specs::ops::BitOrSpec::bitor_spec(
                vstd::std_specs::ops::BitAndSpec::bitand_spec(a, b),
                a,
            ) == a,
    {
        let x = a.0;
        let y = b.0;
        assert(x | y == y | x) by (bit_vector);
        assert(x & y == y & x) by (bit_vector);
        assert(x | x == x) by (bit_vector);
        assert(x & x == x) by (bit_vector);
        assert((x | y) & x == x) by (bit_vector);
        assert((x & y) | x == x) by (bit_vector);
    }

    /// Law: joining with the empty set changes nothing, meeting it leaves
    /// nothing, and only two empty sets join to the empty set.
    pub proof fn lemma_or_and_empty(a: Modifiers, b: Modifiers)
        ensures
            vstd::std_specs::ops::BitOrSpec::bitor_spec(a, Modifiers::of_bits(0)) == a,
            vstd::std_specs::ops::BitAndSpec::bitand_spec(a, Modifiers::of_bits(0))
                == Modifiers::of_bits(0),
            vstd::std_specs::ops::BitOrSpec::bitor_spec(a, b).bits() == 0 <==> a.bits() == 0
                && b.bits() == 0,
    {
        let x = a.0;
        let y = b.0;
        assert(x | 0 == x) by (bit_vector);
        assert(x & 0 == 0) by (bit_vector);
        assert(x | y == 0 <==> x == 0 && y == 0) by (bit_vector);
    }

    /// Law: a set that holds nothing but the four keys is empty exactly if it
    /// holds none of them, and there is one such set.
    pub proof fn lemma_empty_holds_no_key(m: Modifiers)
        requires
            m.bits() < 16,
        ensures
            m.bits() == 0 <==> m == Modifiers::of_bits(0),
            m.bits() == 0 <==> m.bits() & 1 == 0 && m.bits() & 2 == 0 && m.bits() & 4 == 0
                && m.bits() & 8 == 0,
    {
        let x = m.0;
        assert(x == 0 <==> x & 1 == 0 && x & 2 == 0 && x & 4 == 0 && x & 8 == 0) by (bit_vector)
            requires
                x < 16,
        ;
    }

    /// Law: the single keys hold themselves and no other key, and the empty
    /// set holds none.
    pub proof fn lemma_single_keys()
        ensures
            1u8 & 1 != 0 && 1u8 & 2 == 0 && 1u8 & 4 == 0 && 1u8 & 8 == 0,
            2u8 & 1 == 0 && 2u8 & 2 != 0 && 2u8 & 4 == 0 && 2u8 & 8 == 0,
            4u8 & 1 == 0 && 4u8 & 2 == 0 && 4u8 & 4 != 0 && 4u8 & 8 == 0,
            8u8 & 1 == 0 && 8u8 & 2 == 0 && 8u8 & 4 == 0 && 8u8 & 8 != 0,
            0u8 & 1 == 0 && 0u8 & 2 == 0 && 0u8 & 4 == 0 && 0u8 & 8 == 0,
    {
        assert(1u8 & 1 != 0 && 1u8 & 2 == 0 && 1u8 & 4 == 0 && 1u8 & 8 == 0) by (bit_vector);
        assert(2u8 & 1 == 0 && 2u8 & 2 != 0 && 2u8 & 4 == 0 && 2u8 & 8 == 0) by (bit_vector);
        assert(4u8 & 1 == 0 && 4u8 & 2 == 0 && 4u8 & 4 != 0 && 4u8 & 8 == 0) by (bit_vector);
        assert(8u8 & 1 == 0 && 8u8 & 2 == 0 && 8u8 & 4 == 0 && 8u8 & 8 != 0) by (bit_vector);
        assert(0u8 & 1 == 0 && 0u8 & 2 == 0 && 0u8 & 4 == 0 && 0u8 & 8 == 0) by (bit_vector);
    }
}

/// `winit::keyboard::ModifiersState::shift_key`, on the state with the given
/// bits: it tests bit 2.
#[verifier::external_body]
fn winit_shift_key(bits: u32) -> (r: bool)
    ensures
        r == (bits & 0x4 != 0),
{
    ModifiersState::from_bits_retain(bits).shift_key()
}

/// `winit::keyboard::ModifiersState::control_key`, on the state with the given
/// bits: it tests bit 5.
#[verifier::external_body]
fn winit_control_key(bits: u32) -> (r: bool)
    ensures
        r == (bits & 0x20 != 0),
{
    ModifiersState::from_bits_retain(bits).control_key()
}

/// `winit::keyboard::ModifiersState::alt_key`, on the state with the given
/// bits: it tests bit 8.
#[verifier::external_body]
fn winit_alt_key(bits: u32) -> (r: bool)
    ensures
        r == (bits & 0x100 != 0),
{
    ModifiersState::from_bits_retain(bits).alt_key()
}

/// `winit::keyboard::ModifiersState::super_key`, on the state with the given
/// bits: it tests bit 11.
#[verifier::external_body]
fn winit_super_key(bits: u32) -> (r: bool)
    ensures
        r == (bits & 0x800 != 0),
{
    ModifiersState::from_bits_retain(bits).super_key()
}

/// The bits of [`Modifiers`] for the winit state with the given bits.
pub open spec fn modifier_bits(state_bits: u32) -> u8 {
    ((if state_bits & 0x4 != 0 {
        1int
    } else {
        0int
    }) + (if state_bits & 0x20 != 0 {
        2int
    } else {
        0int
    }) + (if state_bits & 0x100 != 0 {
        4int
    } else {
        0int
    }) + (if state_bits & 0x800 != 0 {
        8int
    } else {
        0int
    })) as u8
}

/// The modifier keys of the winit state with the given bits.
pub fn map_modifiers(state_bits: u32) -> (r: Modifiers)
    ensures
        r.bits() == modifier_bits(state_bits),
{
    let mut m = Modifiers::none();
    if winit_shift_key(state_bits) {
        m = m | Modifiers::shift_only();
    }
    if winit_control_key(state_bits) {
        m = m | Modifiers::ctrl_only();
    }
    if winit_alt_key(state_bits) {
        m = m | Modifiers::alt_only();
    }
    if winit_super_key(state_bits) {
        m = m | Modifiers::super_only();
    }
    proof {
        let s = if state_bits & 0x4 != 0 { 1u8 } else { 0u8 };
        let c = if state_bits & 0x20 != 0 { 2u8 } else { 0u8 };
        let a = if state_bits & 0x100 != 0 { 4u8 } else { 0u8 };
        let u = if state_bits & 0x800 != 0 { 8u8 } else { 0u8 };
        assert(forall|x: u8| #[trigger] (x | 0u8) == x) by (bit_vector);
        assert(m.0 == 0u8 | s | c | a | u);
        assert(0u8 | s | c | a | u == s + c + a + u) by (bit_vector)
            requires
                s == 0 || s == 1,
                c == 0 || c == 2,
                a == 0 || a == 4,
                u == 0 || u == 8,
        ;
    }
    m
}

/// Law: the mapped modifiers hold a key exactly if the winit state does.
pub proof fn lemma_modifier_bits(state_bits: u32)
    ensures
        (modifier_bits(state_bits) & 1 != 0) == (state_bits & 0x4 != 0),
        (modifier_bits(state_bits) & 2 != 0) == (state_bits & 0x20 != 0),
        (modifier_bits(state_bits) & 4 != 0) == (state_bits & 0x100 != 0),
        (modifier_bits(state_bits) & 8 != 0) == (state_bits & 0x800 != 0),
{
    let s = if state_bits & 0x4 != 0 { 1u8 } else { 0u8 };
    let c = if state_bits & 0x20 != 0 { 2u8 } else { 0u8 };
    let a = if state_bits & 0x100 != 0 { 4u8 } else { 0u8 };
    let u = if state_bits & 0x800 != 0 { 8u8 } else { 0u8 };
    let m = modifier_bits(state_bits);
    assert(m == s + c + a + u);
    assert((m & 1 != 0) == (s != 0) && (m & 2 != 0) == (c != 0) && (m & 4 != 0) == (a != 0) && (m
        & 8 != 0) == (u != 0)) by (bit_vector)
        requires
            m == s + c + a + u,
            s == 0 || s == 1,
            c == 0 || c == 2,
            a == 0 || a == 4,
            u == 0 || u == 8,
    ;
}

/// Where a touch is in its course.
#[derive(Debug, Clone, Copy, PartialEq, Eq, Structural)]
pub enum TouchPhase {
    Started,
    Moved,
    Ended,
    Cancelled,
}

/// A key that has no meaning known to winit, as the platform numbers it.
#[derive(Debug, PartialEq)]
pub enum NativeKey {
    Unidentified,
    Android(u32),
    MacOS(u16),
    Windows(u16),
    Xkb(u32),
    Web(String),
}

/// What a key means in the keyboard's layout.
#[derive(Debug, PartialEq)]
pub enum LogicalKey {
    /// A key with a name, by the number of its name.
    Named(u32),
    /// A key that stands for a text.
    Character(String),
    /// A key that changes the one after it, with its accent where known.
    Dead(Option<char>),
    Unidentified(NativeKey),
}

/// A key going down or up. Keys are numbered by their physical position.
#[derive(Debug, PartialEq)]
pub struct KeyEvent {
    pub key: u32,
    /// What the key means in the keyboard's layout.
    pub logical_key: LogicalKey,
    pub pressed: bool,
    /// The text that the key press types, if any.
    pub text: Option<String>,
    /// Whether the event is an automatic repeat.
    pub repeat: bool,
}

/// The key event of a raw one: none for a key without a known position.
pub fn map_key_event(
    physical_key: Option<u32>,
    logical_key: LogicalKey,
    pressed: bool,
    text: Option<String>,
    repeat: bool,
) -> (r: Option<KeyEvent>)
    ensures
        r == (match physical_key {
            Some(key) => Some(KeyEvent { key, logical_key, pressed, text, repeat }),
            None => None,
        }),
{
    match physical_key {
        Some(key) => Some(KeyEvent { key, logical_key, pressed, text, repeat }),
        None => None,
    }
}

/// A mouse button going down or up.
#[derive(Debug, Clone, Copy, PartialEq, Eq, Structural)]
pub struct MouseButtonEvent {
    pub button: u32,
    pub pressed: bool,
}

/// How far a wheel or touch pad scrolled.
#[derive(Debug, Clone, Copy, PartialEq, Eq, Structural)]
pub enum ScrollDelta {
    /// In lines.
    Line { x: F32Bits, y: F32Bits },
    /// In pixels.
    Pixel { x: F32Bits, y: F32Bits },
}

/// A scroll.
#[derive(Debug, Clone, Copy, PartialEq, Eq, Structural)]
pub struct MouseScrollEvent {
    pub delta: ScrollDelta,
}

/// A change of one touch point.
#[derive(Debug, Clone, Copy, PartialEq, Eq)]
pub struct TouchEvent {
    pub id: u64,
    pub phase: TouchPhase,
    pub x: F32Bits,
    pub y: F32Bits,
    /// How hard it presses, from 0 to 1, where known.
    pub force: Option<F64Bits>,
}

/// Scrolling since it was last taken: lines and pixels apart, as they do not
/// add up.
#[derive(Debug, Clone, Copy, PartialEq, Eq)]
pub struct ScrollDeltaAccum {
    pub line: (F32Bits, F32Bits),
    pub pixel: (F32Bits, F32Bits),
}

impl Default for ScrollDeltaAccum {
    fn default() -> (r: Self)
        ensures
            r == (ScrollDeltaAccum { line: (0, 0), pixel: (0, 0) }),
    {
        ScrollDeltaAccum { line: (0, 0), pixel: (0, 0) }
    }
}

/// What is held down, and where, right now.
pub struct InputState {
    pub keys_down: HashSet<u32>,
    pub mouse_buttons_down: HashSet<u32>,
    pub modifiers: Modifiers,
    pub scroll_delta: ScrollDeltaAccum,
    pub focused: bool,
    pub cursor_inside: bool,
    /// Touch points by id: position and force.
    pub touches: HashMap<u64, (F32Bits, F32Bits, Option<F64Bits>)>,
}

impl Default for InputState {
    fn default() -> (r: Self)
        ensures
            r.keys_down@ == Set::<u32>::empty(),
            r.mouse_buttons_down@ == Set::<u32>::empty(),
            r.modifiers.bits() == 0,
            r.scroll_delta == (ScrollDeltaAccum { line: (0, 0), pixel: (0, 0) }),
            !r.focused,
            !r.cursor_inside,
            r.touches@ == Map::<u64, (F32Bits, F32Bits, Option<F64Bits>)>::empty(),
    {
        InputState {
            keys_down: HashSet::new(),
            mouse_buttons_down: HashSet::new(),
            modifiers: Modifiers::none(),
            scroll_delta: ScrollDeltaAccum { line: (0, 0), pixel: (0, 0) },
            focused: false,
            cursor_inside: false,
            touches: HashMap::new(),
        }
    }
}

} // verus!
