//! Remote input from viewers: counting what was applied, and turning each
//! event into the native input records Windows' `SendInput` takes.

use vstd::prelude::*;

use crate::protocol::control::{PointerButton, RemoteInputEvent, RemoteInputKind};

verus! {

pub const MOUSEEVENTF_MOVE: u32 = 0x0001;
pub const MOUSEEVENTF_LEFTDOWN: u32 = 0x0002;
pub const MOUSEEVENTF_LEFTUP: u32 = 0x0004;
pub const MOUSEEVENTF_RIGHTDOWN: u32 = 0x0008;
pub const MOUSEEVENTF_RIGHTUP: u32 = 0x0010;
pub const MOUSEEVENTF_MIDDLEDOWN: u32 = 0x0020;
pub const MOUSEEVENTF_MIDDLEUP: u32 = 0x0040;
pub const MOUSEEVENTF_XDOWN: u32 = 0x0080;
pub const MOUSEEVENTF_XUP: u32 = 0x0100;
pub const MOUSEEVENTF_WHEEL: u32 = 0x0800;
pub const MOUSEEVENTF_HWHEEL: u32 = 0x1000;
pub const MOUSEEVENTF_VIRTUALDESK: u32 = 0x4000;
pub const MOUSEEVENTF_ABSOLUTE: u32 = 0x8000;
pub const KEYEVENTF_KEYUP: u32 = 0x0002;
pub const KEYEVENTF_UNICODE: u32 = 0x0004;
pub const XBUTTON1: u32 = 0x0001;
pub const XBUTTON2: u32 = 0x0002;

/// One record for `SendInput`: a mouse or a keyboard input.
#[derive(Debug, Clone, Copy, PartialEq, Eq, Structural)]
pub enum NativeInput {
    Mouse { dx: i32, dy: i32, mouse_data: u32, flags: u32 },
    Keyboard { virtual_key: u16, scan_code: u16, flags: u32 },
}

/// Why remote input could not be applied: a key event without a key code,
/// no native input on this platform, or fewer records injected than given.
#[derive(Debug, Clone, Copy, PartialEq, Eq, Structural)]
pub enum RemoteInputError {
    ZeroKeyCode,
    Unsupported,
    InjectionFailed { sent: u32, requested: usize },
}

/// Protocol pointer coordinates are already Windows' absolute 0..65535
/// space.
pub fn absolute_axis(value: u16) -> (axis: i32)
    ensures
        axis == value as int,
{
    value as i32
}

/// The mouse flags and data of a button press or release.
pub open spec fn spec_pointer_button_flags(button: PointerButton, pressed: bool) -> (u32, u32) {
    match (button, pressed) {
        (PointerButton::Left, true) => (MOUSEEVENTF_LEFTDOWN, 0),
        (PointerButton::Left, false) => (MOUSEEVENTF_LEFTUP, 0),
        (PointerButton::Right, true) => (MOUSEEVENTF_RIGHTDOWN, 0),
        (PointerButton::Right, false) => (MOUSEEVENTF_RIGHTUP, 0),
        (PointerButton::Middle, true) => (MOUSEEVENTF_MIDDLEDOWN, 0),
        (PointerButton::Middle, false) => (MOUSEEVENTF_MIDDLEUP, 0),
        (PointerButton::X1, true) => (MOUSEEVENTF_XDOWN, XBUTTON1),
        (PointerButton::X1, false) => (MOUSEEVENTF_XUP, XBUTTON1),
        (PointerButton::X2, true) => (MOUSEEVENTF_XDOWN, XBUTTON2),
        (PointerButton::X2, false) => (MOUSEEVENTF_XUP, XBUTTON2),
    }
}

/// Pressing a button sends that button's Windows DOWN flag and releasing
/// it sends the matching UP flag, which Windows places one bit above the
/// DOWN flag; the extra buttons say which one they are in the mouse data.
pub proof fn law_press_goes_down_release_goes_up(button: PointerButton)
    ensures
        spec_pointer_button_flags(button, false).0 == 2 * spec_pointer_button_flags(button, true).0,
        spec_pointer_button_flags(button, false).1 == spec_pointer_button_flags(button, true).1,
        button == PointerButton::Left ==> spec_pointer_button_flags(button, true) == (0x0002u32, 0u32)
            && spec_pointer_button_flags(button, false) == (0x0004u32, 0u32),
        button == PointerButton::Right ==> spec_pointer_button_flags(button, true) == (0x0008u32, 0u32)
            && spec_pointer_button_flags(button, false) == (0x0010u32, 0u32),
        button == PointerButton::Middle ==> spec_pointer_button_flags(button, true) == (0x0020u32, 0u32)
            && spec_pointer_button_flags(button, false) == (0x0040u32, 0u32),
        button == PointerButton::X1 ==> spec_pointer_button_flags(button, true) == (0x0080u32, 0x0001u32)
            && spec_pointer_button_flags(button, false) == (0x0100u32, 0x0001u32),
        button == PointerButton::X2 ==> spec_pointer_button_flags(button, true) == (0x0080u32, 0x0002u32)
            && spec_pointer_button_flags(button, false) == (0x0100u32, 0x0002u32),
{
}

/// A remote button event becomes a move to the pointer's position and then
/// the button's press or release, with the flags and data of
/// `law_press_goes_down_release_goes_up`.
pub proof fn law_button_event_moves_then_clicks(
    button: PointerButton,
    pressed: bool,
    normalized_x: u16,
    normalized_y: u16,
)
    ensures
        spec_inputs_for_kind(RemoteInputKind::PointerButton { button, pressed, normalized_x, normalized_y })
            == Ok::<Seq<NativeInput>, RemoteInputError>(
            seq![
                absolute_move(normalized_x, normalized_y),
                NativeInput::Mouse {
                    dx: 0,
                    dy: 0,
                    mouse_data: spec_pointer_button_flags(button, pressed).1,
                    flags: spec_pointer_button_flags(button, pressed).0,
                },
            ],
        ),
{
}

pub fn pointer_button_flags(button: PointerButton, pressed: bool) -> (flags: (u32, u32))
    ensures
        flags == spec_pointer_button_flags(button, pressed),
{
    match button {
        PointerButton::Left => if pressed { (MOUSEEVENTF_LEFTDOWN, 0) } else { (MOUSEEVENTF_LEFTUP, 0) },
        PointerButton::Right => if pressed { (MOUSEEVENTF_RIGHTDOWN, 0) } else { (MOUSEEVENTF_RIGHTUP, 0) },
        PointerButton::Middle => if pressed { (MOUSEEVENTF_MIDDLEDOWN, 0) } else { (MOUSEEVENTF_MIDDLEUP, 0) },
        PointerButton::X1 => if pressed { (MOUSEEVENTF_XDOWN, XBUTTON1) } else { (MOUSEEVENTF_XUP, XBUTTON1) },
        PointerButton::X2 => if pressed { (MOUSEEVENTF_XDOWN, XBUTTON2) } else { (MOUSEEVENTF_XUP, XBUTTON2) },
    }
}

/// A move to absolute coordinates on the virtual desktop.
pub open spec fn absolute_move(x: u16, y: u16) -> NativeInput {
    NativeInput::Mouse {
        dx: x as i32,
        dy: y as i32,
        mouse_data: 0,
        flags: MOUSEEVENTF_MOVE | MOUSEEVENTF_ABSOLUTE | MOUSEEVENTF_VIRTUALDESK,
    }
}

/// A wheel delta as the 32-bit two's complement mouse data.
pub open spec fn wheel_data(delta: i16) -> u32 {
    if delta >= 0 {
        delta as u32
    } else {
        (0x1_0000_0000 + delta) as u32
    }
}

fn wheel_data_exec(delta: i16) -> (data: u32)
    ensures
        data == wheel_data(delta),
{
    if delta >= 0 {
        delta as u32
    } else {
        (0x1_0000_0000i64 + delta as i64) as u32
    }
}

pub open spec fn key_input(key_code: u16, pressed: bool) -> NativeInput {
    NativeInput::Keyboard {
        virtual_key: key_code,
        scan_code: 0,
        flags: if pressed { 0 } else { KEYEVENTF_KEYUP },
    }
}

pub open spec fn unicode_input(code_unit: u16, pressed: bool) -> NativeInput {
    NativeInput::Keyboard {
        virtual_key: 0,
        scan_code: code_unit,
        flags: if pressed { KEYEVENTF_UNICODE } else { KEYEVENTF_UNICODE | KEYEVENTF_KEYUP },
    }
}

/// The UTF-16 code units of one character.
pub open spec fn utf16_of(c: char) -> Seq<u16> {
    let code = c as u32;
    if code < 0x10000 {
        seq![code as u16]
    } else {
        let v = code - 0x10000;
        seq![(0xD800 + v / 1024) as u16, (0xDC00 + v % 1024) as u16]
    }
}

/// The UTF-16 code units of a text.
pub open spec fn utf16_units(text: Seq<char>) -> Seq<u16>
    decreases text.len(),
{
    if text.len() == 0 {
        Seq::empty()
    } else {
        utf16_units(text.drop_last()) + utf16_of(text.last())
    }
}

/// A key-down and key-up of each code unit in turn.
pub open spec fn typed_units(units: Seq<u16>) -> Seq<NativeInput>
    decreases units.len(),
{
    if units.len() == 0 {
        Seq::empty()
    } else {
        typed_units(units.drop_last()).push(unicode_input(units.last(), true)).push(
            unicode_input(units.last(), false),
        )
    }
}

/// The native inputs one remote input event stands for; a key event needs
/// a non-zero key code.
pub open spec fn spec_inputs_for_kind(kind: RemoteInputKind) -> Result<Seq<NativeInput>, RemoteInputError> {
    match kind {
        RemoteInputKind::PointerMove { normalized_x, normalized_y } => Ok(seq![absolute_move(normalized_x, normalized_y)]),
        RemoteInputKind::PointerButton { button, pressed, normalized_x, normalized_y } => {
            let (flags, data) = spec_pointer_button_flags(button, pressed);
            Ok(seq![
                absolute_move(normalized_x, normalized_y),
                NativeInput::Mouse { dx: 0, dy: 0, mouse_data: data, flags },
            ])
        },
        RemoteInputKind::PointerWheel { delta_x, delta_y, normalized_x, normalized_y } => {
            let vertical = if delta_y != 0 {
                seq![NativeInput::Mouse { dx: 0, dy: 0, mouse_data: wheel_data(delta_y), flags: MOUSEEVENTF_WHEEL }]
            } else {
                Seq::empty()
            };
            let horizontal = if delta_x != 0 {
                seq![NativeInput::Mouse { dx: 0, dy: 0, mouse_data: wheel_data(delta_x), flags: MOUSEEVENTF_HWHEEL }]
            } else {
                Seq::empty()
            };
            Ok(seq![absolute_move(normalized_x, normalized_y)] + vertical + horizontal)
        },
        RemoteInputKind::Key { key_code, pressed } => if key_code == 0 {
            Err(RemoteInputError::ZeroKeyCode)
        } else {
            Ok(seq![key_input(key_code, pressed)])
        },
        RemoteInputKind::Text { text } => Ok(typed_units(utf16_units(text@))),
    }
}

fn push_typed_unit(inputs: &mut Vec<NativeInput>, unit: u16)
    ensures
        final(inputs)@ == old(inputs)@.push(unicode_input(unit, true)).push(unicode_input(unit, false)),
{
    inputs.push(NativeInput::Keyboard { virtual_key: 0, scan_code: unit, flags: KEYEVENTF_UNICODE });
    inputs.push(
        NativeInput::Keyboard { virtual_key: 0, scan_code: unit, flags: KEYEVENTF_UNICODE | KEYEVENTF_KEYUP },
    );
}

pub proof fn lemma_typed_units_append(a: Seq<u16>, b: Seq<u16>)
    ensures
        typed_units(a + b) == typed_units(a) + typed_units(b),
    decreases b.len(),
{
    if b.len() == 0 {
        assert(a + b =~= a);
        assert(typed_units(a) + typed_units(b) =~= typed_units(a));
    } else {
        lemma_typed_units_append(a, b.drop_last());
        assert((a + b).drop_last() =~= a + b.drop_last());
        assert(typed_units(a) + typed_units(b) =~= typed_units(a) + typed_units(b.drop_last()).push(
            unicode_input(b.last(), true),
        ).push(unicode_input(b.last(), false)));
    }
}

proof fn lemma_typed_single(u: u16)
    ensures
        typed_units(seq![u]) == seq![unicode_input(u, true), unicode_input(u, false)],
{
    assert(seq![u].drop_last() =~= Seq::<u16>::empty());
    assert(typed_units(Seq::<u16>::empty()) == Seq::<NativeInput>::empty());
    assert(typed_units(seq![u]) =~= seq![unicode_input(u, true), unicode_input(u, false)]);
}

fn text_inputs(text: &String) -> (inputs: Vec<NativeInput>)
    ensures
        inputs@ == typed_units(utf16_units(text@)),
{
    let mut inputs: Vec<NativeInput> = Vec::new();
    for c in it: text.as_str().chars()
        invariant
            it.seq() == text@,
            inputs@ == typed_units(utf16_units(text@.take(it.index() as int))),
    {
        let ghost before = inputs@;
        let ghost u = utf16_of(c);
        let code = c as u32;
        if code < 0x10000 {
            let unit = code as u16;
            push_typed_unit(&mut inputs, unit);
            proof {
                lemma_typed_single(unit);
                assert(inputs@ =~= before + typed_units(u));
            }
        } else {
            let v = code - 0x10000;
            let high = (0xD800 + v / 1024) as u16;
            let low = (0xDC00 + v % 1024) as u16;
            push_typed_unit(&mut inputs, high);
            push_typed_unit(&mut inputs, low);
            proof {
                assert(u =~= seq![high] + seq![low]);
                lemma_typed_single(high);
                lemma_typed_single(low);
                lemma_typed_units_append(seq![high], seq![low]);
                assert(inputs@ =~= before + typed_units(u));
            }
        }
        proof {
            let seen = text@.take(it.index() as int);
            let next = text@.take(it.index() + 1);
            assert(next.drop_last() =~= seen);
            assert(next.last() == c);
            assert(utf16_units(next) == utf16_units(seen) + utf16_of(c));
            lemma_typed_units_append(utf16_units(seen), utf16_of(c));
            assert(inputs@ =~= typed_units(utf16_units(next)));
        }
    }
    proof {
        assert(text@.take(text@.len() as int) =~= text@);
    }
    inputs
}

/// The native inputs for one remote input kind.
pub fn inputs_for_kind(kind: &RemoteInputKind) -> (result: Result<Vec<NativeInput>, RemoteInputError>)
    ensures
        match spec_inputs_for_kind(*kind) {
            Ok(inputs) => result matches Ok(v) && v@ == inputs,
            Err(e) => result == Err::<Vec<NativeInput>, RemoteInputError>(e),
        },
{
    match kind {
        RemoteInputKind::PointerMove { normalized_x, normalized_y } => {
            let mut inputs: Vec<NativeInput> = Vec::new();
            inputs.push(absolute_move_input(*normalized_x, *normalized_y));
            assert(inputs@ =~= seq![absolute_move(*normalized_x, *normalized_y)]);
            Ok(inputs)
        },
        RemoteInputKind::PointerButton { button, pressed, normalized_x, normalized_y } => {
            let (flags, mouse_data) = pointer_button_flags(*button, *pressed);
            let mut inputs: Vec<NativeInput> = Vec::new();
            inputs.push(absolute_move_input(*normalized_x, *normalized_y));
            inputs.push(NativeInput::Mouse { dx: 0, dy: 0, mouse_data, flags });
            assert(inputs@ =~= seq![
                absolute_move(*normalized_x, *normalized_y),
                NativeInput::Mouse { dx: 0, dy: 0, mouse_data, flags },
            ]);
            Ok(inputs)
        },
        RemoteInputKind::PointerWheel { delta_x, delta_y, normalized_x, normalized_y } => {
            let mut inputs: Vec<NativeInput> = Vec::new();
            inputs.push(absolute_move_input(*normalized_x, *normalized_y));
            if *delta_y != 0 {
                inputs.push(
                    NativeInput::Mouse { dx: 0, dy: 0, mouse_data: wheel_data_exec(*delta_y), flags: MOUSEEVENTF_WHEEL },
                );
            }
            if *delta_x != 0 {
                inputs.push(
                    NativeInput::Mouse { dx: 0, dy: 0, mouse_data: wheel_data_exec(*delta_x), flags: MOUSEEVENTF_HWHEEL },
                );
            }
            proof {
                let s = spec_inputs_for_kind(*kind);
                assert(s matches Ok(v) && v =~= inputs@);
            }
            Ok(inputs)
        },
        RemoteInputKind::Key { key_code, pressed } => {
            if *key_code == 0 {
                return Err(RemoteInputError::ZeroKeyCode);
            }
            let mut inputs: Vec<NativeInput> = Vec::new();
            inputs.push(
                NativeInput::Keyboard {
                    virtual_key: *key_code,
                    scan_code: 0,
                    flags: if *pressed { 0 } else { KEYEVENTF_KEYUP },
                },
            );
            assert(inputs@ =~= seq![key_input(*key_code, *pressed)]);
            Ok(inputs)
        },
        RemoteInputKind::Text { text } => Ok(text_inputs(text)),
    }
}

fn absolute_move_input(normalized_x: u16, normalized_y: u16) -> (input: NativeInput)
    ensures
        input == absolute_move(normalized_x, normalized_y),
{
    NativeInput::Mouse {
        dx: absolute_axis(normalized_x),
        dy: absolute_axis(normalized_y),
        mouse_data: 0,
        flags: MOUSEEVENTF_MOVE | MOUSEEVENTF_ABSOLUTE | MOUSEEVENTF_VIRTUALDESK,
    }
}

/// Applies remote input events somewhere and counts them.
pub trait RemoteInputApplier {
    fn output_mode(&self) -> &'static str;

    fn applied_events(&self) -> u64;

    fn apply(&mut self, event: &RemoteInputEvent) -> Result<(), RemoteInputError>;
}

/// An applier that only counts the events it is given.
#[derive(Debug, Default)]
pub struct LoggingRemoteInputApplier {
    pub applied_events: u64,
}

impl LoggingRemoteInputApplier {
    /// Counts the event, held at `u64::MAX`.
    pub fn record(&mut self, event: &RemoteInputEvent) -> (result: Result<(), RemoteInputError>)
        ensures
            result == Ok::<(), RemoteInputError>(()),
            final(self).applied_events == if old(self).applied_events == u64::MAX { u64::MAX } else { (old(self).applied_events + 1) as u64 },
    {
        self.applied_events = self.applied_events.saturating_add(1);
        Ok(())
    }
}

impl RemoteInputApplier for LoggingRemoteInputApplier {
    fn output_mode(&self) -> (mode: &'static str)
        ensures
            mode@ == "log"@,
    {
        "log"
    }

    fn applied_events(&self) -> (count: u64)
        ensures
            count == self.applied_events,
    {
        self.applied_events
    }

    fn apply(&mut self, event: &RemoteInputEvent) -> (result: Result<(), RemoteInputError>)
        ensures
            result == Ok::<(), RemoteInputError>(()),
            final(self).applied_events == if old(self).applied_events == u64::MAX { u64::MAX } else { (old(self).applied_events + 1) as u64 },
    {
        self.record(event)
    }
}

} // verus!
