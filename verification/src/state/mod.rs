//! the data that the lock screen keeps about its session, and the decisions
//! taken while it is set up and while a frame is rendered

pub mod worker;

use std::sync::Arc;

use vstd::prelude::*;

verus! {

/// the user on whose behalf the lock screen checks passwords.
#[derive(Debug, Clone)]
pub struct Pam {
    pub uid: u32,
    pub username: Arc<String>,
}

/// the surface of an output was lost while a frame was being rendered to it;
/// it must be recreated before the output is rendered again.
pub struct SurfaceLost;

/// the compositor did not advertise a global that the lock screen needs
/// (`wl_compositor` or `ext_session_lock_manager_v1`).
pub struct MissingGlobals;

/// what the first round of globals told about the session
#[derive(PartialEq, Eq, Structural, Debug)]
pub enum GlobalsCheck {
    /// every needed global is there, and at least one output
    Ready,
    /// every needed global is there, but no output was advertised: the lock
    /// screen will lock without showing anything, which deserves a warning
    NoOutputs,
}

/// check the globals bound after the first roundtrip with the compositor:
/// both `wl_compositor` and `ext_session_lock_manager_v1` are needed.
pub fn check_globals(compositor_bound: bool, lock_manager_bound: bool, output_count: usize) -> (r: Result<GlobalsCheck, MissingGlobals>)
    ensures
        r is Err <==> !(compositor_bound && lock_manager_bound),
        r matches Ok(c) ==> (c == GlobalsCheck::NoOutputs <==> output_count == 0),
{
    if !(compositor_bound && lock_manager_bound) {
        Err(MissingGlobals)
    } else if output_count == 0 {
        Ok(GlobalsCheck::NoOutputs)
    } else {
        Ok(GlobalsCheck::Ready)
    }
}

/// the `wl_seat` capability bit of a pointer
pub const POINTER_CAPABILITY: u32 = 1;

/// the `wl_seat` capability bit of a keyboard
pub const KEYBOARD_CAPABILITY: u32 = 2;

/// the capabilities that a seat advertised, as the protocol sends them: a
/// known set of capability bits, or a value that the client does not know
pub enum SeatCapabilities {
    Value(u32),
    Unknown(u32),
}

/// the input devices to ask a seat for
#[derive(PartialEq, Eq, Structural, Debug, Clone, Copy)]
pub struct SeatDevices {
    pub keyboard: bool,
    pub pointer: bool,
}

/// whether the capability bits `bits` hold every bit of `capability`
pub open spec fn has_capability(bits: u32, capability: u32) -> bool {
    bits & capability == capability
}

/// the devices to ask a seat for, given what it advertised: a keyboard if it
/// has one, a pointer if it has one, nothing if it advertised no capabilities
pub open spec fn devices_for(caps: Option<SeatCapabilities>) -> SeatDevices {
    match caps {
        Some(SeatCapabilities::Value(bits)) => SeatDevices {
            keyboard: has_capability(bits, KEYBOARD_CAPABILITY),
            pointer: has_capability(bits, POINTER_CAPABILITY),
        },
        _ => SeatDevices { keyboard: false, pointer: false },
    }
}

/// whether a seat advertised capabilities that the client does not know
pub open spec fn is_unknown(caps: Option<SeatCapabilities>) -> bool {
    caps matches Some(SeatCapabilities::Unknown(_))
}

/// the devices to ask one seat for; its capabilities must be known.
pub fn seat_devices(caps: &Option<SeatCapabilities>) -> (d: SeatDevices)
    requires
        !is_unknown(*caps),
    ensures
        d == devices_for(*caps),
        d.keyboard == (caps matches Some(SeatCapabilities::Value(bits)) && bits & 2 == 2),
        d.pointer == (caps matches Some(SeatCapabilities::Value(bits)) && bits & 1 == 1),
{
    match caps {
        Some(SeatCapabilities::Value(bits)) => SeatDevices {
            keyboard: *bits & KEYBOARD_CAPABILITY == KEYBOARD_CAPABILITY,
            pointer: *bits & POINTER_CAPABILITY == POINTER_CAPABILITY,
        },
        _ => SeatDevices { keyboard: false, pointer: false },
    }
}

/// the devices to ask each seat for, in the order of `seats`; every seat's
/// capabilities must be known. When several seats have a keyboard (or a
/// pointer), each is asked for one, and the one asked last is the one kept.
pub fn input_plan(seats: &Vec<Option<SeatCapabilities>>) -> (plan: Vec<SeatDevices>)
    requires
        forall|i: int| 0 <= i < seats@.len() ==> !is_unknown(#[trigger] seats@[i]),
    ensures
        plan@.len() == seats@.len(),
        forall|i: int| 0 <= i < seats@.len() ==> #[trigger] plan@[i] == devices_for(seats@[i]),
{
    let mut plan: Vec<SeatDevices> = Vec::new();
    let mut i: usize = 0;
    while i < seats.len()
        invariant
            i <= seats@.len(),
            plan@.len() == i,
            forall|k: int| 0 <= k < seats@.len() ==> !is_unknown(#[trigger] seats@[k]),
            forall|k: int| 0 <= k < i ==> #[trigger] plan@[k] == devices_for(seats@[k]),
        decreases seats@.len() - i,
    {
        let d = seat_devices(&seats[i]);
        plan.push(d);
        i = i + 1;
    }
    plan
}

/// the keys that the lock screen passes on to the ui by name
#[derive(PartialEq, Eq, Structural, Debug, Clone, Copy)]
pub enum NamedKey {
    Enter,
    Escape,
    Backspace,
    Tab,
    Delete,
    ArrowLeft,
    ArrowRight,
    Home,
    End,
}

/// the named key of an X keysym: `Return` and `KP_Enter` (0xff0d, 0xff8d) are
/// Enter, `Escape` (0xff1b), `BackSpace` (0xff08), `Tab` (0xff09), `Delete`
/// (0xffff), `Left` (0xff51), `Right` (0xff53), `Home` (0xff50) and `End`
/// (0xff57) are themselves; every other keysym has no name here
pub open spec fn named_key_for(keysym: u32) -> Option<NamedKey> {
    if keysym == 0xff0d || keysym == 0xff8d {
        Some(NamedKey::Enter)
    } else if keysym == 0xff1b {
        Some(NamedKey::Escape)
    } else if keysym == 0xff08 {
        Some(NamedKey::Backspace)
    } else if keysym == 0xff09 {
        Some(NamedKey::Tab)
    } else if keysym == 0xffff {
        Some(NamedKey::Delete)
    } else if keysym == 0xff51 {
        Some(NamedKey::ArrowLeft)
    } else if keysym == 0xff53 {
        Some(NamedKey::ArrowRight)
    } else if keysym == 0xff50 {
        Some(NamedKey::Home)
    } else if keysym == 0xff57 {
        Some(NamedKey::End)
    } else {
        None
    }
}

/// The keys that have a name: Return and keypad Enter are Enter, and Escape,
/// BackSpace, Tab, Delete, Left, Right, Home and End keep theirs; any other
/// keysym, such as a letter, a digit or a modifier, has no name and reaches the
/// ui only through the text it produces.
pub proof fn lemma_named_keys(keysym: u32)
    ensures
        named_key_for(0xff0d) == Some(NamedKey::Enter),
        named_key_for(0xff8d) == Some(NamedKey::Enter),
        named_key_for(0xff1b) == Some(NamedKey::Escape),
        named_key_for(0xff08) == Some(NamedKey::Backspace),
        named_key_for(0xff09) == Some(NamedKey::Tab),
        named_key_for(0xffff) == Some(NamedKey::Delete),
        named_key_for(0xff51) == Some(NamedKey::ArrowLeft),
        named_key_for(0xff53) == Some(NamedKey::ArrowRight),
        named_key_for(0xff50) == Some(NamedKey::Home),
        named_key_for(0xff57) == Some(NamedKey::End),
        named_key_for(keysym) is Some <==> (keysym == 0xff0d || keysym == 0xff8d || keysym == 0xff1b
            || keysym == 0xff08 || keysym == 0xff09 || keysym == 0xffff || keysym == 0xff51
            || keysym == 0xff53 || keysym == 0xff50 || keysym == 0xff57),
{
}

/// whether `c` is a control character (below U+0020, or U+007F)
pub open spec fn is_control(c: char) -> bool {
    (c as u32) < 0x20 || (c as u32) == 0x7f
}

/// whether the text that a key produces is typed into the ui: it is when
/// there is some, and none of it is a control character (Enter, Tab,
/// Backspace and Escape produce control characters and reach the ui as keys)
pub open spec fn is_typed_text(text: Seq<char>) -> bool {
    text.len() > 0 && forall|i: int| 0 <= i < text.len() ==> !is_control(#[trigger] text[i])
}

/// The text of a key is typed exactly when there is some and each of its
/// characters is at least U+0020 and not U+007F: letters, digits, the space and
/// punctuation are typed; what a key like Enter, Tab or Backspace produces
/// (a character below U+0020, or U+007F) is not.
pub proof fn lemma_printable_text_is_typed(text: Seq<char>)
    ensures
        is_typed_text(text) == (text.len() > 0 && forall|i: int|
            0 <= i < text.len() ==> (#[trigger] text[i] as u32) >= 0x20 && (text[i] as u32) != 0x7f),
{
}

/// what a key event tells the ui
#[derive(PartialEq, Eq, Structural, Debug, Clone, Copy)]
pub struct KeyPlan {
    /// the key, pressed or released, when it has a name
    pub key: Option<NamedKey>,
    /// whether the text that the key produces is typed
    pub typed: bool,
}

/// what a key with `keysym`, producing `text`, tells the ui when it is pressed
/// (or released): its name, if it has one, and its text, when it is pressed and
/// the text is typed.
pub fn key_plan(keysym: u32, text: &str, pressed: bool) -> (plan: KeyPlan)
    ensures
        plan.key == named_key_for(keysym),
        plan.typed == (pressed && is_typed_text(text@)),
        plan.typed == (pressed && text@.len() > 0 && forall|i: int|
            0 <= i < text@.len() ==> (#[trigger] text@[i] as u32) >= 0x20 && (text@[i] as u32) != 0x7f),
{
    proof {
        lemma_printable_text_is_typed(text@);
    }
    let key = if keysym == 0xff0d || keysym == 0xff8d {
        Some(NamedKey::Enter)
    } else if keysym == 0xff1b {
        Some(NamedKey::Escape)
    } else if keysym == 0xff08 {
        Some(NamedKey::Backspace)
    } else if keysym == 0xff09 {
        Some(NamedKey::Tab)
    } else if keysym == 0xffff {
        Some(NamedKey::Delete)
    } else if keysym == 0xff51 {
        Some(NamedKey::ArrowLeft)
    } else if keysym == 0xff53 {
        Some(NamedKey::ArrowRight)
    } else if keysym == 0xff50 {
        Some(NamedKey::Home)
    } else if keysym == 0xff57 {
        Some(NamedKey::End)
    } else {
        None
    };
    if !pressed {
        return KeyPlan { key, typed: false };
    }
    let len = text.unicode_len();
    let mut i: usize = 0;
    while i < len
        invariant
            len == text@.len(),
            i <= len,
            key == named_key_for(keysym),
            forall|j: int| 0 <= j < i ==> !is_control(#[trigger] text@[j]),
        decreases len - i,
    {
        let c = text.get_char(i);
        if (c as u32) < 0x20 || (c as u32) == 0x7f {
            assert(is_control(text@[i as int]));
            return KeyPlan { key, typed: false };
        }
        i = i + 1;
    }
    KeyPlan { key, typed: len > 0 }
}

/// the mouse buttons that the lock screen passes on to the ui
#[derive(PartialEq, Eq, Structural, Debug, Clone, Copy)]
pub enum MouseButton {
    Primary,
    Secondary,
    Middle,
}

/// the mouse button of an evdev button code: `BTN_LEFT` (0x110) is the
/// primary button, `BTN_RIGHT` (0x111) the secondary one and `BTN_MIDDLE`
/// (0x112) the middle one; other buttons are not passed on
pub fn mouse_button(code: u32) -> (b: Option<MouseButton>)
    ensures
        b == (if code == 0x110 {
            Some(MouseButton::Primary)
        } else if code == 0x111 {
            Some(MouseButton::Secondary)
        } else if code == 0x112 {
            Some(MouseButton::Middle)
        } else {
            None
        }),
{
    if code == 0x110 {
        Some(MouseButton::Primary)
    } else if code == 0x111 {
        Some(MouseButton::Secondary)
    } else if code == 0x112 {
        Some(MouseButton::Middle)
    } else {
        None
    }
}

/// the XKB keycode of a key that the compositor names by its evdev code: XKB
/// counts from 8 more. `None` when that does not fit in a `u32`.
pub fn xkb_keycode(evdev: u32) -> (code: Option<u32>)
    ensures
        code == (if evdev + 8 <= u32::MAX {
            Some((evdev + 8) as u32)
        } else {
            None
        }),
{
    evdev.checked_add(8)
}

/// whether a frame is rendered to an output: it is when new events arrived
/// since the last frame (`new_events`) or the ui asked for a repaint.
/// Once a frame is rendered, the events that arrived are taken as seen.
pub fn begin_frame(new_events: &mut bool, repaint_requested: bool) -> (render: bool)
    ensures
        render == (*old(new_events) || repaint_requested),
        *final(new_events) == false,
{
    if !(*new_events || repaint_requested) {
        return false;
    }
    *new_events = false;
    true
}

/// what acquiring the surface's next texture gave, with the texture `T` when
/// there is one (the variants of `wgpu::CurrentSurfaceTexture`)
pub enum TextureStatus<T> {
    Success(T),
    Suboptimal(T),
    Timeout,
    Occluded,
    Outdated,
    Lost,
    Validation,
}

/// what to do with what acquiring the texture gave
pub enum TextureStep<T> {
    /// render the frame into this texture
    Render(T),
    /// configure the surface anew and try again
    Reconfigure,
    /// skip this frame; the output is rendered again later
    Skip,
    /// the surface is gone: the frame fails with [`SurfaceLost`]
    Lost,
}

/// the step for each status: a usable texture is rendered into; a suboptimal
/// one is dropped and, like an outdated surface, the surface is configured
/// again; a timeout, an occluded surface or a validation error skip the frame;
/// a lost surface fails it.
pub open spec fn step_for<T>(status: TextureStatus<T>) -> TextureStep<T> {
    match status {
        TextureStatus::Success(t) => TextureStep::Render(t),
        TextureStatus::Suboptimal(_) => TextureStep::Reconfigure,
        TextureStatus::Outdated => TextureStep::Reconfigure,
        TextureStatus::Timeout => TextureStep::Skip,
        TextureStatus::Occluded => TextureStep::Skip,
        TextureStatus::Validation => TextureStep::Skip,
        TextureStatus::Lost => TextureStep::Lost,
    }
}

/// decide what to do with what acquiring the surface's texture gave
pub fn texture_step<T>(status: TextureStatus<T>) -> (step: TextureStep<T>)
    ensures
        step == step_for(status),
        step is Render <==> status is Success,
        status matches TextureStatus::Success(t) ==> step == TextureStep::Render(t),
        step is Reconfigure <==> (status is Suboptimal || status is Outdated),
        step is Skip <==> (status is Timeout || status is Occluded || status is Validation),
        step is Lost <==> status is Lost,
{
    match status {
        TextureStatus::Success(t) => TextureStep::Render(t),
        TextureStatus::Suboptimal(_) => TextureStep::Reconfigure,
        TextureStatus::Outdated => TextureStep::Reconfigure,
        TextureStatus::Timeout => TextureStep::Skip,
        TextureStatus::Occluded => TextureStep::Skip,
        TextureStatus::Validation => TextureStep::Skip,
        TextureStatus::Lost => TextureStep::Lost,
    }
}

/// the result of a frame that did not render: a skipped frame is no failure,
/// a lost surface is. `None` when the frame goes on (it renders, or tries again).
pub fn frame_result<T>(step: &TextureStep<T>) -> (r: Option<Result<(), SurfaceLost>>)
    ensures
        r matches Some(Ok(())) <==> *step is Skip,
        r matches Some(Err(_)) <==> *step is Lost,
        r is None <==> (*step is Render || *step is Reconfigure),
{
    match step {
        TextureStep::Skip => Some(Ok(())),
        TextureStep::Lost => Some(Err(SurfaceLost)),
        _ => None,
    }
}

} // verus!
