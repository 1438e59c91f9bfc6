use std::sync::Arc;

use lockrs::state::{key_plan, mouse_button, xkb_keycode, MouseButton, NamedKey};

use lockrs::state::{
    begin_frame, check_globals, frame_result, input_plan, seat_devices, texture_step, GlobalsCheck, Pam,
    SeatCapabilities, SeatDevices, SurfaceLost, TextureStatus, TextureStep, KEYBOARD_CAPABILITY, POINTER_CAPABILITY,
};

#[test]
fn globals_missing_is_an_error() {
    assert!(check_globals(false, true, 1).is_err());
    assert!(check_globals(true, false, 1).is_err());
    assert!(check_globals(false, false, 0).is_err());
}

#[test]
fn globals_without_outputs_warns() {
    assert!(matches!(check_globals(true, true, 0), Ok(GlobalsCheck::NoOutputs)));
    assert!(matches!(check_globals(true, true, 2), Ok(GlobalsCheck::Ready)));
}

#[test]
fn seat_capability_bits() {
    assert_eq!(POINTER_CAPABILITY, 1);
    assert_eq!(KEYBOARD_CAPABILITY, 2);
    let none = SeatDevices { keyboard: false, pointer: false };
    assert_eq!(seat_devices(&None), none);
    assert_eq!(seat_devices(&Some(SeatCapabilities::Value(0))), none);
    assert_eq!(seat_devices(&Some(SeatCapabilities::Value(1))), SeatDevices { keyboard: false, pointer: true });
    assert_eq!(seat_devices(&Some(SeatCapabilities::Value(2))), SeatDevices { keyboard: true, pointer: false });
    assert_eq!(seat_devices(&Some(SeatCapabilities::Value(7))), SeatDevices { keyboard: true, pointer: true });
    assert_eq!(seat_devices(&Some(SeatCapabilities::Value(4))), none);
}

#[test]
fn input_plan_follows_the_seats() {
    let seats = vec![Some(SeatCapabilities::Value(3)), None, Some(SeatCapabilities::Value(2))];
    let plan = input_plan(&seats);
    assert_eq!(
        plan,
        vec![
            SeatDevices { keyboard: true, pointer: true },
            SeatDevices { keyboard: false, pointer: false },
            SeatDevices { keyboard: true, pointer: false },
        ]
    );
    assert!(input_plan(&vec![]).is_empty());
}

#[test]
fn frame_renders_on_events_or_repaint() {
    let mut new_events = true;
    assert!(begin_frame(&mut new_events, false));
    assert!(!new_events);
    assert!(!begin_frame(&mut new_events, false));
    assert!(!new_events);
    assert!(begin_frame(&mut new_events, true));
    assert!(!new_events);
}

#[test]
fn texture_statuses_map_to_steps() {
    assert!(matches!(texture_step(TextureStatus::Success(5u8)), TextureStep::Render(5)));
    assert!(matches!(texture_step(TextureStatus::Suboptimal(5u8)), TextureStep::Reconfigure));
    assert!(matches!(texture_step(TextureStatus::<u8>::Outdated), TextureStep::Reconfigure));
    assert!(matches!(texture_step(TextureStatus::<u8>::Timeout), TextureStep::Skip));
    assert!(matches!(texture_step(TextureStatus::<u8>::Occluded), TextureStep::Skip));
    assert!(matches!(texture_step(TextureStatus::<u8>::Validation), TextureStep::Skip));
    assert!(matches!(texture_step(TextureStatus::<u8>::Lost), TextureStep::Lost));
}

#[test]
fn frame_results_of_steps() {
    assert!(matches!(frame_result(&TextureStep::<u8>::Skip), Some(Ok(()))));
    assert!(matches!(frame_result(&TextureStep::<u8>::Lost), Some(Err(SurfaceLost))));
    assert!(frame_result(&TextureStep::<u8>::Reconfigure).is_none());
    assert!(frame_result(&TextureStep::Render(1u8)).is_none());
}

#[test]
fn pam_holds_the_user() {
    let pam = Pam { uid: 1000, username: Arc::new("alice".to_string()) };
    let copy = pam.clone();
    assert_eq!(copy.uid, 1000);
    assert_eq!(copy.username.as_str(), "alice");
}

#[test]
fn keys_are_named_and_text_is_typed() {
    assert_eq!(key_plan(0xff0d, "\r", true).key, Some(NamedKey::Enter));
    assert!(!key_plan(0xff0d, "\r", true).typed);
    assert_eq!(key_plan(0xff8d, "\r", true).key, Some(NamedKey::Enter));
    assert_eq!(key_plan(0xff1b, "\u{1b}", true).key, Some(NamedKey::Escape));
    assert_eq!(key_plan(0xff08, "\u{8}", false).key, Some(NamedKey::Backspace));
    assert_eq!(key_plan(0xff09, "\t", true).key, Some(NamedKey::Tab));
    assert_eq!(key_plan(0xffff, "\u{7f}", true).key, Some(NamedKey::Delete));
    assert_eq!(key_plan(0xff51, "", true).key, Some(NamedKey::ArrowLeft));
    assert_eq!(key_plan(0xff53, "", true).key, Some(NamedKey::ArrowRight));
    assert_eq!(key_plan(0xff50, "", true).key, Some(NamedKey::Home));
    assert_eq!(key_plan(0xff57, "", true).key, Some(NamedKey::End));
    let a = key_plan(0x61, "a", true);
    assert_eq!(a.key, None);
    assert!(a.typed);
    assert!(!key_plan(0x61, "a", false).typed);
    assert!(key_plan(0xe9, "é", true).typed);
    assert!(!key_plan(0xffe1, "", true).typed);
}

#[test]
fn keycodes_and_buttons() {
    assert_eq!(xkb_keycode(30), Some(38));
    assert_eq!(xkb_keycode(u32::MAX - 8), Some(u32::MAX));
    assert_eq!(xkb_keycode(u32::MAX - 7), None);
    assert_eq!(mouse_button(0x110), Some(MouseButton::Primary));
    assert_eq!(mouse_button(0x111), Some(MouseButton::Secondary));
    assert_eq!(mouse_button(0x112), Some(MouseButton::Middle));
    assert_eq!(mouse_button(0x113), None);
}
