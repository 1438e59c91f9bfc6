use lockrs::widgets::{
    interface_label, interface_text, uptime_label, uptime_text, Align, FailureTextContent, FailureTextLocation,
    FailureTextPlan, Flow, Side,
};

#[test]
fn failure_text_below_centered() {
    let loc = FailureTextLocation::Bottom(Align::Center);
    assert_eq!(
        loc.plan(true),
        FailureTextPlan { flow: Flow::TopDown, side: Side::After, content: FailureTextContent::AlignedLabel(Align::Center) }
    );
    assert_eq!(
        loc.plan(false),
        FailureTextPlan { flow: Flow::TopDown, side: Side::After, content: FailureTextContent::Space }
    );
}

#[test]
fn failure_text_on_top_and_sides() {
    assert_eq!(
        FailureTextLocation::Top(Align::Min).plan(true),
        FailureTextPlan { flow: Flow::TopDown, side: Side::Before, content: FailureTextContent::AlignedLabel(Align::Min) }
    );
    assert_eq!(
        FailureTextLocation::Left.plan(true),
        FailureTextPlan { flow: Flow::LeftToRight, side: Side::Before, content: FailureTextContent::Label }
    );
    assert_eq!(
        FailureTextLocation::Right.plan(false),
        FailureTextPlan { flow: Flow::LeftToRight, side: Side::After, content: FailureTextContent::Space }
    );
}

#[test]
fn uptime_drops_the_first_word() {
    assert_eq!(uptime_text("up 3 hours, 2 minutes\n").as_deref(), Some("3 hours, 2 minutes"));
    assert_eq!(uptime_text("up 2 hours, 5 minutes \r\n\t").as_deref(), Some("2 hours, 5 minutes"));
    assert_eq!(uptime_text("up 1 minute").as_deref(), Some("1 minute"));
    assert_eq!(uptime_text("up \n").as_deref(), Some(""));
    assert_eq!(uptime_text("up  2 days").as_deref(), Some(" 2 days"));
    assert_eq!(uptime_text("nospace"), None);
    assert_eq!(uptime_text(""), None);
}

#[test]
fn interface_is_the_fifth_word() {
    let route = "default via 192.168.1.1 dev wlan0 proto dhcp metric 600\n";
    assert_eq!(interface_text(route).as_deref(), Some("wlan0"));
    assert_eq!(interface_text("a b c d e").as_deref(), Some("e"));
    assert_eq!(interface_text("a b c d"), None);
    assert_eq!(interface_text("a  b c d"), Some("d".to_string()));
    assert_eq!(interface_text("a    "), Some("".to_string()));
    assert_eq!(interface_text(""), None);
}

#[test]
fn labels_read_command_output() {
    assert_eq!(uptime_label(Some(b"up 5 minutes\n")), "5 minutes");
    assert_eq!(uptime_label(Some(b"garbage")), "ERROR");
    assert_eq!(uptime_label(None), "ERROR");
    assert_eq!(interface_label(Some(b"default via 10.0.0.1 dev eth0 proto static")), "eth0");
    assert_eq!(interface_label(Some(b"")), "ERROR");
    assert_eq!(interface_label(None), "ERROR");
}

#[test]
fn labels_replace_invalid_utf8() {
    assert_eq!(uptime_label(Some(b"up \xff min")), "\u{fffd} min");
    assert_eq!(interface_label(Some(b"a b c d \xffx y")), "\u{fffd}x");
}

#[test]
fn input_box_keeps_its_place_when_text_appears() {
    let locations = [
        FailureTextLocation::Top(Align::Max),
        FailureTextLocation::Bottom(Align::Min),
        FailureTextLocation::Left,
        FailureTextLocation::Right,
    ];
    for loc in locations {
        let failed = loc.plan(true);
        let fine = loc.plan(false);
        assert_eq!(failed.flow, fine.flow);
        assert_eq!(failed.side, fine.side);
        assert_eq!(fine.content, FailureTextContent::Space);
        assert_ne!(failed.content, FailureTextContent::Space);
    }
}
