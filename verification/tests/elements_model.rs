use rendering::definitions::Color;
use rendering::definitions::GeometryType;
use rendering::elements::Element;
use rendering::elements::InteractionResult;
use rendering::elements::Panel;
use rendering::elements::TextBox;
use rendering::elements::UiEvent;

fn white() -> Color {
    Color { r: 255, g: 255, b: 255, a: 255 }
}

#[test]
fn hex_color_parses_exactly() {
    assert_eq!(
        Color::from_hex("#0d1117ff"),
        Some(Color { r: 13, g: 17, b: 23, a: 255 })
    );
    assert_eq!(
        Color::from_hex("#FFffFF00"),
        Some(Color { r: 255, g: 255, b: 255, a: 0 })
    );
}

#[test]
fn hex_color_rejects_malformed_strings() {
    assert_eq!(Color::from_hex("0d1117ff"), None);
    assert_eq!(Color::from_hex("#0d1117f"), None);
    assert_eq!(Color::from_hex("#0d1117ffa"), None);
    assert_eq!(Color::from_hex("#0g1117ff"), None);
    assert_eq!(Color::from_hex(""), None);
}

#[test]
fn empty_textbox_renders_placeholder() {
    let mut boxed = TextBox::new("", [500, 500], [100, 100], white());
    assert_eq!(boxed.render_text(0), "Enter Text...");
    assert_eq!(boxed.render_text(1000), "Enter Text...");
}

#[test]
fn textbox_blinks_every_interval() {
    let mut element = Element::TextBox(TextBox::new("", [500, 500], [100, 100], white()));
    element.set_text("a");

    // Before the first interval elapses, the cursor glyph is dark.
    assert_eq!(element.get_text(100), Some("a".to_string()));
    // An elapsed interval lights it.
    assert_eq!(element.get_text(500), Some("a|".to_string()));
    assert_eq!(element.get_text(100), Some("a|".to_string()));
    // The next interval darkens it again.
    assert_eq!(element.get_text(500), Some("a|".to_string()));
    assert_eq!(element.get_text(100), Some("a".to_string()));
}

#[test]
fn positions_scale_with_the_window() {
    let element = Element::Panel(Panel::new([500, 250], white(), [100, 50], "solid"));
    assert_eq!(element.get_position([800, 600]), [400, 150]);
    assert_eq!(element.get_scale([800, 600]), [80, 30]);
    // A different window size rescales the same element.
    assert_eq!(element.get_position([1000, 400]), [500, 100]);
    assert_eq!(element.get_scale([1000, 400]), [100, 20]);
}

#[test]
fn title_bar_panel_propagates_dragging() {
    let title_bar = Element::Panel(Panel::new([500, 10], white(), [1000, 20], "solid"));
    assert!(matches!(
        title_bar.handle_click(),
        InteractionResult::Propogate(UiEvent::TitleBar)
    ));

    let mut other = Element::Panel(Panel::new([500, 10], white(), [1000, 20], "solid"));
    other.set_id(3);
    assert!(matches!(other.handle_click(), InteractionResult::NoInteraction));
}

#[test]
fn bounding_box_test_is_inclusive() {
    let element = Element::Panel(Panel::new([500, 500], white(), [100, 100], "solid"));
    let pos: [i64; 2] = [400, 300];
    let scale: [i64; 2] = [80, 60];
    // The box spans [360, 440] x [270, 330], boundaries included.
    assert!(element.is_cursor_within_bounds([360, 270], pos, scale));
    assert!(element.is_cursor_within_bounds([440, 330], pos, scale));
    assert!(element.is_cursor_within_bounds([400, 300], pos, scale));
    assert!(!element.is_cursor_within_bounds([359, 300], pos, scale));
    assert!(!element.is_cursor_within_bounds([400, 331], pos, scale));
}

#[test]
fn labels_and_icons_are_never_hit() {
    let label = Element::Label(rendering::elements::Label::new(
        "hi",
        [500, 500],
        [100, 100],
        white(),
    ));
    let icon = Element::Icon(rendering::elements::Icon::new(
        [500, 500],
        white(),
        [10, 10],
        "close",
    ));
    assert!(!label.is_cursor_within_bounds([400, 300], [400, 300], [80, 60]));
    assert!(!icon.is_cursor_within_bounds([400, 300], [400, 300], [80, 60]));
}

#[test]
fn highlight_touches_only_buttons() {
    let mut button = Element::Button(rendering::elements::Button::new(
        [500, 500],
        Color { r: 1, g: 2, b: 3, a: 0 },
        [100, 100],
        "solid",
    ));
    assert!(button.set_highlight(255));
    assert_eq!(button.get_color(), Color { r: 1, g: 2, b: 3, a: 255 });

    let mut panel = Element::Panel(Panel::new([500, 500], white(), [100, 100], "solid"));
    assert!(!panel.set_highlight(0));
    assert_eq!(panel.get_color(), white());
}

#[test]
fn text_anchor_offsets_by_measured_extent() {
    // Four characters at 15 pixels each: half the extent is 30; the
    // line height offset is 15.
    let label = Element::Label(rendering::elements::Label::new(
        "abcd",
        [500, 500],
        [100, 100],
        white(),
    ));
    assert_eq!(label.get_position([800, 600]), [400 - 30, 300 - 15]);
    assert_eq!(label.get_geometry_type(), GeometryType::Label);
}
