use tagbox::widgets::{
    button_colors, file_node_padding, icon_button_background, node_expanded_after_click, node_marker, node_padding,
    node_style, ButtonState, PointerEvent,
};

#[test]
fn button_looks() {
    assert_eq!(button_colors("primary", false, false, false), ("rgb(59, 130, 246)", "rgb(70, 130, 240)", "white"));
    assert_eq!(button_colors("primary", true, true, true).2, "rgb(150, 150, 150)");
    assert_eq!(button_colors("secondary", false, true, true).0, "rgb(210, 210, 210)");
    assert_eq!(button_colors("other", true, false, false), ("rgb(245, 245, 245)", "rgb(230, 230, 230)", "rgb(50, 50, 50)"));
    assert_eq!(icon_button_background(true), "rgb(240, 240, 240)");
    assert_eq!(icon_button_background(false), "transparent");
}

#[test]
fn button_pointer_states() {
    let mut b = ButtonState::new();
    assert!(!b.handle(PointerEvent::Enter, false));
    assert!(b.hovered);
    b.handle(PointerEvent::Down, false);
    assert!(b.pressed);
    assert!(b.handle(PointerEvent::Click, false));
    b.handle(PointerEvent::Leave, false);
    assert_eq!(b, ButtonState { hovered: false, pressed: false });
    let mut d = ButtonState::new();
    d.handle(PointerEvent::Enter, true);
    d.handle(PointerEvent::Down, true);
    assert_eq!(d, ButtonState::new());
    assert!(!d.handle(PointerEvent::Click, true));
}

#[test]
fn tree_nodes() {
    assert!(node_expanded_after_click(false, true, false));
    assert!(!node_expanded_after_click(true, false, true));
    assert!(node_expanded_after_click(true, false, false));
    assert_eq!(node_marker(true), "▼");
    assert_eq!(node_marker(false), "▶");
    assert_eq!(node_padding(0), "8 10 8 10");
    assert_eq!(node_padding(2), "8 10 8 50");
    assert_eq!(file_node_padding(1), "6 10 6 50");
    assert_eq!(node_style(true), ("rgb(240, 240, 255)", "rgb(80, 80, 255)", "bold"));
    assert_eq!(node_style(false).2, "normal");
}
