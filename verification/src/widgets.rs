//! Small interface parts of the browsing front end: the colours and
//! pointer states of buttons, and the category tree's nodes.

use vstd::prelude::*;

use crate::text::{decimal, push_decimal, push_str, str_eq};

verus! {

broadcast use vstd::string::group_string_axioms;

// ---------------------------------------------------------------------------
// Buttons
// ---------------------------------------------------------------------------

/// The colours of a button (background, background under the pointer,
/// text) by its variant and state: the disabled look wins, then pressed,
/// then hovered; an unknown variant looks like a resting secondary button.
pub open spec fn button_colors_spec(variant: Seq<char>, disabled: bool, pressed: bool, hovered: bool) -> (Seq<char>, Seq<char>, Seq<char>) {
    if variant == "primary"@ {
        if disabled {
            ("rgb(200, 200, 200)"@, "rgb(200, 200, 200)"@, "rgb(150, 150, 150)"@)
        } else if pressed {
            ("rgb(50, 100, 200)"@, "rgb(50, 100, 200)"@, "white"@)
        } else if hovered {
            ("rgb(70, 130, 240)"@, "rgb(70, 130, 240)"@, "white"@)
        } else {
            ("rgb(59, 130, 246)"@, "rgb(70, 130, 240)"@, "white"@)
        }
    } else if variant == "secondary"@ {
        if disabled {
            ("rgb(200, 200, 200)"@, "rgb(200, 200, 200)"@, "rgb(150, 150, 150)"@)
        } else if pressed {
            ("rgb(210, 210, 210)"@, "rgb(210, 210, 210)"@, "rgb(50, 50, 50)"@)
        } else if hovered {
            ("rgb(230, 230, 230)"@, "rgb(230, 230, 230)"@, "rgb(50, 50, 50)"@)
        } else {
            ("rgb(245, 245, 245)"@, "rgb(230, 230, 230)"@, "rgb(50, 50, 50)"@)
        }
    } else {
        ("rgb(245, 245, 245)"@, "rgb(230, 230, 230)"@, "rgb(50, 50, 50)"@)
    }
}

/// The colours of a button.
pub fn button_colors(variant: &str, disabled: bool, pressed: bool, hovered: bool) -> (r: (&'static str, &'static str, &'static str))
    ensures
        (r.0@, r.1@, r.2@) == button_colors_spec(variant@, disabled, pressed, hovered),
{
    if str_eq(variant, "primary") {
        if disabled {
            ("rgb(200, 200, 200)", "rgb(200, 200, 200)", "rgb(150, 150, 150)")
        } else if pressed {
            ("rgb(50, 100, 200)", "rgb(50, 100, 200)", "white")
        } else if hovered {
            ("rgb(70, 130, 240)", "rgb(70, 130, 240)", "white")
        } else {
            ("rgb(59, 130, 246)", "rgb(70, 130, 240)", "white")
        }
    } else if str_eq(variant, "secondary") {
        if disabled {
            ("rgb(200, 200, 200)", "rgb(200, 200, 200)", "rgb(150, 150, 150)")
        } else if pressed {
            ("rgb(210, 210, 210)", "rgb(210, 210, 210)", "rgb(50, 50, 50)")
        } else if hovered {
            ("rgb(230, 230, 230)", "rgb(230, 230, 230)", "rgb(50, 50, 50)")
        } else {
            ("rgb(245, 245, 245)", "rgb(230, 230, 230)", "rgb(50, 50, 50)")
        }
    } else {
        ("rgb(245, 245, 245)", "rgb(230, 230, 230)", "rgb(50, 50, 50)")
    }
}

/// What the pointer does to a button.
#[derive(Clone, Copy, Debug, PartialEq, Eq, Structural)]
pub enum PointerEvent {
    Enter,
    Leave,
    Down,
    Up,
    Click,
}

/// Whether the pointer is over a button and whether it is held down on it.
#[derive(Clone, Copy, Debug, PartialEq, Eq, Structural)]
pub struct ButtonState {
    pub hovered: bool,
    pub pressed: bool,
}

/// A button's state after a pointer event, and whether the event presses
/// the button: a disabled button neither lights up nor can be pressed or
/// clicked; leaving it releases it.
pub open spec fn button_step(s: ButtonState, e: PointerEvent, disabled: bool) -> (ButtonState, bool) {
    match e {
        PointerEvent::Enter => (if disabled { s } else { ButtonState { hovered: true, ..s } }, false),
        PointerEvent::Leave => (ButtonState { hovered: false, pressed: false }, false),
        PointerEvent::Down => (if disabled { s } else { ButtonState { pressed: true, ..s } }, false),
        PointerEvent::Up => (ButtonState { pressed: false, ..s }, false),
        PointerEvent::Click => (s, !disabled),
    }
}

impl ButtonState {
    /// A button at rest.
    pub fn new() -> (r: Self)
        ensures
            !r.hovered && !r.pressed,
    {
        ButtonState { hovered: false, pressed: false }
    }

    /// Applies a pointer event; returns whether the button was pressed.
    pub fn handle(&mut self, e: PointerEvent, disabled: bool) -> (fire: bool)
        ensures
            (*final(self), fire) == button_step(*old(self), e, disabled),
    {
        match e {
            PointerEvent::Enter => {
                if !disabled {
                    self.hovered = true;
                }
                false
            },
            PointerEvent::Leave => {
                self.hovered = false;
                self.pressed = false;
                false
            },
            PointerEvent::Down => {
                if !disabled {
                    self.pressed = true;
                }
                false
            },
            PointerEvent::Up => {
                self.pressed = false;
                false
            },
            PointerEvent::Click => !disabled,
        }
    }
}

/// The background of an icon button: light grey under the pointer,
/// transparent otherwise.
pub fn icon_button_background(hovered: bool) -> (r: &'static str)
    ensures
        r@ == if hovered { "rgb(240, 240, 240)"@ } else { "transparent"@ },
{
    if hovered {
        "rgb(240, 240, 240)"
    } else {
        "transparent"
    }
}

// ---------------------------------------------------------------------------
// Category tree nodes
// ---------------------------------------------------------------------------

/// Whether a node is open after a click on it: it opens or closes when it
/// has subcategories or files, and stays as it is otherwise.
pub fn node_expanded_after_click(expanded: bool, has_children: bool, has_files: bool) -> (r: bool)
    ensures
        r == if has_children || has_files { !expanded } else { expanded },
{
    if has_children || has_files {
        !expanded
    } else {
        expanded
    }
}

/// The marker of a node that can open: "▼" when open, "▶" when closed.
pub fn node_marker(expanded: bool) -> (r: &'static str)
    ensures
        r@ == if expanded { "▼"@ } else { "▶"@ },
{
    if expanded {
        "▼"
    } else {
        "▶"
    }
}

/// The padding of a category node at a depth: 20 more on the left per
/// level.
pub fn node_padding(level: u8) -> (r: String)
    requires
        level * 20 + 10 <= 255,
    ensures
        r@ == "8 10 8 "@ + decimal((level * 20 + 10) as nat),
{
    let indent: u8 = level * 20;
    let mut r = String::new();
    push_str(&mut r, "8 10 8 ");
    push_decimal(&mut r, (indent + 10) as u64);
    r
}

/// The padding of a file node under a category node at a depth.
pub fn file_node_padding(level: u8) -> (r: String)
    requires
        (level + 1) * 20 + 10 <= 255,
    ensures
        r@ == "6 10 6 "@ + decimal(((level + 1) * 20 + 10) as nat),
{
    let indent: u8 = (level + 1) * 20;
    let mut r = String::new();
    push_str(&mut r, "6 10 6 ");
    push_decimal(&mut r, (indent + 10) as u64);
    r
}

/// The colours of a node's name by whether it is selected: (background,
/// text, weight).
pub fn node_style(selected: bool) -> (r: (&'static str, &'static str, &'static str))
    ensures
        selected ==> r.0@ == "rgb(240, 240, 255)"@ && r.1@ == "rgb(80, 80, 255)"@ && r.2@ == "bold"@,
        !selected ==> r.0@ == "transparent"@ && r.1@ == "rgb(50, 50, 50)"@ && r.2@ == "normal"@,
{
    if selected {
        ("rgb(240, 240, 255)", "rgb(80, 80, 255)", "bold")
    } else {
        ("transparent", "rgb(50, 50, 50)", "normal")
    }
}

} // verus!
