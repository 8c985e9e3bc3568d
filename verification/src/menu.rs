//! The menu screen's logic: its buttons as plain rectangles, hit-testing
//! over them, and the choice each button stands for. Drawing and event
//! polling stay outside the library.

use vstd::prelude::*;

verus! {

/// What the player picked on the menu screen.
#[derive(Clone, Copy, Debug, PartialEq, Eq, Structural)]
pub enum MenuChoice {
    Continue,
    NewGame,
    Exit,
}

/// A menu button: a labelled rectangle that may be disabled.
#[derive(Debug)]
pub struct MenuButton {
    pub id: u32,
    pub text: String,
    pub x: i32,
    pub y: i32,
    pub w: u32,
    pub h: u32,
    pub enabled: bool,
}

impl MenuButton {
    /// Whether a point lies on the button: inclusive on the left and top
    /// edge, exclusive on the right and bottom one.
    pub open spec fn spec_contains(&self, px: int, py: int) -> bool {
        &&& self.x <= px < self.x + self.w
        &&& self.y <= py < self.y + self.h
    }

    pub fn new(id: u32, text: &str, x: i32, y: i32, w: u32, h: u32, enabled: bool) -> (btn:
        MenuButton)
        ensures
            btn.id == id,
            btn.text@ == text@,
            btn.x == x,
            btn.y == y,
            btn.w == w,
            btn.h == h,
            btn.enabled == enabled,
    {
        MenuButton { id, text: text.to_string(), x, y, w, h, enabled }
    }

    /// Whether a click at `(x, y)` activates the button: it must lie on
    /// the rectangle and the button must be enabled.
    pub fn clicked(&self, x: i32, y: i32) -> (r: bool)
        ensures
            r == (self.spec_contains(x as int, y as int) && self.enabled),
    {
        let inside_x = x >= self.x && (x as i64) < (self.x as i64) + (self.w as i64);
        let inside_y = y >= self.y && (y as i64) < (self.y as i64) + (self.h as i64);
        inside_x && inside_y && self.enabled
    }

    /// Whether the pointer at `(x, y)` highlights the button; the same
    /// test as `clicked`.
    pub fn hovered(&self, x: i32, y: i32) -> (r: bool)
        ensures
            r == (self.spec_contains(x as int, y as int) && self.enabled),
    {
        if self.clicked(x, y) {
            true
        } else {
            false
        }
    }
}

/// The four buttons of the menu screen, top to bottom; the resume button
/// is enabled only while a save exists, and the high-score one not yet at
/// all.
pub fn menu_buttons(has_save: bool) -> (r: Vec<MenuButton>)
    ensures
        r@.len() == 4,
        r@[0].id == 10 && r@[0].text@ == "Continue Game"@ && r@[0].x == 100 && r@[0].y == 100
            && r@[0].w == 200 && r@[0].h == 75 && r@[0].enabled == has_save,
        r@[1].id == 20 && r@[1].text@ == "New Game"@ && r@[1].x == 100 && r@[1].y == 200
            && r@[1].w == 200 && r@[1].h == 75 && r@[1].enabled == true,
        r@[2].id == 30 && r@[2].text@ == "High scores"@ && r@[2].x == 100 && r@[2].y == 300
            && r@[2].w == 200 && r@[2].h == 75 && r@[2].enabled == false,
        r@[3].id == 90 && r@[3].text@ == "Exit"@ && r@[3].x == 100 && r@[3].y == 400 && r@[3].w
            == 200 && r@[3].h == 75 && r@[3].enabled == true,
{
    let mut buttons: Vec<MenuButton> = Vec::new();
    buttons.push(MenuButton::new(10, "Continue Game", 100, 100, 200, 75, has_save));
    buttons.push(MenuButton::new(20, "New Game", 100, 200, 200, 75, true));
    buttons.push(MenuButton::new(30, "High scores", 100, 300, 200, 75, false));
    buttons.push(MenuButton::new(90, "Exit", 100, 400, 200, 75, true));
    buttons
}

/// The choice that activating a button stands for; buttons without one
/// are inert.
pub open spec fn spec_choice_for_button(id: u32) -> Option<MenuChoice> {
    if id == 10 {
        Some(MenuChoice::Continue)
    } else if id == 20 {
        Some(MenuChoice::NewGame)
    } else if id == 90 {
        Some(MenuChoice::Exit)
    } else {
        None
    }
}

/// The menu choice a clicked button triggers, if any.
pub fn choice_for_button(id: u32) -> (r: Option<MenuChoice>)
    ensures
        r == spec_choice_for_button(id),
{
    if id == 10 {
        Some(MenuChoice::Continue)
    } else if id == 20 {
        Some(MenuChoice::NewGame)
    } else if id == 90 {
        Some(MenuChoice::Exit)
    } else {
        None
    }
}

} // verus!
