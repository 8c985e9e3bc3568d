use snake::menu::{choice_for_button, menu_buttons, MenuButton, MenuChoice};
use snake::sound::Sound;

#[test]
fn test_menu_buttons_layout() {
    let buttons = menu_buttons(true);
    assert_eq!(buttons.len(), 4);
    assert_eq!(buttons[0].id, 10);
    assert_eq!(buttons[0].text, "Continue Game");
    assert!(buttons[0].enabled);
    assert_eq!(buttons[1].id, 20);
    assert_eq!(buttons[1].text, "New Game");
    assert!(buttons[1].enabled);
    assert_eq!(buttons[2].id, 30);
    assert_eq!(buttons[2].text, "High scores");
    assert!(!buttons[2].enabled);
    assert_eq!(buttons[3].id, 90);
    assert_eq!(buttons[3].text, "Exit");
    assert!(buttons[3].enabled);
    let no_save = menu_buttons(false);
    assert!(!no_save[0].enabled);
}

#[test]
fn test_button_clicked_bounds() {
    let b = MenuButton::new(10, "Continue Game", 100, 100, 200, 75, true);
    assert!(b.clicked(100, 100)); // top-left corner is inside
    assert!(b.clicked(299, 174)); // bottom-right inside corner
    assert!(!b.clicked(300, 100)); // right edge is outside
    assert!(!b.clicked(100, 175)); // bottom edge is outside
    assert!(!b.clicked(99, 120));
    assert!(!b.clicked(150, 99));
}

#[test]
fn test_button_disabled_never_activates() {
    let b = MenuButton::new(30, "High scores", 100, 300, 200, 75, false);
    assert!(!b.clicked(150, 320));
    assert!(!b.hovered(150, 320));
}

#[test]
fn test_button_hovered_matches_clicked() {
    let b = MenuButton::new(20, "New Game", 100, 200, 200, 75, true);
    for (x, y) in [(100, 200), (299, 274), (0, 0), (500, 500)] {
        assert_eq!(b.hovered(x, y), b.clicked(x, y));
    }
}

#[test]
fn test_choice_for_button_ids() {
    assert_eq!(choice_for_button(10), Some(MenuChoice::Continue));
    assert_eq!(choice_for_button(20), Some(MenuChoice::NewGame));
    assert_eq!(choice_for_button(90), Some(MenuChoice::Exit));
    assert_eq!(choice_for_button(30), None);
    assert_eq!(choice_for_button(0), None);
}

#[test]
fn test_sound_files() {
    assert_eq!(Sound::Eat.file(), "resources/eat.ogg");
    assert_eq!(Sound::Start.file(), "resources/eat.ogg");
    assert_eq!(Sound::GameOver.file(), "resources/eat.ogg");
}
