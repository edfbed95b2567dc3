use gnil_app::model::MenuAnimationState;
use gnil_app::overlays::{menu_close_due, menu_dismissal, menu_key_target, MenuDismissal, MenuTarget, OverlayState};

#[test]
fn menu_keys_go_to_the_live_empty_space_menu_first() {
    let opening = Some(MenuAnimationState::Opening);
    let closing = Some(MenuAnimationState::Closing);
    assert_eq!(menu_key_target(opening, opening), MenuTarget::EmptySpace);
    assert_eq!(menu_key_target(closing, opening), MenuTarget::Action);
    assert_eq!(menu_key_target(None, opening), MenuTarget::Action);
    assert_eq!(menu_key_target(None, closing), MenuTarget::Neither);
    assert_eq!(menu_key_target(None, None), MenuTarget::Neither);
}

#[test]
fn the_dismiss_key_closes_the_innermost_layer() {
    assert_eq!(menu_dismissal(true, true, true), MenuDismissal::Appearance);
    assert_eq!(menu_dismissal(false, true, true), MenuDismissal::EmptySpaceSubmenu);
    assert_eq!(menu_dismissal(false, false, true), MenuDismissal::EmptySpace);
    assert_eq!(menu_dismissal(false, false, false), MenuDismissal::Action);
}

#[test]
fn a_close_timer_closes_only_its_own_menu() {
    assert!(menu_close_due(MenuAnimationState::Closing, 4, 4));
    assert!(!menu_close_due(MenuAnimationState::Closing, 5, 4));
    assert!(!menu_close_due(MenuAnimationState::Opening, 4, 4));
}

#[test]
fn overlays_close_after_their_timer_or_at_once_with_reduced_motion() {
    let mut appearance = OverlayState::new();
    assert!(appearance.toggle(true, false));
    assert!(appearance.open);
    assert!(!appearance.toggle(true, false));
    assert!(appearance.open && appearance.closing);
    assert!(!appearance.dismiss(true, false));
    assert!(appearance.close_timer_elapsed());
    assert_eq!(appearance, OverlayState { open: false, closing: false });

    let mut settings = OverlayState::new();
    settings.open();
    assert!(settings.dismiss(true, true));
    assert!(!settings.open && !settings.closing);
    assert!(!settings.close_timer_elapsed());

    settings.open();
    assert!(settings.dismiss(false, true));
    settings.open();
    assert!(!settings.close_timer_elapsed());
    assert!(settings.open);
}
