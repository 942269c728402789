use aterm::binding::{defaults, find, merge, parse_action, parse_key, parse_mods, single_char, Action, Keybinding};
use aterm::keys::{KeyCode, ModifiersState};

#[test]
fn parse_key_letters_case_insensitive() {
    assert_eq!(parse_key("t"), Some(KeyCode::KeyT));
    assert_eq!(parse_key("T"), Some(KeyCode::KeyT));
}

#[test]
fn parse_key_digits_and_punct() {
    assert_eq!(parse_key("1"), Some(KeyCode::Digit1));
    assert_eq!(parse_key("0"), Some(KeyCode::Digit0));
    assert_eq!(parse_key("-"), Some(KeyCode::Minus));
    assert_eq!(parse_key("="), Some(KeyCode::Equal));
}

#[test]
fn parse_key_named_aliases() {
    assert_eq!(parse_key("Left"), Some(KeyCode::ArrowLeft));
    assert_eq!(parse_key("ArrowLeft"), Some(KeyCode::ArrowLeft));
    assert_eq!(parse_key("pageup"), Some(KeyCode::PageUp));
    assert_eq!(parse_key("F5"), Some(KeyCode::F5));
    assert_eq!(parse_key("Esc"), Some(KeyCode::Escape));
    assert_eq!(parse_key("Return"), Some(KeyCode::Enter));
}

#[test]
fn parse_key_unknown() {
    assert_eq!(parse_key(""), None);
    assert_eq!(parse_key("Bogus"), None);
    assert_eq!(parse_key("ab"), None);
}

#[test]
fn parse_key_trims_white_space() {
    assert_eq!(parse_key("  t \n"), Some(KeyCode::KeyT));
    assert_eq!(parse_key(" \t "), None);
}

#[test]
fn parse_mods_combinations() {
    assert_eq!(parse_mods(""), ModifiersState::empty());
    assert_eq!(parse_mods("Command"), ModifiersState::logo());
    assert_eq!(parse_mods("Cmd|Shift"), ModifiersState::logo().union(ModifiersState::shift()));
    assert_eq!(parse_mods("Ctrl+Alt"), ModifiersState::control().union(ModifiersState::alt()));
    assert_eq!(parse_mods("super win cmd"), ModifiersState::logo());
    assert_eq!(parse_mods("Option"), ModifiersState::alt());
}

#[test]
fn parse_mods_unknown_token_does_not_drop_others() {
    let got = parse_mods("Cmd|Bogus|Shift");
    assert_eq!(got, ModifiersState::logo().union(ModifiersState::shift()));
}

#[test]
fn parse_action_known_and_aliases() {
    assert_eq!(parse_action("CreateTab"), Some(Action::CreateTab));
    assert_eq!(parse_action("PreviousTab"), Some(Action::PrevTab));
    assert_eq!(parse_action("SelectPrevTab"), Some(Action::PrevTab));
    assert_eq!(parse_action("ZoomIn"), Some(Action::IncreaseFontSize));
    assert_eq!(parse_action("ReceiveChar"), Some(Action::ReceiveChar));
    assert_eq!(parse_action("SelectTab3"), Some(Action::SelectTab(3)));
}

#[test]
fn parse_action_rejects_out_of_range_tabs() {
    assert_eq!(parse_action("SelectTab0"), None);
    assert_eq!(parse_action("SelectTab10"), None);
    assert_eq!(parse_action("SelectTabX"), None);
    assert_eq!(parse_action("Bogus"), None);
}

#[test]
fn merge_user_overrides_default() {
    let defaults = defaults();
    let default_t = defaults
        .iter()
        .find(|b| b.key == KeyCode::KeyT && b.mods == ModifiersState::logo())
        .expect("default Cmd+T present");
    assert_eq!(default_t.action, Action::CreateTab);

    let user = vec![Keybinding {
        key: KeyCode::KeyT,
        mods: ModifiersState::logo(),
        action: Action::CloseTab,
    }];
    let merged = merge(user, defaults);
    let hit = find(&merged, KeyCode::KeyT, ModifiersState::logo()).unwrap();
    assert_eq!(hit.action, Action::CloseTab);
    let count = merged
        .iter()
        .filter(|b| b.key == KeyCode::KeyT && b.mods == ModifiersState::logo())
        .count();
    assert_eq!(count, 1, "default should be replaced, not duplicated");
}

#[test]
fn merge_receive_char_clears_default() {
    let user = vec![Keybinding {
        key: KeyCode::KeyT,
        mods: ModifiersState::logo(),
        action: Action::ReceiveChar,
    }];
    let merged = merge(user, defaults());
    let hit = find(&merged, KeyCode::KeyT, ModifiersState::logo()).unwrap();
    assert_eq!(hit.action, Action::ReceiveChar);
}

#[test]
fn merge_keeps_unshadowed_defaults_and_appends_user() {
    let d = defaults();
    let user = vec![Keybinding {
        key: KeyCode::KeyT,
        mods: ModifiersState::logo(),
        action: Action::CloseTab,
    }];
    let merged = merge(user, d.clone());
    assert_eq!(merged.len(), d.len());
    assert_eq!(merged[merged.len() - 1].action, Action::CloseTab);
    assert_eq!(merged[0].action, Action::CloseTab);
    assert_eq!(merged[0].key, KeyCode::KeyW);
    let w = find(&merged, KeyCode::KeyW, ModifiersState::logo()).unwrap();
    assert_eq!(w.action, Action::CloseTab);
}

#[test]
fn defaults_select_tab_digits() {
    let d = defaults();
    for n in 1u8..=9 {
        let key = match n {
            1 => KeyCode::Digit1,
            2 => KeyCode::Digit2,
            3 => KeyCode::Digit3,
            4 => KeyCode::Digit4,
            5 => KeyCode::Digit5,
            6 => KeyCode::Digit6,
            7 => KeyCode::Digit7,
            8 => KeyCode::Digit8,
            _ => KeyCode::Digit9,
        };
        let hit = find(&d, key, ModifiersState::logo()).expect("Cmd+digit bound");
        assert_eq!(hit.action, Action::SelectTab(n));
    }
    assert!(find(&d, KeyCode::KeyQ, ModifiersState::empty()).is_none());
}

#[test]
fn single_char_only_for_one_char() {
    assert_eq!(single_char("x"), Some('x'));
    assert_eq!(single_char("é"), Some('é'));
    assert_eq!(single_char(""), None);
    assert_eq!(single_char("xy"), None);
}
