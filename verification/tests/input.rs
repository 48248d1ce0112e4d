use rogue_hunter::geometry::Direction;
use rogue_hunter::input::{intent_for_key, key_label, ControlScheme, InputMode, Intent, Key};

#[test]
fn list_screens_navigate_and_text_entry_types() {
    let scheme = ControlScheme::Numpad;
    assert_eq!(intent_for_key(InputMode::ListNav, scheme, Key::Down), Some(Intent::Down));
    assert_eq!(intent_for_key(InputMode::ListNav, scheme, Key::Char('j')), Some(Intent::Down));
    assert_eq!(intent_for_key(InputMode::ListNav, scheme, Key::Char('k')), Some(Intent::Up));
    assert_eq!(intent_for_key(InputMode::TextEntry, scheme, Key::Char('7')), Some(Intent::Char('7')));
    assert_eq!(intent_for_key(InputMode::TextEntry, scheme, Key::Tab), None);
    assert_eq!(intent_for_key(InputMode::ListNav, scheme, Key::Tab), None);
}

#[test]
fn the_run_screen_moves_the_hunter() {
    let scheme = ControlScheme::Numpad;
    assert_eq!(intent_for_key(InputMode::Tactical, scheme, Key::Down), Some(Intent::Move(Direction::South)));
    assert_eq!(intent_for_key(InputMode::Tactical, scheme, Key::Char('7')), Some(Intent::Move(Direction::NorthWest)));
    assert_eq!(intent_for_key(InputMode::Tactical, scheme, Key::Char('5')), Some(Intent::Wait));
    assert_eq!(intent_for_key(InputMode::Tactical, scheme, Key::Tab), Some(Intent::NextThreat));
    assert_eq!(intent_for_key(InputMode::Tactical, scheme, Key::Home), Some(Intent::Move(Direction::NorthWest)));
    assert_eq!(intent_for_key(InputMode::Tactical, scheme, Key::Char('e')), Some(Intent::Interact));
}

#[test]
fn the_schemes_share_out_the_letters() {
    let numpad = ControlScheme::Numpad;
    let roguelike = ControlScheme::Roguelike;
    assert_eq!(intent_for_key(InputMode::Tactical, numpad, Key::Char('k')), Some(Intent::KillingBlow));
    assert_eq!(intent_for_key(InputMode::Tactical, roguelike, Key::Char('k')), Some(Intent::Move(Direction::North)));
    assert_eq!(intent_for_key(InputMode::Tactical, roguelike, Key::Char('K')), Some(Intent::KillingBlow));
    assert_eq!(intent_for_key(InputMode::Tactical, numpad, Key::Char('K')), None);
    assert_eq!(numpad.next(), roguelike);
    assert_eq!(roguelike.next(), numpad);
    assert_eq!(ControlScheme::default(), numpad);
    assert_eq!(numpad.label_id(), "ui.controls.numpad");
    assert_eq!(roguelike.steer_id(), "ui.controls.roguelike.steer");
}

#[test]
fn every_printed_key_fires_its_action() {
    let intents = [
        Intent::Interact,
        Intent::ToggleLook,
        Intent::Wait,
        Intent::Fire,
        Intent::FireSilver,
        Intent::Aim,
        Intent::PowerAttack,
        Intent::Sprint,
        Intent::SetSnare,
        Intent::KillingBlow,
        Intent::Draught,
        Intent::Charm,
        Intent::Dossier,
        Intent::Grimoire,
        Intent::Guide,
        Intent::Relationships,
        Intent::RegionMap,
        Intent::EventLog,
        Intent::NextThreat,
    ];
    for scheme in [ControlScheme::Numpad, ControlScheme::Roguelike] {
        for intent in &intents {
            let label = key_label(scheme, intent).expect("every panel action has a key");
            let key = if label == "Tab" { Key::Tab } else { Key::Char(label.chars().next().unwrap()) };
            assert_eq!(intent_for_key(InputMode::Tactical, scheme, key), Some(intent.clone()));
        }
    }
    assert_eq!(key_label(ControlScheme::Numpad, &Intent::Wait), Some(".".to_owned()));
    assert_eq!(key_label(ControlScheme::Numpad, &Intent::Guide), Some("i".to_owned()));
    assert_eq!(key_label(ControlScheme::Roguelike, &Intent::EventLog), Some("L".to_owned()));
    assert_eq!(key_label(ControlScheme::Numpad, &Intent::Up), None);
}
