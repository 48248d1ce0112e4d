use rogue_hunter::client::{handle_modal, MenuAction, MenuItem, Modal, ModalEffect};
use rogue_hunter::command::{Command, Target};
use rogue_hunter::geometry::{Direction, Point};
use rogue_hunter::input::Intent;
use rogue_hunter::state::ActorId;
use rogue_hunter::strings::StringTable;

fn strings() -> StringTable {
    StringTable::parse("id,context,english\r\nui.status.no-target-there,Status,[Nothing to shoot there.]\r\n")
        .expect("table parses")
}

fn targets() -> Vec<(Target, Point)> {
    vec![(Target::Actor(ActorId(4)), Point::new(3, 3)), (Target::Actor(ActorId(7)), Point::new(5, 2))]
}

fn menu(selected: usize) -> Modal {
    Modal::Menu {
        title: "Here".to_owned(),
        items: vec![
            MenuItem { label: "Wait".to_owned(), blocked: None, action: MenuAction::Do(Command::Wait) },
            MenuItem {
                label: "Craft".to_owned(),
                blocked: Some("No workstation".to_owned()),
                action: MenuAction::Do(Command::Consecrate),
            },
            MenuItem { label: "Close".to_owned(), blocked: None, action: MenuAction::Nothing },
        ],
        selected,
    }
}

#[test]
fn a_sprint_runs_its_tiles_in_the_chosen_direction() {
    let (next, effect) = handle_modal(Modal::SprintDirection, Intent::Move(Direction::East), &targets(), 3, &strings());
    assert_eq!(next, None);
    assert_eq!(
        effect,
        ModalEffect::Apply(Command::Manoeuvre {
            id: "sprint".to_owned(),
            steps: vec![Direction::East, Direction::East, Direction::East],
        })
    );
    let (next, effect) = handle_modal(Modal::SnareDirection, Intent::Wait, &targets(), 3, &strings());
    assert_eq!(next, Some(Modal::SnareDirection));
    assert_eq!(effect, ModalEffect::Nothing);
}

#[test]
fn targeting_walks_the_list_and_fires_at_the_choice() {
    let t = targets();
    let s = strings();
    let (next, _) = handle_modal(Modal::FireTarget { silver: true, selected: 1 }, Intent::Down, &t, 3, &s);
    assert_eq!(next, Some(Modal::FireTarget { silver: true, selected: 1 }));
    let (next, _) = handle_modal(Modal::FireTarget { silver: true, selected: 0 }, Intent::Up, &t, 3, &s);
    assert_eq!(next, Some(Modal::FireTarget { silver: true, selected: 0 }));
    let (next, effect) = handle_modal(Modal::FireTarget { silver: true, selected: 1 }, Intent::Confirm, &t, 3, &s);
    assert_eq!(next, None);
    assert_eq!(effect, ModalEffect::Apply(Command::Ranged { target: Target::Actor(ActorId(7)), silver: true }));
    let (_, effect) =
        handle_modal(Modal::FireTarget { silver: false, selected: 0 }, Intent::Click(Point::new(3, 3)), &t, 3, &s);
    assert_eq!(effect, ModalEffect::Apply(Command::Ranged { target: Target::Actor(ActorId(4)), silver: false }));
    let (_, effect) =
        handle_modal(Modal::FireTarget { silver: false, selected: 0 }, Intent::Click(Point::new(9, 9)), &t, 3, &s);
    assert_eq!(effect, ModalEffect::Status("[Nothing to shoot there.]".to_owned()));
}

#[test]
fn a_menu_row_runs_its_action_or_explains_why_not() {
    let t = targets();
    let s = strings();
    let (next, _) = handle_modal(menu(2), Intent::Down, &t, 3, &s);
    assert_eq!(next, Some(menu(2)));
    let (next, effect) = handle_modal(menu(0), Intent::HoverRow(9), &t, 3, &s);
    assert_eq!(next, Some(menu(0)));
    assert_eq!(effect, ModalEffect::Nothing);
    let (next, effect) = handle_modal(menu(0), Intent::Confirm, &t, 3, &s);
    assert_eq!(next, None);
    assert_eq!(effect, ModalEffect::Apply(Command::Wait));
    let (_, effect) = handle_modal(menu(0), Intent::Select(1), &t, 3, &s);
    assert_eq!(effect, ModalEffect::Status("No workstation".to_owned()));
    let (_, effect) = handle_modal(menu(2), Intent::Interact, &t, 3, &s);
    assert_eq!(effect, ModalEffect::Nothing);
    let (next, _) = handle_modal(menu(1), Intent::Cancel, &t, 3, &s);
    assert_eq!(next, None);
}

#[test]
fn a_confirmation_goes_ahead_only_on_its_first_row() {
    let t = targets();
    let s = strings();
    let gate = |selected| Modal::Confirm {
        prompt: "Travel?".to_owned(),
        detail: None,
        command: Command::Travel,
        selected,
    };
    let (next, _) = handle_modal(gate(0), Intent::Down, &t, 3, &s);
    assert_eq!(next, Some(gate(1)));
    let (next, _) = handle_modal(gate(1), Intent::Down, &t, 3, &s);
    assert_eq!(next, Some(gate(1)));
    let (next, effect) = handle_modal(gate(0), Intent::Confirm, &t, 3, &s);
    assert_eq!(next, None);
    assert_eq!(effect, ModalEffect::ApplyNow(Command::Travel));
    let (_, effect) = handle_modal(gate(1), Intent::Confirm, &t, 3, &s);
    assert_eq!(effect, ModalEffect::Nothing);
    let (next, effect) = handle_modal(gate(1), Intent::Wait, &t, 3, &s);
    assert_eq!(next, Some(gate(1)));
    assert_eq!(effect, ModalEffect::Nothing);
}
