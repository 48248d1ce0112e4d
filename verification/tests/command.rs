use rogue_hunter::command::Rejection;
use rogue_hunter::schema::PoolKind;

#[test]
fn rejections_explain_themselves() {
    assert_eq!(Rejection::RunOver.message(), "The run is over.");
    assert_eq!(
        Rejection::PoolEmpty { pool: PoolKind::Social, needed: 2 }.message(),
        "That needs 2 Social point(s) you do not have right now. Travel restores your pools."
    );
    assert_eq!(
        Rejection::NeedMoreIdentityClues { have: 1, need: 2 }.message(),
        "You have 1 of the 2 corroborating proofs a hunt demands."
    );
    assert_eq!(Rejection::Blocked { what: "a barred door".to_owned() }.message(), "The way is blocked by a barred door.");
    assert_eq!(Rejection::UnknownAbility { id: "fly".to_owned() }.message(), "You know no ability called 'fly'.");
    assert_eq!(Rejection::NotEnoughCoin { needed: 10 }.message(), "That costs 10 coin.");
}
