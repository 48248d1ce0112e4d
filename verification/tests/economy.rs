use rogue_hunter::economy::{clock_restore, opportunity_cost, ClockReason};
use rogue_hunter::schema::PoolKind;

#[test]
fn hostility_surcharges_social_work_only() {
    assert_eq!(opportunity_cost(Some(PoolKind::Social), 1, true), Some((PoolKind::Social, 2)));
    assert_eq!(opportunity_cost(Some(PoolKind::Social), 1, false), Some((PoolKind::Social, 1)));
    assert_eq!(opportunity_cost(Some(PoolKind::Lore), 1, true), Some((PoolKind::Lore, 1)));
}

#[test]
fn free_interactions_stay_free() {
    assert_eq!(opportunity_cost(None, 0, true), None);
    assert_eq!(opportunity_cost(Some(PoolKind::Social), 0, true), Some((PoolKind::Social, 0)));
}

#[test]
fn only_travel_restores_the_investigation_pools() {
    let travel = clock_restore(ClockReason::Travel);
    assert!(travel.physical && travel.investigation_pools);
    for reason in [ClockReason::Death, ClockReason::CostlyAction] {
        let restore = clock_restore(reason);
        assert!(restore.physical);
        assert!(!restore.investigation_pools);
    }
}
