use bench_king_sleeper::demand::slot_demands;
use bench_king_sleeper::lineup::{assign, LineupAssignment, ScoredPlayer, SlotDemand};
use bench_king_sleeper::models::positions::{PositionKind, RosterPosition};

fn player(id: &str, positions: Vec<PositionKind>, points: i64) -> ScoredPlayer {
    ScoredPlayer { player_id: id.to_string(), positions, points }
}

fn ids(lineup: &LineupAssignment, k: usize) -> Vec<String> {
    lineup.slots[k].player_ids.clone()
}

#[test]
fn narrow_slot_then_flex() {
    let demands = vec![
        SlotDemand { slot: RosterPosition::QB, count: 1 },
        SlotDemand { slot: RosterPosition::FLEX, count: 1 },
    ];
    let players = vec![
        player("P1", vec![PositionKind::QB], 1000),
        player("P2", vec![PositionKind::WR], 800),
        player("P3", vec![PositionKind::RB], 1200),
    ];
    let lineup = assign(&demands, &players);
    assert_eq!(lineup.slots.len(), 2);
    assert_eq!(lineup.slots[0].slot, RosterPosition::QB);
    assert_eq!(ids(&lineup, 0), vec!["P1"]);
    assert_eq!(lineup.slots[1].slot, RosterPosition::FLEX);
    assert_eq!(ids(&lineup, 1), vec!["P3"]);
    assert_eq!(lineup.total, 2200);
}

#[test]
fn narrow_slot_then_flex_from_template() {
    let template = vec![RosterPosition::FLEX, RosterPosition::QB, RosterPosition::BN];
    let demands = slot_demands(&template);
    assert_eq!(
        demands,
        vec![
            SlotDemand { slot: RosterPosition::QB, count: 1 },
            SlotDemand { slot: RosterPosition::FLEX, count: 1 },
        ]
    );
    let players = vec![
        player("P1", vec![PositionKind::QB], 1000),
        player("P2", vec![PositionKind::WR], 800),
        player("P3", vec![PositionKind::RB], 1200),
    ];
    let lineup = assign(&demands, &players);
    assert_eq!(ids(&lineup, 0), vec!["P1"]);
    assert_eq!(ids(&lineup, 1), vec!["P3"]);
    assert_eq!(lineup.total, 2200);
}

#[test]
fn insufficient_players_leave_slot_open() {
    let demands = vec![SlotDemand { slot: RosterPosition::RB, count: 2 }];
    let players = vec![player("P1", vec![PositionKind::RB], 500)];
    let lineup = assign(&demands, &players);
    assert_eq!(lineup.slots.len(), 1);
    assert_eq!(ids(&lineup, 0), vec!["P1"]);
    assert_eq!(lineup.total, 500);
}

#[test]
fn no_player_in_two_slots() {
    let demands = vec![
        SlotDemand { slot: RosterPosition::WR, count: 2 },
        SlotDemand { slot: RosterPosition::WRRB_FLEX, count: 2 },
        SlotDemand { slot: RosterPosition::FLEX, count: 2 },
    ];
    let players = vec![
        player("A", vec![PositionKind::WR], 900),
        player("B", vec![PositionKind::WR, PositionKind::RB], 700),
        player("C", vec![PositionKind::RB], 650),
        player("D", vec![PositionKind::TE], 300),
        player("A", vec![PositionKind::WR], 900),
    ];
    let lineup = assign(&demands, &players);
    let mut all: Vec<String> = Vec::new();
    for s in &lineup.slots {
        all.extend(s.player_ids.iter().cloned());
    }
    let mut dedup = all.clone();
    dedup.sort();
    dedup.dedup();
    assert_eq!(all.len(), dedup.len());
    assert_eq!(ids(&lineup, 0), vec!["A", "B"]);
    assert_eq!(ids(&lineup, 1), vec!["C"]);
    assert_eq!(ids(&lineup, 2), vec!["D"]);
    assert_eq!(lineup.total, 900 + 700 + 650 + 300);
}

#[test]
fn total_is_sum_of_assigned_points() {
    let demands = vec![
        SlotDemand { slot: RosterPosition::QB, count: 1 },
        SlotDemand { slot: RosterPosition::RB, count: 2 },
        SlotDemand { slot: RosterPosition::FLEX, count: 1 },
    ];
    let players = vec![
        player("q", vec![PositionKind::QB], 1834),
        player("r1", vec![PositionKind::RB], -150),
        player("r2", vec![PositionKind::RB], 1021),
        player("r3", vec![PositionKind::RB], 77),
        player("t", vec![PositionKind::TE], 640),
    ];
    let lineup = assign(&demands, &players);
    let mut sum = 0i64;
    for s in &lineup.slots {
        for id in &s.player_ids {
            sum += players.iter().find(|p| &p.player_id == id).unwrap().points;
        }
    }
    assert_eq!(lineup.total, sum);
    assert_eq!(lineup.total, 1834 + 1021 + 77 + 640);
}

#[test]
fn assign_is_deterministic_with_ties() {
    let demands = vec![SlotDemand { slot: RosterPosition::WR, count: 1 }];
    let players = vec![
        player("first", vec![PositionKind::WR], 500),
        player("second", vec![PositionKind::WR], 500),
    ];
    let a = assign(&demands, &players);
    let b = assign(&demands, &players);
    assert_eq!(ids(&a, 0), vec!["first"]);
    assert_eq!(ids(&a, 0), ids(&b, 0));
    assert_eq!(a.total, b.total);
}

#[test]
fn adding_a_better_player_does_not_lower_total() {
    let demands = vec![
        SlotDemand { slot: RosterPosition::RB, count: 1 },
        SlotDemand { slot: RosterPosition::FLEX, count: 1 },
    ];
    let mut players = vec![
        player("r", vec![PositionKind::RB], 800),
        player("w", vec![PositionKind::WR], 300),
    ];
    let before = assign(&demands, &players).total;
    players.push(player("x", vec![PositionKind::RB], 900));
    let after = assign(&demands, &players).total;
    assert_eq!(before, 1100);
    assert_eq!(after, 1700);
    assert!(after >= before);
}

#[test]
fn bench_slots_are_not_demanded() {
    let template = vec![RosterPosition::BN, RosterPosition::BN];
    assert!(slot_demands(&template).is_empty());
}

#[test]
fn demands_ordered_by_selectivity_then_first_occurrence() {
    let template = vec![
        RosterPosition::FLEX,
        RosterPosition::WR,
        RosterPosition::BN,
        RosterPosition::QB,
        RosterPosition::WRRB_FLEX,
        RosterPosition::WR,
        RosterPosition::RB,
        RosterPosition::RB,
        RosterPosition::FLEX,
    ];
    let demands = slot_demands(&template);
    assert_eq!(
        demands,
        vec![
            SlotDemand { slot: RosterPosition::WR, count: 2 },
            SlotDemand { slot: RosterPosition::QB, count: 1 },
            SlotDemand { slot: RosterPosition::RB, count: 2 },
            SlotDemand { slot: RosterPosition::WRRB_FLEX, count: 1 },
            SlotDemand { slot: RosterPosition::FLEX, count: 2 },
        ]
    );
}

#[test]
fn narrow_slot_takes_constrained_player_before_flex() {
    let template = vec![RosterPosition::FLEX, RosterPosition::TE];
    let demands = slot_demands(&template);
    let players = vec![
        player("te", vec![PositionKind::TE], 1500),
        player("wr", vec![PositionKind::WR], 200),
    ];
    let lineup = assign(&demands, &players);
    assert_eq!(lineup.slots[0].slot, RosterPosition::TE);
    assert_eq!(ids(&lineup, 0), vec!["te"]);
    assert_eq!(ids(&lineup, 1), vec!["wr"]);
    assert_eq!(lineup.total, 1700);
}

#[test]
fn empty_inputs_give_empty_lineup() {
    let lineup = assign(&Vec::new(), &Vec::new());
    assert!(lineup.slots.is_empty());
    assert_eq!(lineup.total, 0);
    let demands = vec![SlotDemand { slot: RosterPosition::K, count: 1 }];
    let lineup = assign(&demands, &Vec::new());
    assert!(lineup.slots[0].player_ids.is_empty());
    assert_eq!(lineup.total, 0);
}

#[test]
fn ineligible_players_are_skipped() {
    let demands = vec![SlotDemand { slot: RosterPosition::K, count: 1 }];
    let players = vec![player("q", vec![PositionKind::QB], 3000), player("k", vec![PositionKind::K], 900)];
    let lineup = assign(&demands, &players);
    assert_eq!(ids(&lineup, 0), vec!["k"]);
    assert_eq!(lineup.total, 900);
}

#[test]
fn slot_values_and_labels() {
    assert_eq!(RosterPosition::FLEX.value(), vec!["WR", "RB", "TE"]);
    assert_eq!(RosterPosition::WRRB_FLEX.value(), vec!["WR", "RB"]);
    assert_eq!(RosterPosition::KP.value(), vec!["K/P"]);
    assert_eq!(RosterPosition::BN.value(), vec!["BN"]);
    assert!(RosterPosition::BN.eligible_positions().is_empty());
    assert_eq!(RosterPosition::FLEX.selectivity(), 3);
    assert!(RosterPosition::FLEX.accepts(PositionKind::TE));
    assert!(!RosterPosition::WRRB_FLEX.accepts(PositionKind::TE));
    assert_eq!(PositionKind::DEF.label(), "DEF");
}
