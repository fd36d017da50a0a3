use intention_field::agent_contribution::ContributionRoster;

/// A contribution as the aggregator stores it: an intention and a weight.
type Contribution = (Vec<f64>, f64);

fn contribution(dims: Vec<f64>, weight: f64) -> Contribution {
    (dims, weight)
}

#[test]
fn test_add_contribution() {
    let mut agg: ContributionRoster<Contribution> = ContributionRoster::new();
    agg.add(0, contribution(vec![1.0, 0.0], 1.0));
    assert_eq!(agg.len(), 1);
}

#[test]
fn test_replace_contribution() {
    let mut agg: ContributionRoster<Contribution> = ContributionRoster::new();
    agg.add(0, contribution(vec![1.0, 0.0], 1.0));
    agg.add(0, contribution(vec![0.0, 1.0], 2.0));
    assert_eq!(agg.len(), 1);
    assert!((agg.entries()[0].1 .1 - 2.0).abs() < 1e-10);
}

#[test]
fn test_remove_contribution() {
    let mut agg: ContributionRoster<Contribution> = ContributionRoster::new();
    agg.add(0, contribution(vec![1.0, 0.0], 1.0));
    agg.remove(0);
    assert!(agg.is_empty());
}

#[test]
fn roster_starts_empty() {
    let roster: ContributionRoster<u32> = ContributionRoster::new();
    assert!(roster.is_empty());
    assert_eq!(roster.len(), 0);
    assert!(roster.entries().is_empty());
}

#[test]
fn replacement_keeps_position_of_agent() {
    let mut roster: ContributionRoster<u32> = ContributionRoster::new();
    roster.add(7, 70);
    roster.add(3, 30);
    roster.add(9, 90);
    roster.add(3, 31);
    assert_eq!(roster.entries(), &vec![(7, 70), (3, 31), (9, 90)]);
}

#[test]
fn new_agents_are_appended_in_order() {
    let mut roster: ContributionRoster<u32> = ContributionRoster::new();
    roster.add(5, 1);
    roster.add(2, 2);
    roster.add(8, 3);
    assert_eq!(roster.entries(), &vec![(5, 1), (2, 2), (8, 3)]);
    assert_eq!(roster.len(), 3);
}

#[test]
fn later_contribution_wins() {
    let mut once: ContributionRoster<u32> = ContributionRoster::new();
    once.add(1, 10);
    once.add(4, 2);
    let mut twice: ContributionRoster<u32> = ContributionRoster::new();
    twice.add(1, 10);
    twice.add(4, 1);
    twice.add(4, 2);
    assert_eq!(once.entries(), twice.entries());
}

#[test]
fn remove_keeps_other_agents_in_order() {
    let mut roster: ContributionRoster<u32> = ContributionRoster::new();
    roster.add(1, 10);
    roster.add(2, 20);
    roster.add(3, 30);
    roster.remove(2);
    assert_eq!(roster.entries(), &vec![(1, 10), (3, 30)]);
    assert_eq!(roster.len(), 2);
}

#[test]
fn remove_of_absent_agent_changes_nothing() {
    let mut roster: ContributionRoster<u32> = ContributionRoster::new();
    roster.add(1, 10);
    roster.add(2, 20);
    roster.remove(5);
    assert_eq!(roster.entries(), &vec![(1, 10), (2, 20)]);
}

#[test]
fn remove_undoes_first_add() {
    let mut roster: ContributionRoster<u32> = ContributionRoster::new();
    roster.add(1, 10);
    roster.add(2, 20);
    let before = roster.entries().clone();
    roster.add(6, 60);
    roster.remove(6);
    assert_eq!(roster.entries(), &before);
}

#[test]
fn remove_then_add_appends_at_end() {
    let mut roster: ContributionRoster<u32> = ContributionRoster::new();
    roster.add(1, 10);
    roster.add(2, 20);
    roster.remove(1);
    roster.add(1, 11);
    assert_eq!(roster.entries(), &vec![(2, 20), (1, 11)]);
}

#[test]
fn clone_keeps_agents_and_contributions() {
    let mut roster: ContributionRoster<Contribution> = ContributionRoster::new();
    roster.add(4, contribution(vec![1.0, 2.0], 0.5));
    roster.add(1, contribution(vec![3.0], 2.0));
    let copy = roster.clone();
    assert_eq!(copy.entries(), roster.entries());
    assert_eq!(copy.len(), 2);
}
