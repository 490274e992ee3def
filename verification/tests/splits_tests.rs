use std::collections::BTreeSet;
use timebay::messages::DetectionMessage;
use timebay::splits::Sector;
use timebay::splits::SectorState;
use timebay::splits::Splits;
use timebay::timing::TimeSpan;
use timebay::timing::TimeStamp;

#[test]
fn sectors_are_correct() {
    let splits = Splits::new(BTreeSet::from_iter(1u16..=3));

    assert_eq!(
        splits.sectors,
        vec![Sector::new(1, 2), Sector::new(2, 3), Sector::new(3, 1)]
    );

    // Out of order
    let splits = Splits::new(BTreeSet::from_iter([4, 3, 7, 2].into_iter()));

    assert_eq!(
        splits.sectors,
        vec![
            Sector::new(2, 3),
            Sector::new(3, 4),
            Sector::new(4, 7),
            Sector::new(7, 2)
        ]
    );

    // Single node
    let splits = Splits::new(BTreeSet::from_iter([1].into_iter()));

    assert_eq!(splits.sectors, vec![Sector::new(1, 1)]);
}

#[test]
fn trigger_handling_works() {
    let mut splits = Splits::new(BTreeSet::from_iter(1u16..=3));

    assert_eq!(splits.get_sector_containing(3).unwrap(), 1);

    // Only first node starts run
    assert!(splits
        .handle_node_trigger(DetectionMessage::new(0, 10, 1, 0))
        .is_not_started());
    assert!(splits
        .handle_node_trigger(DetectionMessage::new(2, 10, 1, 0))
        .is_not_started());
    assert!(splits
        .handle_node_trigger(DetectionMessage::new(1, 10, 1, 0))
        .is_running());

    // Trigger the 3rd node, invalidating 1-2 and 2-3, leaving us in the last sector of 3-1
    assert!(splits
        .handle_node_trigger(DetectionMessage::new(3, 10, 2, 0))
        .is_running());
    assert!(splits.sectors[0].state.is_invalidated());
    assert!(splits.sectors[1].state.is_invalidated());
    assert!(splits.sectors[2].state.is_incomplete());
    assert_eq!(splits.current_sector, 2);

    // Trigger old node to ensure old nodes are still ignored even when on last node
    assert!(splits
        .handle_node_trigger(DetectionMessage::new(3, 10, 2, 0))
        .is_running());
    assert_eq!(splits.current_sector, 2);
    assert!(splits
        .handle_node_trigger(DetectionMessage::new(2, 10, 2, 0))
        .is_running());
    assert_eq!(splits.current_sector, 2);

    // Finish run
    assert!(splits
        .handle_node_trigger(DetectionMessage::new(1, 11, 3, 0))
        .is_completed());

    assert_eq!(splits.get_total_time().unwrap(), TimeSpan::from_secs(2));

    assert_eq!(
        splits.get_sector_times(),
        vec![None, None, Some(TimeSpan::from_secs(2))]
    );
}

#[test]
fn splits_sectors_are_correct() {
    let splits = Splits::new(BTreeSet::from_iter(1u16..=3));

    assert_eq!(
        splits.sectors,
        vec![Sector::new(1, 2), Sector::new(2, 3), Sector::new(3, 1)]
    );

    // Out of order
    let splits = Splits::new(BTreeSet::from_iter([4, 3, 7, 2].into_iter()));

    assert_eq!(
        splits.sectors,
        vec![
            Sector::new(2, 3),
            Sector::new(3, 4),
            Sector::new(4, 7),
            Sector::new(7, 2)
        ]
    );

    // Single node
    let splits = Splits::new(BTreeSet::from_iter([1].into_iter()));

    assert_eq!(splits.sectors, vec![Sector::new(1, 1)]);
}

#[test]
fn splits_trigger_handling_works() {
    let mut splits = Splits::new(BTreeSet::from_iter(1u16..=2));

    assert!(splits.connect_node(3));

    assert_eq!(splits.get_sector_containing(3).unwrap(), 1);

    // Only first node starts run
    assert!(splits
        .handle_node_trigger(DetectionMessage::new(0, 10, 1, 0))
        .is_not_started());
    assert!(splits
        .handle_node_trigger(DetectionMessage::new(2, 10, 1, 0))
        .is_not_started());
    assert!(splits
        .handle_node_trigger(DetectionMessage::new(1, 10, 1, 0))
        .is_running());

    assert!(!splits.connect_node(4));

    // Trigger the 3rd node, invalidating 1-2 and 2-3, leaving us in the last sector of 3-1
    assert!(splits
        .handle_node_trigger(DetectionMessage::new(3, 10, 2, 0))
        .is_running());
    assert!(splits.sectors[0].state.is_invalidated());
    assert!(splits.sectors[1].state.is_invalidated());
    assert!(splits.sectors[2].state.is_incomplete());
    assert_eq!(splits.current_sector, 2);

    // Trigger old node to ensure old nodes are still ignored even when on last node
    assert!(splits
        .handle_node_trigger(DetectionMessage::new(3, 10, 2, 0))
        .is_running());
    assert_eq!(splits.current_sector, 2);
    assert!(splits
        .handle_node_trigger(DetectionMessage::new(2, 10, 2, 0))
        .is_running());
    assert_eq!(splits.current_sector, 2);

    // Finish run
    assert!(splits
        .handle_node_trigger(DetectionMessage::new(1, 11, 3, 0))
        .is_completed());

    assert_eq!(splits.get_total_time().unwrap(), TimeSpan::from_secs(2));

    assert_eq!(
        splits.get_sector_times(),
        vec![None, None, Some(TimeSpan::from_secs(2))]
    );
}

#[test]
fn invalidation_seed_scenario() {
    let mut splits = Splits::new(BTreeSet::from_iter(1u16..=3));

    splits.handle_node_trigger(DetectionMessage::new(0, 10, 1, 0));
    splits.handle_node_trigger(DetectionMessage::new(2, 10, 1, 0));
    splits.handle_node_trigger(DetectionMessage::new(1, 10, 1, 0));
    splits.handle_node_trigger(DetectionMessage::new(3, 10, 2, 0));
    splits.handle_node_trigger(DetectionMessage::new(3, 10, 2, 0));
    splits.handle_node_trigger(DetectionMessage::new(2, 10, 2, 0));
    let end = splits.handle_node_trigger(DetectionMessage::new(1, 10, 3, 0));

    assert_eq!(
        end,
        timebay::splits::SplitState::Completed(TimeStamp::new(1, 0), TimeStamp::new(3, 0))
    );
    assert_eq!(splits.sectors[0].state, SectorState::Invalidated);
    assert_eq!(splits.sectors[1].state, SectorState::Invalidated);
    assert_eq!(
        splits.sectors[2].state,
        SectorState::Complete(TimeStamp::new(3, 0))
    );
    assert_eq!(splits.get_total_time(), Some(TimeSpan::from_secs(2)));
    assert_eq!(
        splits.get_sector_times(),
        vec![None, None, Some(TimeSpan::from_secs(2))]
    );
}

#[test]
fn single_sensor_lap() {
    let mut splits = Splits::new(BTreeSet::from_iter([5u16].into_iter()));
    assert_eq!(splits.sectors, vec![Sector::new(5, 5)]);

    assert!(splits
        .handle_node_trigger(DetectionMessage::new(5, 10, 4, 0))
        .is_running());
    // the second trigger on the same gate completes the wrap sector
    assert!(splits
        .handle_node_trigger(DetectionMessage::new(5, 10, 9, 0))
        .is_completed());
    assert_eq!(splits.get_total_time(), Some(TimeSpan::from_secs(5)));
}

#[test]
fn membership_changes_only_before_start() {
    let mut splits = Splits::new(BTreeSet::new());
    assert!(splits.connect_node(2));
    assert!(splits.connect_node(1));
    assert_eq!(splits.sectors, vec![Sector::new(1, 2), Sector::new(2, 1)]);

    assert!(splits.disconnect_node(2));
    assert_eq!(splits.sectors, vec![Sector::new(1, 1)]);

    // start the lap; membership is now frozen
    assert!(splits
        .handle_node_trigger(DetectionMessage::new(1, 10, 1, 0))
        .is_running());
    assert!(!splits.connect_node(9));
    assert!(!splits.disconnect_node(1));
    assert_eq!(splits.sectors, vec![Sector::new(1, 1)]);
}

#[test]
fn clock_rollback_yields_no_time() {
    let mut splits = Splits::new(BTreeSet::from_iter([1u16, 2].into_iter()));
    splits.handle_node_trigger(DetectionMessage::new(1, 10, 10, 0));
    splits.handle_node_trigger(DetectionMessage::new(2, 10, 4, 0));
    let end = splits.handle_node_trigger(DetectionMessage::new(1, 10, 3, 0));
    assert!(end.is_completed());
    // the publisher's clock went backwards: no usable durations
    assert_eq!(splits.get_total_time(), None);
    assert_eq!(splits.get_sector_times(), vec![None, None]);
}

#[test]
fn diffs_are_padded_to_our_sectors() {
    // previous lap over two nodes, completed
    let mut last = Splits::new(BTreeSet::from_iter([1u16, 2].into_iter()));
    last.handle_node_trigger(DetectionMessage::new(1, 10, 0, 0));
    last.handle_node_trigger(DetectionMessage::new(2, 10, 10, 0));
    last.handle_node_trigger(DetectionMessage::new(1, 10, 21, 0));

    // current lap over three nodes, completed with different times
    let mut cur = Splits::new(BTreeSet::from_iter(1u16..=3));
    cur.handle_node_trigger(DetectionMessage::new(1, 10, 0, 0));
    cur.handle_node_trigger(DetectionMessage::new(2, 10, 11, 0));
    cur.handle_node_trigger(DetectionMessage::new(3, 10, 20, 0));
    cur.handle_node_trigger(DetectionMessage::new(1, 10, 30, 0));

    // padded to the current lap's three sectors; the first sector took
    // 11 s here against 10 s before
    let diffs = cur.get_diffs(&last);
    assert_eq!(diffs.len(), 3);
    assert_eq!(diffs[0], Some(1000));
    assert_eq!(diffs[1], Some(-2000));
    assert_eq!(diffs[2], None);

    // the other way around, the shorter lap pads to its own length
    let diffs = last.get_diffs(&cur);
    assert_eq!(diffs.len(), 2);
    assert_eq!(diffs[0], Some(-1000));
    assert_eq!(diffs[1], Some(2000));
}
