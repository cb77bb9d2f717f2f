use rinputer::codes::{
    ABS_HAT0X, ABS_HAT0Y, ABS_RZ, ABS_X, ABS_Z, BTN_DPAD_DOWN, BTN_DPAD_LEFT, BTN_DPAD_RIGHT,
    BTN_DPAD_UP, BTN_EAST, BTN_NORTH, BTN_SOUTH, BTN_TL2, BTN_TR2,
};
use rinputer::{InputRemap, RemapTable};

fn defaults() -> Vec<(InputRemap, InputRemap)> {
    vec![
        (InputRemap::Key(BTN_DPAD_UP), InputRemap::Abs(ABS_HAT0Y, -1)),
        (InputRemap::Key(BTN_DPAD_DOWN), InputRemap::Abs(ABS_HAT0Y, 1)),
        (InputRemap::Key(BTN_DPAD_LEFT), InputRemap::Abs(ABS_HAT0X, -1)),
        (InputRemap::Key(BTN_DPAD_RIGHT), InputRemap::Abs(ABS_HAT0X, 1)),
        (InputRemap::Key(BTN_TL2), InputRemap::Abs(ABS_Z, 256)),
        (InputRemap::Key(BTN_TR2), InputRemap::Abs(ABS_RZ, 256)),
    ]
}

fn holds(list: &[(InputRemap, InputRemap)], entry: &(InputRemap, InputRemap)) -> bool {
    list.iter().filter(|e| e.0.same(&entry.0) && e.1.same(&entry.1)).count() == 1
}

fn holds_exactly(table: &RemapTable, expected: &[(InputRemap, InputRemap)]) {
    let snapshot = table.snapshot();
    assert_eq!(snapshot.len(), expected.len());
    assert_eq!(table.len(), expected.len());
    for entry in expected {
        assert!(holds(&snapshot, entry), "missing {:?}", entry);
    }
}

#[test]
fn new_table_holds_the_six_defaults() {
    let table = RemapTable::new();
    assert_eq!(table.len(), 6);
    holds_exactly(&table, &defaults());
}

#[test]
fn empty_table_holds_nothing() {
    let table = RemapTable::empty();
    assert_eq!(table.len(), 0);
    assert!(table.snapshot().is_empty());
    assert!(table.get(&InputRemap::Key(BTN_DPAD_UP)).is_none());
}

#[test]
fn lookup_finds_default_targets() {
    let table = RemapTable::new();
    for (from, to) in defaults() {
        let target = table.get(&from).unwrap();
        assert!(target.same(&to));
        let (stored, target) = table.get_key_value(&from).unwrap();
        assert!(stored.same(&from));
        assert!(target.same(&to));
    }
    assert!(table.get(&InputRemap::Key(BTN_SOUTH)).is_none());
    assert!(table.get_key_value(&InputRemap::Abs(ABS_Z, 256)).is_none());
    assert!(table.get(&InputRemap::SteamQuickAccess).is_none());
}

#[test]
fn upsert_adds_new_source() {
    let mut table = RemapTable::empty();
    table.upsert(InputRemap::Key(BTN_SOUTH), InputRemap::Key(BTN_EAST));
    assert_eq!(table.len(), 1);
    assert!(table.get(&InputRemap::Key(BTN_SOUTH)).unwrap().same(&InputRemap::Key(BTN_EAST)));
    assert!(table.get(&InputRemap::Key(BTN_EAST)).is_none());
}

#[test]
fn upsert_replaces_target_of_known_source() {
    let mut table = RemapTable::new();
    table.upsert(InputRemap::Key(BTN_DPAD_UP), InputRemap::Key(BTN_NORTH));
    assert_eq!(table.len(), 6);
    assert!(table.get(&InputRemap::Key(BTN_DPAD_UP)).unwrap().same(&InputRemap::Key(BTN_NORTH)));
    assert!(table
        .get(&InputRemap::Key(BTN_DPAD_DOWN))
        .unwrap()
        .same(&InputRemap::Abs(ABS_HAT0Y, 1)));
}

#[test]
fn upsert_in_same_bucket_keeps_first_threshold() {
    let mut table = RemapTable::empty();
    table.upsert(InputRemap::Abs(ABS_Z, 256), InputRemap::Key(BTN_SOUTH));
    table.upsert(InputRemap::Abs(ABS_Z, 10), InputRemap::Key(BTN_EAST));
    assert_eq!(table.len(), 1);
    let (stored, target) = table.get_key_value(&InputRemap::Abs(ABS_Z, 1)).unwrap();
    assert!(stored.same(&InputRemap::Abs(ABS_Z, 256)));
    assert!(target.same(&InputRemap::Key(BTN_EAST)));
}

#[test]
fn axis_sources_are_kept_by_sign() {
    let mut table = RemapTable::empty();
    table.upsert(InputRemap::Abs(ABS_X, 100), InputRemap::Key(BTN_EAST));
    table.upsert(InputRemap::Abs(ABS_X, -100), InputRemap::Key(BTN_SOUTH));
    table.upsert(InputRemap::Abs(ABS_X, 0), InputRemap::Key(BTN_NORTH));
    assert_eq!(table.len(), 3);
    assert!(table.get(&InputRemap::Abs(ABS_X, 1)).unwrap().same(&InputRemap::Key(BTN_EAST)));
    assert!(table.get(&InputRemap::Abs(ABS_X, i32::MAX)).unwrap().same(&InputRemap::Key(BTN_EAST)));
    assert!(table.get(&InputRemap::Abs(ABS_X, -1)).unwrap().same(&InputRemap::Key(BTN_SOUTH)));
    assert!(table.get(&InputRemap::Abs(ABS_X, 0)).unwrap().same(&InputRemap::Key(BTN_NORTH)));
    assert!(table.get(&InputRemap::Abs(ABS_Z, 1)).is_none());
}

#[test]
fn reset_restores_the_six_defaults() {
    let mut table = RemapTable::new();
    table.upsert(InputRemap::Key(BTN_SOUTH), InputRemap::Key(BTN_EAST));
    table.reset();
    holds_exactly(&table, &defaults());

    table.upsert(InputRemap::Key(BTN_DPAD_UP), InputRemap::SteamQuickAccess);
    table.upsert(InputRemap::Abs(ABS_X, 5), InputRemap::Abs(ABS_Z, 255));
    table.upsert(InputRemap::SteamQuickAccess, InputRemap::Key(BTN_SOUTH));
    table.upsert(InputRemap::Key(BTN_TL2), InputRemap::Key(BTN_EAST));
    assert_eq!(table.len(), 8);
    table.reset();
    holds_exactly(&table, &defaults());

    table.reset();
    holds_exactly(&table, &defaults());
}

#[test]
fn reset_of_empty_table_gives_defaults() {
    let mut table = RemapTable::empty();
    table.reset();
    holds_exactly(&table, &defaults());
}

#[test]
fn snapshot_after_two_new_sources_lists_defaults_and_both() {
    let mut table = RemapTable::new();
    table.upsert(InputRemap::Key(BTN_SOUTH), InputRemap::Key(BTN_EAST));
    table.upsert(InputRemap::Abs(ABS_X, 100), InputRemap::Key(BTN_NORTH));
    let mut expected = defaults();
    expected.push((InputRemap::Key(BTN_SOUTH), InputRemap::Key(BTN_EAST)));
    expected.push((InputRemap::Abs(ABS_X, 100), InputRemap::Key(BTN_NORTH)));
    assert_eq!(expected.len(), 8);
    holds_exactly(&table, &expected);
    let snapshot = table.snapshot();
    for (i, a) in snapshot.iter().enumerate() {
        for b in &snapshot[i + 1..] {
            assert!(a.0 != b.0);
        }
    }
}

#[test]
fn snapshot_leaves_table_unchanged() {
    let mut table = RemapTable::new();
    table.upsert(InputRemap::Key(BTN_SOUTH), InputRemap::Key(BTN_EAST));
    let first = table.snapshot();
    let second = table.snapshot();
    assert_eq!(first.len(), 7);
    assert_eq!(second.len(), 7);
    for entry in &first {
        assert!(holds(&second, entry));
    }
    assert_eq!(table.len(), 7);
}
