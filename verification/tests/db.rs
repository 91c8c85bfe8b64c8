use xxfunc::db::{DbError, ModuleDatabase, ModuleRow};
use xxfunc::state::ModuleState;

const STATES: [ModuleState; 3] =
    [ModuleState::NotStarted, ModuleState::Started, ModuleState::Stopped];

fn row(id: i64, name: &str, binary: &[u8], state: ModuleState) -> ModuleRow {
    ModuleRow { id, name: name.to_string(), binary: binary.to_vec(), state }
}

#[test]
fn new_registry_is_empty() {
    let db = ModuleDatabase::new();
    assert_eq!(db.len(), 0);
    assert_eq!(db.last_id(), 0);
    for state in STATES {
        assert!(db.get_modules_by_state(state).is_empty());
    }
    assert_eq!(db.get(1), Err(DbError::NotFound));
    assert_eq!(db.id_of("a.wasm"), None);
    assert_eq!(db.state_of("a.wasm"), None);
}

#[test]
fn insert_hands_out_increasing_ids() {
    let mut db = ModuleDatabase::new();
    assert_eq!(db.insert("a.wasm", b"aa"), Ok(1));
    assert_eq!(db.insert("b.wasm", b"bb"), Ok(2));
    assert_eq!(db.insert("c.wasm", b""), Ok(3));
    assert_eq!(db.len(), 3);
    assert_eq!(db.last_id(), 3);
    assert_eq!(db.get(1), Ok(&b"aa"[..]));
    assert_eq!(db.get(2), Ok(&b"bb"[..]));
    assert_eq!(db.get(3), Ok(&b""[..]));
    assert_eq!(db.id_of("b.wasm"), Some(2));
}

#[test]
fn inserted_module_is_not_started() {
    let mut db = ModuleDatabase::new();
    assert_eq!(db.insert("a.wasm", b"aa"), Ok(1));
    assert_eq!(db.state_of("a.wasm"), Some(ModuleState::NotStarted));
    assert_eq!(db.get_modules_by_state(ModuleState::NotStarted), vec![1]);
    assert!(db.get_modules_by_state(ModuleState::Started).is_empty());
    assert!(db.get_modules_by_state(ModuleState::Stopped).is_empty());
}

#[test]
fn second_insert_of_a_name_is_refused() {
    let mut db = ModuleDatabase::new();
    assert_eq!(db.insert("a.wasm", b"first"), Ok(1));
    assert_eq!(db.insert("a.wasm", b"second"), Err(DbError::AlreadyExists));
    assert_eq!(db.len(), 1);
    assert_eq!(db.last_id(), 1);
    assert_eq!(db.get(1), Ok(&b"first"[..]));
    assert_eq!(db.insert("b.wasm", b"second"), Ok(2));
}

#[test]
fn empty_name_is_refused() {
    let mut db = ModuleDatabase::new();
    assert_eq!(db.insert("", b"x"), Err(DbError::EmptyName));
    assert_eq!(db.len(), 0);
    assert_eq!(db.last_id(), 0);
}

#[test]
fn get_of_unknown_id_is_not_found() {
    let mut db = ModuleDatabase::new();
    assert_eq!(db.insert("a.wasm", b"aa"), Ok(1));
    assert_eq!(db.get(0), Err(DbError::NotFound));
    assert_eq!(db.get(2), Err(DbError::NotFound));
    assert_eq!(db.get(-1), Err(DbError::NotFound));
}

#[test]
fn delete_removes_module_and_state() {
    let mut db = ModuleDatabase::new();
    db.insert("a.wasm", b"aa").unwrap();
    db.insert("b.wasm", b"bb").unwrap();
    db.set_state("a.wasm", ModuleState::Started).unwrap();
    db.set_state("b.wasm", ModuleState::Started).unwrap();
    assert_eq!(db.delete("a.wasm"), Ok(()));
    assert_eq!(db.len(), 1);
    assert_eq!(db.get(1), Err(DbError::NotFound));
    assert_eq!(db.id_of("a.wasm"), None);
    assert_eq!(db.state_of("a.wasm"), None);
    for state in STATES {
        assert!(!db.get_modules_by_state(state).contains(&1));
    }
    assert_eq!(db.get_modules_by_state(ModuleState::Started), vec![2]);
    assert_eq!(db.get(2), Ok(&b"bb"[..]));
}

#[test]
fn delete_of_unknown_name_is_not_found() {
    let mut db = ModuleDatabase::new();
    db.insert("a.wasm", b"aa").unwrap();
    assert_eq!(db.delete("b.wasm"), Err(DbError::NotFound));
    assert_eq!(db.delete(""), Err(DbError::NotFound));
    assert_eq!(db.len(), 1);
    assert_eq!(db.delete("a.wasm"), Ok(()));
    assert_eq!(db.delete("a.wasm"), Err(DbError::NotFound));
}

#[test]
fn ids_are_not_reused_after_delete() {
    let mut db = ModuleDatabase::new();
    assert_eq!(db.insert("m.wasm", b"old"), Ok(1));
    assert_eq!(db.delete("m.wasm"), Ok(()));
    assert_eq!(db.insert("m.wasm", b"new"), Ok(2));
    assert_eq!(db.get(1), Err(DbError::NotFound));
    assert_eq!(db.get(2), Ok(&b"new"[..]));
    assert_eq!(db.state_of("m.wasm"), Some(ModuleState::NotStarted));
}

#[test]
fn set_state_of_unknown_name_is_not_found() {
    let mut db = ModuleDatabase::new();
    db.insert("a.wasm", b"aa").unwrap();
    assert_eq!(db.set_state("b.wasm", ModuleState::Started), Err(DbError::NotFound));
    assert_eq!(db.state_of("a.wasm"), Some(ModuleState::NotStarted));
}

#[test]
fn state_round_trip_for_every_state() {
    for state in STATES {
        let mut db = ModuleDatabase::new();
        db.insert("other.wasm", b"o").unwrap();
        let id = db.insert("n.wasm", b"b").unwrap();
        assert_eq!(db.set_state("n.wasm", state), Ok(()));
        assert!(db.get_modules_by_state(state).contains(&id));
        for other in STATES {
            if other != state {
                assert!(!db.get_modules_by_state(other).contains(&id));
            }
        }
        assert_eq!(db.state_of("n.wasm"), Some(state));
    }
}

#[test]
fn state_round_trip_lists_exactly_the_new_id() {
    let mut db = ModuleDatabase::new();
    let id = db.insert("n.wasm", b"b").unwrap();
    db.set_state("n.wasm", ModuleState::Stopped).unwrap();
    assert_eq!(db.get_modules_by_state(ModuleState::Stopped), vec![id]);
    assert_eq!(db.get_modules_by_state(ModuleState::Started), Vec::<i64>::new());
    assert_eq!(db.get_modules_by_state(ModuleState::NotStarted), Vec::<i64>::new());
}

#[test]
fn stopping_twice_is_no_error() {
    let mut db = ModuleDatabase::new();
    db.insert("n.wasm", b"b").unwrap();
    db.set_state("n.wasm", ModuleState::Started).unwrap();
    assert_eq!(db.set_state("n.wasm", ModuleState::Stopped), Ok(()));
    assert_eq!(db.set_state("n.wasm", ModuleState::Stopped), Ok(()));
    assert_eq!(db.state_of("n.wasm"), Some(ModuleState::Stopped));
    assert_eq!(db.get_modules_by_state(ModuleState::Stopped), vec![1]);
    assert_eq!(db.len(), 1);
}

#[test]
fn listing_is_in_insertion_order() {
    let mut db = ModuleDatabase::new();
    for name in ["a", "b", "c", "d", "e"] {
        db.insert(name, name.as_bytes()).unwrap();
    }
    for name in ["e", "b", "d"] {
        db.set_state(name, ModuleState::Started).unwrap();
    }
    db.set_state("c", ModuleState::Stopped).unwrap();
    assert_eq!(db.get_modules_by_state(ModuleState::Started), vec![2, 4, 5]);
    assert_eq!(db.get_modules_by_state(ModuleState::Stopped), vec![3]);
    assert_eq!(db.get_modules_by_state(ModuleState::NotStarted), vec![1]);
    db.delete("d").unwrap();
    assert_eq!(db.get_modules_by_state(ModuleState::Started), vec![2, 5]);
}

#[test]
fn set_state_keeps_binary_and_id() {
    let mut db = ModuleDatabase::new();
    db.insert("a", b"aa").unwrap();
    db.insert("b", b"bb").unwrap();
    db.set_state("a", ModuleState::Started).unwrap();
    assert_eq!(db.id_of("a"), Some(1));
    assert_eq!(db.get(1), Ok(&b"aa"[..]));
    assert_eq!(db.state_of("b"), Some(ModuleState::NotStarted));
    let rows = db.rows();
    assert_eq!(rows.len(), 2);
    assert_eq!(rows[0].name, "a");
    assert_eq!(rows[0].state, ModuleState::Started);
    assert_eq!(rows[1].name, "b");
}

#[test]
fn restore_gives_the_registry_back() {
    let rows = vec![
        row(2, "a", b"aa", ModuleState::Started),
        row(5, "b", b"bb", ModuleState::Stopped),
    ];
    let mut db = ModuleDatabase::restore(rows, 7).expect("valid rows");
    assert_eq!(db.len(), 2);
    assert_eq!(db.last_id(), 7);
    assert_eq!(db.get(5), Ok(&b"bb"[..]));
    assert_eq!(db.state_of("a"), Some(ModuleState::Started));
    assert_eq!(db.insert("c", b"cc"), Ok(8));
    assert_eq!(db.insert("a", b"cc"), Err(DbError::AlreadyExists));
}

#[test]
fn restore_of_nothing_is_the_empty_registry() {
    let db = ModuleDatabase::restore(Vec::new(), 0).expect("valid rows");
    assert_eq!(db.len(), 0);
    assert!(ModuleDatabase::restore(Vec::new(), -1).is_none());
}

#[test]
fn restore_refuses_broken_rows() {
    let s = ModuleState::NotStarted;
    assert!(ModuleDatabase::restore(vec![row(0, "a", b"", s)], 3).is_none());
    assert!(ModuleDatabase::restore(vec![row(4, "a", b"", s)], 3).is_none());
    assert!(ModuleDatabase::restore(vec![row(1, "", b"", s)], 3).is_none());
    assert!(ModuleDatabase::restore(vec![row(2, "a", b"", s), row(1, "b", b"", s)], 3).is_none());
    assert!(ModuleDatabase::restore(vec![row(1, "a", b"", s), row(1, "b", b"", s)], 3).is_none());
    assert!(ModuleDatabase::restore(vec![row(1, "a", b"", s), row(2, "a", b"", s)], 3).is_none());
    assert!(ModuleDatabase::restore(
        vec![row(1, "a", b"", s), row(2, "b", b"", s), row(3, "a", b"", s)],
        3
    )
    .is_none());
    assert!(ModuleDatabase::restore(vec![row(1, "a", b"", s), row(2, "b", b"", s)], 2).is_some());
}

#[test]
fn insert_is_refused_when_ids_are_exhausted() {
    let rows = vec![row(i64::MAX, "last", b"", ModuleState::NotStarted)];
    let mut db = ModuleDatabase::restore(rows, i64::MAX).expect("valid rows");
    assert_eq!(db.insert("more", b""), Err(DbError::IdsExhausted));
    assert_eq!(db.insert("last", b""), Err(DbError::AlreadyExists));
    assert_eq!(db.insert("", b""), Err(DbError::EmptyName));
    assert_eq!(db.len(), 1);
    let mut db = ModuleDatabase::restore(Vec::new(), i64::MAX - 1).expect("valid rows");
    assert_eq!(db.insert("more", b""), Ok(i64::MAX));
}

#[test]
fn names_are_compared_exactly() {
    let mut db = ModuleDatabase::new();
    assert_eq!(db.insert("a.wasm", b""), Ok(1));
    assert_eq!(db.insert("A.wasm", b""), Ok(2));
    assert_eq!(db.insert("a.wasm ", b""), Ok(3));
    assert_eq!(db.id_of("a.wasm"), Some(1));
    assert_eq!(db.id_of("a.was"), None);
}
