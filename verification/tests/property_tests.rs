use todo_store::codec::{decode_record, encode_record};
use todo_store::driver::Db;
use todo_store::errors::DbError;
use todo_store::models::Todo;

fn fresh_path(name: &str) -> String {
    let tick = std::time::SystemTime::now()
        .duration_since(std::time::UNIX_EPOCH)
        .unwrap()
        .as_nanos();
    format!("/tmp/todo_store_prop_{}_{}", name, tick)
}

#[test]
fn round_trip_deep_equals() {
    let path = fresh_path("round_trip");
    let mut db = Db::new_with_path(&path).unwrap();
    let todo = Todo {
        id: 42,
        title: "buy milk".to_string(),
        completed: true,
    };
    db.insert("todo:42", &todo).unwrap();
    let got = db.get("todo:42").unwrap().unwrap();
    assert_eq!(got, todo);
}

#[test]
fn codec_round_trip() {
    let todo = Todo {
        id: 7,
        title: "title with spaces".to_string(),
        completed: false,
    };
    let bytes = encode_record(&todo).unwrap();
    let back = decode_record(&bytes).unwrap();
    assert_eq!(back, todo);
}

#[test]
fn codec_exact_layout() {
    // Varint id, varint title length, title bytes, one flag byte.
    let todo = Todo {
        id: 1,
        title: "ab".to_string(),
        completed: false,
    };
    let bytes = encode_record(&todo).unwrap();
    assert_eq!(bytes, vec![1, 2, 97, 98, 0]);
}

#[test]
fn decode_error_on_garbage() {
    let garbage: Vec<u8> = vec![251, 255, 255, 255];
    let r = decode_record(&garbage);
    assert_eq!(r, Err(DbError::Decode));
}

#[test]
fn remove_absent_key_is_ok() {
    let path = fresh_path("remove_absent");
    let mut db = Db::new_with_path(&path).unwrap();
    db.remove("never inserted").unwrap();
    assert!(db.get("never inserted").unwrap().is_none());
}

#[test]
fn remove_twice_same_as_once() {
    let path = fresh_path("remove_twice");
    let mut db = Db::new_with_path(&path).unwrap();
    let todo = Todo {
        id: 0,
        title: "gone".to_string(),
        completed: false,
    };
    db.insert("k", &todo).unwrap();
    db.remove("k").unwrap();
    db.remove("k").unwrap();
    assert!(db.get("k").unwrap().is_none());
    assert_eq!(db.iter().len(), 0);
}

#[test]
fn next_id_strictly_increasing_from_zero() {
    let path = fresh_path("next_id_chain");
    let mut db = Db::new_with_path(&path).unwrap();
    let mut ids: Vec<u64> = Vec::new();
    for _ in 0..5 {
        ids.push(db.next_id().unwrap());
    }
    assert_eq!(ids[0], 0);
    for w in ids.windows(2) {
        assert!(w[0] < w[1]);
    }
}

#[test]
fn iter_on_empty_store_is_empty() {
    let path = fresh_path("iter_empty");
    let db = Db::new_with_path(&path).unwrap();
    assert_eq!(db.iter().len(), 0);
}

#[test]
fn iter_prefix_superset_contains_both() {
    let path = fresh_path("prefix_superset");
    let mut db = Db::new_with_path(&path).unwrap();
    let a = Todo {
        id: 0,
        title: "test".to_string(),
        completed: false,
    };
    let b = Todo {
        id: 1,
        title: "test2".to_string(),
        completed: false,
    };
    db.insert("test", &a).unwrap();
    db.insert("test2", &b).unwrap();
    let entries: Vec<(String, Todo)> = db
        .iter_prefix("test")
        .into_iter()
        .map(|e| e.unwrap())
        .collect();
    assert_eq!(entries.len(), 2);
    assert_eq!(entries[0].0, "test");
    assert_eq!(entries[1].0, "test2");
}

#[test]
fn scenario_two_records_under_prefix() {
    let path = fresh_path("scenario");
    let mut db = Db::new_with_path(&path).unwrap();
    db.insert("test", &Todo::new(0, "test".to_string())).unwrap();
    db.insert("test2", &Todo::new(1, "test2".to_string())).unwrap();
    let entries: Vec<(String, Todo)> = db
        .iter_prefix("test")
        .into_iter()
        .map(|e| e.unwrap())
        .collect();
    let expected = vec![
        (
            "test".to_string(),
            Todo {
                id: 0,
                title: "test".to_string(),
                completed: false,
            },
        ),
        (
            "test2".to_string(),
            Todo {
                id: 1,
                title: "test2".to_string(),
                completed: false,
            },
        ),
    ];
    assert_eq!(entries, expected);
}

#[test]
fn reopen_keeps_records_and_id_floor() {
    let path = fresh_path("reopen");
    let issued;
    {
        let mut db = Db::new_with_path(&path).unwrap();
        issued = db.next_id().unwrap();
        let todo = Todo {
            id: issued,
            title: "durable".to_string(),
            completed: false,
        };
        db.insert("todo:0", &todo).unwrap();
    }
    let mut db = Db::new_with_path(&path).unwrap();
    let got = db.get("todo:0").unwrap().unwrap();
    assert_eq!(got.title, "durable");
    let next = db.next_id().unwrap();
    assert!(next > issued);
}

#[test]
fn open_locked_path_fails_with_open_error() {
    let path = fresh_path("locked");
    let _held = Db::new_with_path(&path).unwrap();
    let second = Db::new_with_path(&path);
    assert!(matches!(second, Err(DbError::Open)));
}
