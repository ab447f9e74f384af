use todo_store::driver::Db;
use todo_store::models::Todo;

fn fresh_path(name: &str) -> String {
    let tick = std::time::SystemTime::now()
        .duration_since(std::time::UNIX_EPOCH)
        .unwrap()
        .as_nanos();
    format!("/tmp/todo_store_test_{}_{}", name, tick)
}

#[test]
fn test_new() {
    let path = fresh_path("new");
    let db = Db::new_with_path(&path).unwrap();
    drop(db);
}

#[test]
fn test_next_id() {
    let path = fresh_path("next_id");
    let mut db = Db::new_with_path(&path).unwrap();
    let id = db.next_id().unwrap();
    assert_eq!(id, 0);
}

#[test]
fn test_insert_and_get() {
    let path = fresh_path("insert_and_get");
    let mut db = Db::new_with_path(&path).unwrap();
    let test = Todo {
        id: 0,
        title: "test".to_string(),
        completed: false,
    };
    db.insert("test", &test).unwrap();
    let test = db.get("test").unwrap();
    assert_eq!(test.unwrap().title, "test");
}

#[test]
fn test_remove() {
    let path = fresh_path("remove");
    let mut db = Db::new_with_path(&path).unwrap();
    let test = Todo {
        id: 0,
        title: "test".to_string(),
        completed: false,
    };
    db.insert("test", &test).unwrap();
    db.remove("test").unwrap();
    let test = db.get("test").unwrap();
    assert!(test.is_none());
}

#[test]
fn test_insert_as_update() {
    let path = fresh_path("insert_as_update");
    let mut db = Db::new_with_path(&path).unwrap();
    let test = Todo {
        id: 0,
        title: "test".to_string(),
        completed: false,
    };
    db.insert("test", &test).unwrap();
    let test = Todo {
        id: 0,
        title: "test2".to_string(),
        completed: false,
    };
    db.insert("test", &test).unwrap();
    let test = db.get("test").unwrap();
    assert_eq!(test.unwrap().title, "test2");
}

#[test]
fn test_iter() {
    let path = fresh_path("iter");
    let mut db = Db::new_with_path(&path).unwrap();
    let test = Todo {
        id: 0,
        title: "test".to_string(),
        completed: false,
    };
    db.insert("test", &test).unwrap();
    let test = Todo {
        id: 1,
        title: "test2".to_string(),
        completed: false,
    };
    db.insert("test2", &test).unwrap();
    {
        let mut iter = db.iter().into_iter();
        let (key, value) = iter.next().unwrap().unwrap();
        assert_eq!(key, "test");
        assert_eq!(value.title, "test");
        let (key, value) = iter.next().unwrap().unwrap();
        assert_eq!(key, "test2");
        assert_eq!(value.title, "test2");
    }
}

#[test]
fn test_iter_prefix() {
    let path = fresh_path("iter_prefix");
    let mut db = Db::new_with_path(&path).unwrap();
    let test = Todo {
        id: 0,
        title: "test".to_string(),
        completed: false,
    };
    db.insert("test", &test).unwrap();
    let test = Todo {
        id: 1,
        title: "test2".to_string(),
        completed: false,
    };
    db.insert("test2", &test).unwrap();
    {
        let mut iter = db.iter_prefix("test").into_iter();
        let (key, value) = iter.next().unwrap().unwrap();
        assert_eq!(key, "test");
        assert_eq!(value.title, "test");
    }
}

#[test]
fn test_iter_prefix_excludes() {
    let path = fresh_path("iter_prefix_excludes");
    let mut db = Db::new_with_path(&path).unwrap();
    let test = Todo {
        id: 0,
        title: "test".to_string(),
        completed: false,
    };
    db.insert("test", &test).unwrap();
    let test = Todo {
        id: 1,
        title: "test2".to_string(),
        completed: false,
    };
    db.insert("test2", &test).unwrap();
    {
        let mut iter = db.iter_prefix("test2").into_iter();
        let (key, value) = iter.next().unwrap().unwrap();
        assert_eq!(key, "test2");
        assert_eq!(value.title, "test2");

        let next = iter.next();
        assert!(next.is_none());
    }
}
