use blackboard::db::mem::MemoryDB;
use blackboard::db::{Database, DatabaseError, SimpleClassInfo};
use blackboard::model::{ArMarkerID, Class, ClassID, EpochTime, File, FileID, PassPhrase};

fn new_class(db: &MemoryDB, name: &str) -> Class {
    loop {
        if let Some(c) = Class::new(db, name.to_string()).expect("failed to create class") {
            return c;
        }
    }
}

fn new_file(db: &MemoryDB, marker: &str, filename: &str, created_at: i64) -> File {
    loop {
        let made = File::new(
            db,
            ArMarkerID(marker.to_string()),
            filename.to_string(),
            EpochTime(created_at),
        )
        .expect("failed to create new file");
        if let Some(f) = made {
            return f;
        }
    }
}

fn summary_of(c: &Class) -> SimpleClassInfo {
    SimpleClassInfo { name: c.name.clone(), id: c.id, pass_phrase: c.pass_phrase.clone() }
}

#[test]
fn memory_db_full_flow() {
    let mut db = MemoryDB::new();
    let mut classes = vec![new_class(&db, "理科")];
    db.save_new_class(&classes[0]).expect("failed to save class");
    classes.push(new_class(&db, "社会"));
    db.save_new_class(&classes[1]).expect("failed to save class");

    let got = db.get_all_classes().expect("failed to retrieve classes");
    for c in &classes {
        assert!(got.contains(&summary_of(c)));
    }

    let got = db.get_class_by_id(&classes[0].id).expect("failed to retrieve class");
    assert_eq!(got, classes[0]);

    let got = db.get_class_by_pass_phrase(&classes[1].pass_phrase).expect("failed to retrieve class");
    assert_eq!(got, classes[1]);

    assert!(db.class_id_exists(&classes[1].id).expect("failed to check whether class id exists"));
    let not_exist_id = loop {
        if let Some(id) = ClassID::new(&db).expect("failed to generate class id") {
            break id;
        }
    };
    assert!(!db.class_id_exists(&not_exist_id).expect("failed to check whether class id exists"));

    assert!(db
        .pass_phrase_exists(&classes[0].pass_phrase)
        .expect("failed to check whether pass phrase exists"));
    let not_exist_pass = loop {
        if let Some(p) = PassPhrase::new(&db).expect("failed to generate class id") {
            break p;
        }
    };
    assert!(!db.pass_phrase_exists(&not_exist_pass).expect("failed to check whether class id exists"));

    db.rename_class(&classes[1].id, "英語").expect("failed to rename class");
    classes[1].name = "英語".into();
    let after0 = db.get_class_by_id(&classes[0].id).expect("failed to get class");
    let after1 = db.get_class_by_id(&classes[1].id).expect("failed to get class");
    assert_eq!(classes[0], after0);
    assert_eq!(classes[1], after1);

    let mut files = vec![new_file(&db, "foo_marker", "foo.png", 1_600_000_000)];
    db.add_new_file(&classes[0].id, &files[0]).expect("failed to add new file");
    files.push(new_file(&db, "bar_marker", "bar.png", 1_600_000_100));
    db.add_new_file(&classes[0].id, &files[1]).expect("failed to add new file");
    classes[0].files = files.clone();

    let res = db.get_class_by_id(&classes[0].id).expect("failed to get class");
    let res_files = db.get_files(&classes[0].id).expect("failed to get files");
    for f in &res_files {
        assert!(res.files.contains(f));
    }
    for f in &files {
        assert!(res.files.contains(f));
    }

    assert!(db.file_id_exists(&files[0].id).expect("failed to check whether file id exists"));
    let not_exist_file = loop {
        if let Some(id) = FileID::new(&db).expect("failed to create new file id") {
            break id;
        }
    };
    assert!(!db.file_id_exists(&not_exist_file).expect("failed to check whether file id exists"));

    let got = db.get_file_by_id(&files[1].id).expect("failed to get file");
    assert_eq!(got, files[1]);

    let deleted = db.delete_file(&files[0].id).expect("failed to delete file");
    assert_eq!(files[0], deleted);
    files.remove(0);
    let res_files = db.get_files(&classes[0].id).expect("failed to get files");
    assert_eq!(res_files, files);

    let deleted = db.delete_class(&classes[0].id).expect("failed to delete file");
    classes[0].files = files.clone();
    assert_eq!(classes[0], deleted);
    classes.remove(0);
    assert_eq!(db.get_class_by_id(&deleted.id), Err(DatabaseError::ClassNotFound));
    db.get_class_by_id(&classes[0].id).expect("expected to not deleted this one");
}

#[test]
fn two_classes_and_one_file() {
    let mut db = MemoryDB::new();
    let a = new_class(&db, "理科");
    db.save_new_class(&a).unwrap();
    let b = new_class(&db, "社会");
    db.save_new_class(&b).unwrap();

    let all = db.get_all_classes().unwrap();
    assert_eq!(all.len(), 2);
    assert!(all.contains(&summary_of(&a)));
    assert!(all.contains(&summary_of(&b)));

    let f = new_file(&db, "foo_marker", "foo.png", 1_700_000_000);
    db.add_new_file(&a.id, &f).unwrap();
    let files_a = db.get_files(&a.id).unwrap();
    assert_eq!(files_a.len(), 1);
    assert_eq!(files_a[0].marker_id, ArMarkerID("foo_marker".to_string()));
    assert_eq!(files_a[0].resource_info.filename, "foo.png");
    assert_eq!(files_a[0].resource_info.created_at, EpochTime(1_700_000_000));
    assert_eq!(files_a[0], f);
    assert!(db.get_files(&b.id).unwrap().is_empty());
}

#[test]
fn generated_ids_are_new_to_the_store() {
    let mut db = MemoryDB::new();
    for k in 0..20 {
        let c = new_class(&db, &format!("class {}", k));
        assert!(!db.class_id_exists(&c.id).unwrap());
        assert!(!db.pass_phrase_exists(&c.pass_phrase).unwrap());
        db.save_new_class(&c).unwrap();
        let f = new_file(&db, "m", "f.png", k);
        assert!(!db.file_id_exists(&f.id).unwrap());
        db.add_new_file(&c.id, &f).unwrap();
        assert!(db.file_id_exists(&f.id).unwrap());
    }
    assert_eq!(db.get_all_classes().unwrap().len(), 20);
}

#[test]
fn saved_class_is_fetched_by_id_and_listed() {
    let mut db = MemoryDB::new();
    let c = new_class(&db, "数学");
    db.save_new_class(&c).unwrap();
    assert_eq!(db.get_class_by_id(&c.id).unwrap(), c);
    assert_eq!(db.get_all_classes().unwrap(), vec![summary_of(&c)]);
}

#[test]
fn saved_class_is_fetched_by_pass_phrase() {
    let mut db = MemoryDB::new();
    let c = new_class(&db, "国語");
    db.save_new_class(&c).unwrap();
    let other = new_class(&db, "体育");
    db.save_new_class(&other).unwrap();
    assert_eq!(db.get_class_by_pass_phrase(&c.pass_phrase).unwrap(), c);
    assert_eq!(db.get_class_by_pass_phrase(&other.pass_phrase).unwrap(), other);
}

#[test]
fn repeated_reads_return_the_same_class() {
    let mut db = MemoryDB::new();
    let c = new_class(&db, "音楽");
    db.save_new_class(&c).unwrap();
    let f = new_file(&db, "m", "a.png", 5);
    db.add_new_file(&c.id, &f).unwrap();
    let first = db.get_class_by_id(&c.id);
    let second = db.get_class_by_id(&c.id);
    assert_eq!(first, second);
    let missing = ClassID(1);
    assert_eq!(db.get_class_by_id(&missing), db.get_class_by_id(&missing));
}

#[test]
fn deleted_class_and_its_files_are_gone() {
    let mut db = MemoryDB::new();
    let a = new_class(&db, "a");
    db.save_new_class(&a).unwrap();
    let b = new_class(&db, "b");
    db.save_new_class(&b).unwrap();
    let f1 = new_file(&db, "m1", "1.png", 1);
    db.add_new_file(&a.id, &f1).unwrap();
    let f2 = new_file(&db, "m2", "2.png", 2);
    db.add_new_file(&a.id, &f2).unwrap();
    let g = new_file(&db, "m3", "3.png", 3);
    db.add_new_file(&b.id, &g).unwrap();

    let deleted = db.delete_class(&a.id).unwrap();
    assert_eq!(deleted.files, vec![f1.clone(), f2.clone()]);
    assert_eq!(db.get_class_by_id(&a.id), Err(DatabaseError::ClassNotFound));
    assert_eq!(db.get_all_classes().unwrap(), vec![summary_of(&b)]);
    assert_eq!(db.get_file_by_id(&f1.id), Err(DatabaseError::FileNotFound));
    assert_eq!(db.get_file_by_id(&f2.id), Err(DatabaseError::FileNotFound));
    assert_eq!(db.get_file_by_id(&g.id), Ok(g));
    assert_eq!(db.delete_class(&a.id), Err(DatabaseError::ClassNotFound));
}

#[test]
fn rename_changes_only_the_name() {
    let mut db = MemoryDB::new();
    let a = new_class(&db, "old");
    db.save_new_class(&a).unwrap();
    let b = new_class(&db, "other");
    db.save_new_class(&b).unwrap();
    let f = new_file(&db, "m", "x.png", 9);
    db.add_new_file(&a.id, &f).unwrap();

    db.rename_class(&a.id, "new").unwrap();
    let got = db.get_class_by_id(&a.id).unwrap();
    assert_eq!(got.name, "new");
    assert_eq!(got.id, a.id);
    assert_eq!(got.pass_phrase, a.pass_phrase);
    assert_eq!(got.files, vec![f]);
    assert_eq!(db.get_class_by_id(&b.id).unwrap(), b);
    assert_eq!(db.rename_class(&ClassID(3), "x"), Err(DatabaseError::ClassNotFound));
}

#[test]
fn add_file_to_missing_class_changes_nothing() {
    let mut db = MemoryDB::new();
    let a = new_class(&db, "a");
    db.save_new_class(&a).unwrap();
    let before = db.get_class_by_id(&a.id).unwrap();
    let before_all = db.get_all_classes().unwrap();
    let f = new_file(&db, "m", "x.png", 0);
    let missing = loop {
        if let Some(id) = ClassID::new(&db).unwrap() {
            break id;
        }
    };
    assert_eq!(db.add_new_file(&missing, &f), Err(DatabaseError::ClassNotFound));
    assert_eq!(db.get_class_by_id(&a.id).unwrap(), before);
    assert_eq!(db.get_all_classes().unwrap(), before_all);
    assert!(!db.file_id_exists(&f.id).unwrap());
}

#[test]
fn empty_store() {
    let mut db = MemoryDB::new();
    assert!(db.get_all_classes().unwrap().is_empty());
    assert_eq!(db.get_class_by_id(&ClassID(0)), Err(DatabaseError::ClassNotFound));
    let p = PassPhrase("ABCDEF".to_string());
    assert_eq!(db.get_class_by_pass_phrase(&p), Err(DatabaseError::ClassNotFound));
    assert_eq!(db.get_files(&ClassID(0)), Err(DatabaseError::ClassNotFound));
    assert_eq!(db.get_file_by_id(&FileID(0)), Err(DatabaseError::FileNotFound));
    assert_eq!(db.delete_file(&FileID(0)), Err(DatabaseError::FileNotFound));
    assert_eq!(db.class_id_exists(&ClassID(0)), Ok(false));
    assert_eq!(db.pass_phrase_exists(&p), Ok(false));
    assert_eq!(db.file_id_exists(&FileID(0)), Ok(false));
}

#[test]
fn delete_file_keeps_order_of_the_rest() {
    let mut db = MemoryDB::new();
    let a = new_class(&db, "a");
    db.save_new_class(&a).unwrap();
    let f1 = new_file(&db, "m1", "1.png", 1);
    db.add_new_file(&a.id, &f1).unwrap();
    let f2 = new_file(&db, "m2", "2.png", 2);
    db.add_new_file(&a.id, &f2).unwrap();
    let f3 = new_file(&db, "m3", "3.png", 3);
    db.add_new_file(&a.id, &f3).unwrap();
    assert_eq!(db.delete_file(&f2.id), Ok(f2.clone()));
    assert_eq!(db.get_files(&a.id).unwrap(), vec![f1, f3]);
    assert_eq!(db.delete_file(&f2.id), Err(DatabaseError::FileNotFound));
}

#[test]
fn delete_class_keeps_order_of_the_rest() {
    let mut db = MemoryDB::new();
    let a = new_class(&db, "a");
    db.save_new_class(&a).unwrap();
    let b = new_class(&db, "b");
    db.save_new_class(&b).unwrap();
    let c = new_class(&db, "c");
    db.save_new_class(&c).unwrap();
    db.delete_class(&b.id).unwrap();
    assert_eq!(db.get_all_classes().unwrap(), vec![summary_of(&a), summary_of(&c)]);
}

#[test]
fn add_stored_file_to_missing_class_changes_nothing() {
    let mut db = MemoryDB::new();
    let a = new_class(&db, "a");
    db.save_new_class(&a).unwrap();
    let f = new_file(&db, "m", "x.png", 0);
    db.add_new_file(&a.id, &f).unwrap();
    let before = db.get_all_classes().unwrap();
    let missing = loop {
        if let Some(id) = ClassID::new(&db).unwrap() {
            break id;
        }
    };
    assert_eq!(db.add_new_file(&missing, &f), Err(DatabaseError::ClassNotFound));
    assert_eq!(db.get_all_classes().unwrap(), before);
    assert_eq!(db.get_files(&a.id).unwrap(), vec![f]);
}
