use crate::db::mem::MemoryDB;
use crate::db::{
    append_file, class_by_id, class_by_pass_phrase, class_index, file_by_id, has_class_id,
    has_file_id, has_pass_phrase, insertable, lemma_push_keeps_well_formed,
    lemma_rename_keeps_well_formed, pass_index,
    remove_class, rename, summaries, summary, well_formed, Database, DatabaseError,
};
use crate::model::{Class, ClassID, ClassView, FileView};
use vstd::prelude::*;

verus! {

/// After a class is saved, fetching it by its identifier gives exactly the saved
/// record, and its summary is among the listed ones.
pub proof fn lemma_saved_class_found_by_id(s: Seq<ClassView>, c: ClassView)
    requires
        well_formed(s),
        insertable(s, c),
    ensures
        class_by_id(s.push(c), c.id) == Ok::<ClassView, DatabaseError>(c),
        summaries(s.push(c)).contains(summary(c)),
{
    let t = s.push(c);
    lemma_push_keeps_well_formed(s, c);
    assert(t[s.len() as int].id == c.id);
    assert(has_class_id(t, c.id));
    let x = class_index(t, c.id);
    assert(t[x].id == c.id);
    assert(summaries(t)[s.len() as int] == summary(c));
}

/// After a class is saved, fetching it by its passphrase gives exactly the saved
/// record.
pub proof fn lemma_saved_class_found_by_pass_phrase(s: Seq<ClassView>, c: ClassView)
    requires
        well_formed(s),
        insertable(s, c),
    ensures
        class_by_pass_phrase(s.push(c), c.pass_phrase) == Ok::<ClassView, DatabaseError>(c),
{
    let t = s.push(c);
    lemma_push_keeps_well_formed(s, c);
    assert(t[s.len() as int].pass_phrase == c.pass_phrase);
    assert(has_pass_phrase(t, c.pass_phrase));
    let x = pass_index(t, c.pass_phrase);
    assert(t[x].pass_phrase == c.pass_phrase);
}

/// Two reads of a class by identifier from the same in-memory store give the
/// same outcome: equal records, or the same error.
pub proof fn lemma_repeated_reads_agree(
    db: &MemoryDB,
    id: ClassID,
    r1: Result<Class, DatabaseError>,
    r2: Result<Class, DatabaseError>,
)
    requires
        well_formed(db.classes()),
        call_ensures(MemoryDB::get_class_by_id, (db, &id), r1),
        call_ensures(MemoryDB::get_class_by_id, (db, &id), r2),
    ensures
        match (r1, r2) {
            (Ok(a), Ok(b)) => a@ == b@,
            (Err(x), Err(y)) => x == y,
            _ => false,
        },
{
}

/// After a class is deleted, it cannot be fetched by its identifier, no summary
/// carries its identifier, and none of its files can be fetched.
pub proof fn lemma_deleted_class_unreachable(s: Seq<ClassView>, id: u128)
    requires
        well_formed(s),
    ensures
        class_by_id(remove_class(s, id).0, id) == Err::<ClassView, DatabaseError>(
            DatabaseError::ClassNotFound,
        ),
        forall|k: int|
            0 <= k < summaries(remove_class(s, id).0).len() ==> (#[trigger] summaries(
                remove_class(s, id).0,
            )[k]).id != id,
        remove_class(s, id).1 matches Ok(c) ==> forall|j: int|
            0 <= j < c.files.len() ==> file_by_id(remove_class(s, id).0, #[trigger] c.files[j].id)
                == Err::<FileView, DatabaseError>(DatabaseError::FileNotFound),
{
    let t = remove_class(s, id).0;
    if has_class_id(s, id) {
        let x = class_index(s, id);
        assert(s[x].id == id);
        assert forall|k: int| 0 <= k < t.len() implies #[trigger] t[k].id != id by {
            let k2 = if k < x { k } else { k + 1 };
            assert(t[k] == s[k2]);
        }
        assert forall|j: int| 0 <= j < s[x].files.len() implies !has_file_id(
            t,
            #[trigger] s[x].files[j].id,
        ) by {
            assert forall|k: int, l: int| 0 <= k < t.len() && 0 <= l < t[k].files.len() implies #[trigger] t[k].files[l].id
                != s[x].files[j].id by {
                let k2 = if k < x { k } else { k + 1 };
                assert(t[k] == s[k2]);
            }
        }
    }
    assert(!has_class_id(t, id));
}

/// Renaming a class changes its name and nothing else: the renamed class keeps
/// its identifier, passphrase and files, and every other class reads the same.
/// Renaming a class that is absent fails and changes nothing.
pub proof fn lemma_rename_changes_only_name(s: Seq<ClassView>, id: u128, name: Seq<char>)
    requires
        well_formed(s),
    ensures
        match class_by_id(s, id) {
            Ok(c) => class_by_id(rename(s, id, name).0, id) == Ok::<ClassView, DatabaseError>(
                ClassView { name, ..c },
            ) && rename(s, id, name).1 == Ok::<(), DatabaseError>(()),
            Err(e) => rename(s, id, name) == (s, Err::<(), DatabaseError>(e)),
        },
        forall|other: u128|
            other != id ==> #[trigger] class_by_id(rename(s, id, name).0, other) == class_by_id(
                s,
                other,
            ),
{
    let t = rename(s, id, name).0;
    lemma_rename_keeps_well_formed(s, id, name);
    if has_class_id(s, id) {
        let x = class_index(s, id);
        assert(s[x].id == id);
        assert(t[x].id == id);
        assert(has_class_id(t, id));
        let y = class_index(t, id);
        assert(t[y].id == id);
        assert forall|other: u128| other != id implies #[trigger] class_by_id(t, other)
            == class_by_id(s, other) by {
            if has_class_id(s, other) {
                let a = class_index(s, other);
                assert(s[a].id == other);
                assert(t[a].id == other);
                assert(has_class_id(t, other));
                let b = class_index(t, other);
                assert(t[b].id == other);
            } else {
                if has_class_id(t, other) {
                    let b = class_index(t, other);
                    assert(t[b].id == other);
                    assert(s[b].id == other);
                }
            }
        }
    }
}

/// Adding a file to a class identifier that the store does not hold fails with
/// `ClassNotFound` and leaves the store unchanged.
pub proof fn lemma_add_file_to_missing_class(s: Seq<ClassView>, id: u128, f: FileView)
    requires
        !has_class_id(s, id),
    ensures
        append_file(s, id, f) == (s, Err::<(), DatabaseError>(DatabaseError::ClassNotFound)),
{
}

} // verus!
