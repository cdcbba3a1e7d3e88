use crate::model::{Class, ClassID, ClassView, File, FileID, FileView, IdParseError, PassPhrase};
use vstd::prelude::*;

pub mod mem;
pub mod theorems;

verus! {

/// Name, identifier and passphrase of a class, without its files.
#[derive(Debug, PartialEq, Eq)]
pub struct SimpleClassInfo {
    pub name: String,
    pub id: ClassID,
    pub pass_phrase: PassPhrase,
}

/// The value of a class summary.
pub struct InfoView {
    pub name: Seq<char>,
    pub id: u128,
    pub pass_phrase: Seq<char>,
}

impl View for SimpleClassInfo {
    type V = InfoView;

    open spec fn view(&self) -> InfoView {
        InfoView { name: self.name@, id: self.id.0, pass_phrase: self.pass_phrase.0@ }
    }
}

/// What a store operation can fail with.
#[derive(Debug, Clone, Copy, PartialEq, Eq, Structural)]
#[non_exhaustive]
pub enum DatabaseError {
    ClassNotFound,
    FileNotFound,
    ConnectionError,
    SerializeFailed,
    DeserializeFailed,
}

impl DatabaseError {
    /// A failure of the backend itself rather than an absent record.
    pub open spec fn is_transport(self) -> bool {
        !(self is ClassNotFound || self is FileNotFound)
    }

    /// A short description of the error.
    pub fn message(&self) -> (r: &'static str)
        ensures
            *self is ClassNotFound ==> r@ == "specified class id not found"@,
            *self is FileNotFound ==> r@ == "specified file id not found"@,
            *self is ConnectionError ==> r@ == "connection error"@,
            *self is SerializeFailed ==> r@ == "serialize failed"@,
            *self is DeserializeFailed ==> r@
                == "deserialize failed, There are invalid entries in database"@,
    {
        match self {
            DatabaseError::ClassNotFound => "specified class id not found",
            DatabaseError::FileNotFound => "specified file id not found",
            DatabaseError::ConnectionError => "connection error",
            DatabaseError::SerializeFailed => "serialize failed",
            DatabaseError::DeserializeFailed => {
                "deserialize failed, There are invalid entries in database"
            },
        }
    }
}

/// Gives a function that maps any other error to `error`.
pub fn le<E, OE>(error: E) -> (f: impl FnOnce(OE) -> E)
    ensures
        forall|o: OE| f.requires((o,)),
        forall|o: OE, e: E| f.ensures((o,), e) ==> e == error,
{
    move |_o: OE| -> (e: E)
        ensures
            e == error,
        { error }
}

/// Judges the counts that a document store reports after appending a file to
/// the class document with a given identifier: the append took place only where
/// exactly one document matched and exactly one was modified; otherwise the
/// class is taken to be absent.
pub fn file_push_outcome(matched_count: u64, modified_count: u64) -> (r: Result<
    (),
    DatabaseError,
>)
    ensures
        r == if matched_count == 1 && modified_count == 1 {
            Ok::<(), DatabaseError>(())
        } else {
            Err(DatabaseError::ClassNotFound)
        },
{
    if matched_count == 1 && modified_count == 1 {
        Ok(())
    } else {
        Err(DatabaseError::ClassNotFound)
    }
}

/// Judges the count of class documents that a rename matched in a document
/// store: none means that the class is absent.
pub fn rename_outcome(matched_count: u64) -> (r: Result<(), DatabaseError>)
    ensures
        r == if matched_count == 0 {
            Err(DatabaseError::ClassNotFound)
        } else {
            Ok::<(), DatabaseError>(())
        },
{
    if matched_count == 0 {
        Err(DatabaseError::ClassNotFound)
    } else {
        Ok(())
    }
}

/// Judges the count of class documents that a file removal modified in a
/// document store: none means that the file was gone already.
pub fn file_pull_outcome(modified_count: u64) -> (r: Result<(), DatabaseError>)
    ensures
        r == if modified_count == 0 {
            Err(DatabaseError::FileNotFound)
        } else {
            Ok::<(), DatabaseError>(())
        },
{
    if modified_count == 0 {
        Err(DatabaseError::FileNotFound)
    } else {
        Ok(())
    }
}

/// HTTP status and body that answer a request whose store operation failed
/// with `e`: an absent record is not found (404); a backend failure is an
/// internal error (500) whose details stay out of the body.
pub fn db_error_reply(e: DatabaseError) -> (r: (u16, &'static str))
    ensures
        e is ClassNotFound ==> r.0 == 404 && r.1@ == "Not found such class id"@,
        e is FileNotFound ==> r.0 == 404 && r.1@ == "Not found such file id"@,
        e.is_transport() ==> r.0 == 500 && r.1@
            == "Internal Server Error (Cannot retrieve data from database)"@,
{
    match e {
        DatabaseError::ClassNotFound => (404, "Not found such class id"),
        DatabaseError::FileNotFound => (404, "Not found such file id"),
        _ => (500, "Internal Server Error (Cannot retrieve data from database)"),
    }
}

/// HTTP status and body that answer a request whose identifier could not be
/// read: a bad request (400).
pub fn id_error_reply(e: IdParseError) -> (r: (u16, &'static str))
    ensures
        r.0 == 400 && r.1@ == "Invalid id format"@,
{
    (400, "Invalid id format")
}

/// Summary of a class: everything but its files.
pub open spec fn summary(c: ClassView) -> InfoView {
    InfoView { name: c.name, id: c.id, pass_phrase: c.pass_phrase }
}

/// Summaries of the stored classes, in store order.
pub open spec fn summaries(s: Seq<ClassView>) -> Seq<InfoView> {
    s.map_values(|c: ClassView| summary(c))
}

pub open spec fn has_class_id(s: Seq<ClassView>, id: u128) -> bool {
    exists|i: int| 0 <= i < s.len() && #[trigger] s[i].id == id
}

pub open spec fn has_pass_phrase(s: Seq<ClassView>, p: Seq<char>) -> bool {
    exists|i: int| 0 <= i < s.len() && #[trigger] s[i].pass_phrase == p
}

pub open spec fn has_file_id(s: Seq<ClassView>, id: u128) -> bool {
    exists|i: int, j: int|
        0 <= i < s.len() && 0 <= j < s[i].files.len() && #[trigger] s[i].files[j].id == id
}

/// Position of the class with identifier `id`.
pub open spec fn class_index(s: Seq<ClassView>, id: u128) -> int {
    choose|i: int| 0 <= i < s.len() && #[trigger] s[i].id == id
}

/// Position of the class with passphrase `p`.
pub open spec fn pass_index(s: Seq<ClassView>, p: Seq<char>) -> int {
    choose|i: int| 0 <= i < s.len() && #[trigger] s[i].pass_phrase == p
}

/// Position (class, file) of the file with identifier `id`.
pub open spec fn file_position(s: Seq<ClassView>, id: u128) -> (int, int) {
    choose|i: int, j: int|
        0 <= i < s.len() && 0 <= j < s[i].files.len() && #[trigger] s[i].files[j].id == id
}

/// Identifiers and passphrases of classes, and identifiers of files, are unique.
pub open spec fn well_formed(s: Seq<ClassView>) -> bool {
    &&& forall|i: int, j: int|
        0 <= i < s.len() && 0 <= j < s.len() && i != j ==> #[trigger] s[i].id != #[trigger] s[j].id
    &&& forall|i: int, j: int|
        0 <= i < s.len() && 0 <= j < s.len() && i != j ==> #[trigger] s[i].pass_phrase
            != #[trigger] s[j].pass_phrase
    &&& forall|i: int, j: int, k: int, l: int|
        0 <= i < s.len() && 0 <= j < s[i].files.len() && 0 <= k < s.len() && 0 <= l
            < s[k].files.len() && (i != k || j != l) ==> #[trigger] s[i].files[j].id
            != #[trigger] s[k].files[l].id
}

/// `c` may join the store: its identifier, passphrase and file identifiers are new,
/// and its file identifiers are distinct.
pub open spec fn insertable(s: Seq<ClassView>, c: ClassView) -> bool {
    &&& !has_class_id(s, c.id)
    &&& !has_pass_phrase(s, c.pass_phrase)
    &&& forall|j: int| 0 <= j < c.files.len() ==> !has_file_id(s, #[trigger] c.files[j].id)
    &&& forall|j: int, l: int|
        0 <= j < c.files.len() && 0 <= l < c.files.len() && j != l ==> #[trigger] c.files[j].id
            != #[trigger] c.files[l].id
}

/// The class with identifier `id`.
pub open spec fn class_by_id(s: Seq<ClassView>, id: u128) -> Result<ClassView, DatabaseError> {
    if has_class_id(s, id) {
        Ok(s[class_index(s, id)])
    } else {
        Err(DatabaseError::ClassNotFound)
    }
}

/// The class with passphrase `p`.
pub open spec fn class_by_pass_phrase(s: Seq<ClassView>, p: Seq<char>) -> Result<
    ClassView,
    DatabaseError,
> {
    if has_pass_phrase(s, p) {
        Ok(s[pass_index(s, p)])
    } else {
        Err(DatabaseError::ClassNotFound)
    }
}

/// The files of the class with identifier `id`.
pub open spec fn files_of(s: Seq<ClassView>, id: u128) -> Result<Seq<FileView>, DatabaseError> {
    if has_class_id(s, id) {
        Ok(s[class_index(s, id)].files)
    } else {
        Err(DatabaseError::ClassNotFound)
    }
}

/// The file with identifier `id`, in whichever class holds it.
pub open spec fn file_by_id(s: Seq<ClassView>, id: u128) -> Result<FileView, DatabaseError> {
    if has_file_id(s, id) {
        Ok(s[file_position(s, id).0].files[file_position(s, id).1])
    } else {
        Err(DatabaseError::FileNotFound)
    }
}

/// The store after renaming class `id`, and the outcome.
pub open spec fn rename(s: Seq<ClassView>, id: u128, name: Seq<char>) -> (
    Seq<ClassView>,
    Result<(), DatabaseError>,
) {
    if has_class_id(s, id) {
        let i = class_index(s, id);
        (s.update(i, ClassView { name, ..s[i] }), Ok(()))
    } else {
        (s, Err(DatabaseError::ClassNotFound))
    }
}

/// The store after deleting class `id`, and the deleted class.
pub open spec fn remove_class(s: Seq<ClassView>, id: u128) -> (
    Seq<ClassView>,
    Result<ClassView, DatabaseError>,
) {
    if has_class_id(s, id) {
        let i = class_index(s, id);
        (s.remove(i), Ok(s[i]))
    } else {
        (s, Err(DatabaseError::ClassNotFound))
    }
}

/// The store after appending file `f` to class `id`, and the outcome.
pub open spec fn append_file(s: Seq<ClassView>, id: u128, f: FileView) -> (
    Seq<ClassView>,
    Result<(), DatabaseError>,
) {
    if has_class_id(s, id) {
        let i = class_index(s, id);
        (s.update(i, ClassView { files: s[i].files.push(f), ..s[i] }), Ok(()))
    } else {
        (s, Err(DatabaseError::ClassNotFound))
    }
}

/// The store after deleting file `id` from the class that holds it, and the deleted file.
pub open spec fn remove_file(s: Seq<ClassView>, id: u128) -> (
    Seq<ClassView>,
    Result<FileView, DatabaseError>,
) {
    if has_file_id(s, id) {
        let (i, j) = file_position(s, id);
        (s.update(i, ClassView { files: s[i].files.remove(j), ..s[i] }), Ok(s[i].files[j]))
    } else {
        (s, Err(DatabaseError::FileNotFound))
    }
}

/// Adding an insertable class keeps the store well formed.
pub proof fn lemma_push_keeps_well_formed(s: Seq<ClassView>, c: ClassView)
    requires
        well_formed(s),
        insertable(s, c),
    ensures
        well_formed(s.push(c)),
{
    let t = s.push(c);
    assert forall|i: int, j: int, k: int, l: int|
        0 <= i < t.len() && 0 <= j < t[i].files.len() && 0 <= k < t.len() && 0 <= l
            < t[k].files.len() && (i != k || j != l) implies #[trigger] t[i].files[j].id
        != #[trigger] t[k].files[l].id by {
        if i == s.len() && k < s.len() {
            assert(!has_file_id(s, c.files[j].id));
        } else if k == s.len() && i < s.len() {
            assert(!has_file_id(s, c.files[l].id));
        }
    }
}

/// Renaming keeps the store well formed.
pub proof fn lemma_rename_keeps_well_formed(s: Seq<ClassView>, id: u128, name: Seq<char>)
    requires
        well_formed(s),
    ensures
        well_formed(rename(s, id, name).0),
{
    let t = rename(s, id, name).0;
    assert forall|i: int, j: int, k: int, l: int|
        0 <= i < t.len() && 0 <= j < t[i].files.len() && 0 <= k < t.len() && 0 <= l
            < t[k].files.len() && (i != k || j != l) implies #[trigger] t[i].files[j].id
        != #[trigger] t[k].files[l].id by {
        assert(t[i].files == s[i].files);
        assert(t[k].files == s[k].files);
    }
}

/// Deleting a class keeps the store well formed.
pub proof fn lemma_remove_class_keeps_well_formed(s: Seq<ClassView>, id: u128)
    requires
        well_formed(s),
    ensures
        well_formed(remove_class(s, id).0),
{
    let t = remove_class(s, id).0;
    if has_class_id(s, id) {
        let x = class_index(s, id);
        assert forall|i: int, j: int, k: int, l: int|
            0 <= i < t.len() && 0 <= j < t[i].files.len() && 0 <= k < t.len() && 0 <= l
                < t[k].files.len() && (i != k || j != l) implies #[trigger] t[i].files[j].id
            != #[trigger] t[k].files[l].id by {
            let i2 = if i < x { i } else { i + 1 };
            let k2 = if k < x { k } else { k + 1 };
            assert(t[i] == s[i2]);
            assert(t[k] == s[k2]);
        }
    }
}

/// Appending a file whose identifier is new keeps the store well formed.
pub proof fn lemma_append_file_keeps_well_formed(s: Seq<ClassView>, id: u128, f: FileView)
    requires
        well_formed(s),
        has_class_id(s, id) ==> !has_file_id(s, f.id),
    ensures
        well_formed(append_file(s, id, f).0),
{
    let t = append_file(s, id, f).0;
    if has_class_id(s, id) {
        let x = class_index(s, id);
        assert forall|i: int, j: int, k: int, l: int|
            0 <= i < t.len() && 0 <= j < t[i].files.len() && 0 <= k < t.len() && 0 <= l
                < t[k].files.len() && (i != k || j != l) implies #[trigger] t[i].files[j].id
            != #[trigger] t[k].files[l].id by {
            if i == x && j == s[x].files.len() {
                assert(s[k].files.len() > l ==> s[k].files[l].id != f.id);
            } else if k == x && l == s[x].files.len() {
                assert(s[i].files.len() > j ==> s[i].files[j].id != f.id);
            } else {
                assert(t[i].files[j] == s[i].files[j]);
                assert(t[k].files[l] == s[k].files[l]);
            }
        }
    }
}

/// Deleting a file keeps the store well formed.
pub proof fn lemma_remove_file_keeps_well_formed(s: Seq<ClassView>, id: u128)
    requires
        well_formed(s),
    ensures
        well_formed(remove_file(s, id).0),
{
    let t = remove_file(s, id).0;
    if has_file_id(s, id) {
        let (x, y) = file_position(s, id);
        assert forall|i: int, j: int, k: int, l: int|
            0 <= i < t.len() && 0 <= j < t[i].files.len() && 0 <= k < t.len() && 0 <= l
                < t[k].files.len() && (i != k || j != l) implies #[trigger] t[i].files[j].id
            != #[trigger] t[k].files[l].id by {
            let j2 = if i == x && j >= y { j + 1 } else { j };
            let l2 = if k == x && l >= y { l + 1 } else { l };
            if i == x {
                assert(t[i].files == s[x].files.remove(y));
                assert(s[x].files.remove(y)[j] == s[x].files[j2]);
            }
            if k == x {
                assert(t[k].files == s[x].files.remove(y));
                assert(s[x].files.remove(y)[l] == s[x].files[l2]);
            }
            assert(t[i].files[j] == s[i].files[j2]);
            assert(t[k].files[l] == s[k].files[l2]);
        }
    }
}

/// A storage backend for classes and their files. `classes` is what it holds.
/// Every operation either has the outcome that its model function gives, or
/// fails with a transport error and leaves the store as it was.
pub trait Database {
    spec fn classes(&self) -> Seq<ClassView>;

    fn get_all_classes(&self) -> (r: Result<Vec<SimpleClassInfo>, DatabaseError>)
        ensures
            match r {
                Ok(v) => v@.map_values(|x: SimpleClassInfo| x@) == summaries(self.classes()),
                Err(e) => e.is_transport(),
            },
    ;

    fn save_new_class(&mut self, class: &Class) -> (r: Result<(), DatabaseError>)
        requires
            well_formed(old(self).classes()),
            insertable(old(self).classes(), class@),
        ensures
            well_formed(final(self).classes()),
            match r {
                Ok(_) => final(self).classes() == old(self).classes().push(class@),
                Err(e) => e.is_transport() && final(self).classes() == old(self).classes(),
            },
    ;

    fn get_class_by_id(&self, class_id: &ClassID) -> (r: Result<Class, DatabaseError>)
        requires
            well_formed(self.classes()),
        ensures
            match r {
                Ok(c) => class_by_id(self.classes(), class_id.0) == Ok::<
                    ClassView,
                    DatabaseError,
                >(c@),
                Err(e) => e.is_transport() || class_by_id(self.classes(), class_id.0) == Err::<
                    ClassView,
                    DatabaseError,
                >(e),
            },
    ;

    fn get_class_by_pass_phrase(&self, pass_phrase: &PassPhrase) -> (r: Result<
        Class,
        DatabaseError,
    >)
        requires
            well_formed(self.classes()),
        ensures
            match r {
                Ok(c) => class_by_pass_phrase(self.classes(), pass_phrase.0@) == Ok::<
                    ClassView,
                    DatabaseError,
                >(c@),
                Err(e) => e.is_transport() || class_by_pass_phrase(
                    self.classes(),
                    pass_phrase.0@,
                ) == Err::<ClassView, DatabaseError>(e),
            },
    ;

    fn rename_class(&mut self, class_id: &ClassID, new_name: &str) -> (r: Result<
        (),
        DatabaseError,
    >)
        requires
            well_formed(old(self).classes()),
        ensures
            well_formed(final(self).classes()),
            match r {
                Ok(_) => rename(old(self).classes(), class_id.0, new_name@) == (
                    final(self).classes(),
                    Ok::<(), DatabaseError>(()),
                ),
                Err(e) => (e.is_transport() && final(self).classes() == old(self).classes()) || rename(
                    old(self).classes(),
                    class_id.0,
                    new_name@,
                ) == (final(self).classes(), Err::<(), DatabaseError>(e)),
            },
    ;

    fn delete_class(&mut self, class_id: &ClassID) -> (r: Result<Class, DatabaseError>)
        requires
            well_formed(old(self).classes()),
        ensures
            well_formed(final(self).classes()),
            match r {
                Ok(c) => remove_class(old(self).classes(), class_id.0) == (
                    final(self).classes(),
                    Ok::<ClassView, DatabaseError>(c@),
                ),
                Err(e) => (e.is_transport() && final(self).classes() == old(self).classes())
                    || remove_class(old(self).classes(), class_id.0) == (
                    final(self).classes(),
                    Err::<ClassView, DatabaseError>(e),
                ),
            },
    ;

    fn class_id_exists(&self, class_id: &ClassID) -> (r: Result<bool, DatabaseError>)
        ensures
            match r {
                Ok(b) => b == has_class_id(self.classes(), class_id.0),
                Err(e) => e.is_transport(),
            },
    ;

    fn pass_phrase_exists(&self, pass_phrase: &PassPhrase) -> (r: Result<bool, DatabaseError>)
        ensures
            match r {
                Ok(b) => b == has_pass_phrase(self.classes(), pass_phrase.0@),
                Err(e) => e.is_transport(),
            },
    ;

    fn get_files(&self, class_id: &ClassID) -> (r: Result<Vec<File>, DatabaseError>)
        requires
            well_formed(self.classes()),
        ensures
            match r {
                Ok(v) => files_of(self.classes(), class_id.0) == Ok::<
                    Seq<FileView>,
                    DatabaseError,
                >(v@.map_values(|f: File| f@)),
                Err(e) => e.is_transport() || files_of(self.classes(), class_id.0) == Err::<
                    Seq<FileView>,
                    DatabaseError,
                >(e),
            },
    ;

    fn add_new_file(&mut self, class_id: &ClassID, file: &File) -> (r: Result<(), DatabaseError>)
        requires
            well_formed(old(self).classes()),
            has_class_id(old(self).classes(), class_id.0) ==> !has_file_id(
                old(self).classes(),
                file.id.0,
            ),
        ensures
            well_formed(final(self).classes()),
            match r {
                Ok(_) => append_file(old(self).classes(), class_id.0, file@) == (
                    final(self).classes(),
                    Ok::<(), DatabaseError>(()),
                ),
                Err(e) => (e.is_transport() && final(self).classes() == old(self).classes())
                    || append_file(old(self).classes(), class_id.0, file@) == (
                    final(self).classes(),
                    Err::<(), DatabaseError>(e),
                ),
            },
    ;

    fn get_file_by_id(&self, file_id: &FileID) -> (r: Result<File, DatabaseError>)
        requires
            well_formed(self.classes()),
        ensures
            match r {
                Ok(f) => file_by_id(self.classes(), file_id.0) == Ok::<FileView, DatabaseError>(
                    f@,
                ),
                Err(e) => e.is_transport() || file_by_id(self.classes(), file_id.0) == Err::<
                    FileView,
                    DatabaseError,
                >(e),
            },
    ;

    fn delete_file(&mut self, file_id: &FileID) -> (r: Result<File, DatabaseError>)
        requires
            well_formed(old(self).classes()),
        ensures
            well_formed(final(self).classes()),
            match r {
                Ok(f) => remove_file(old(self).classes(), file_id.0) == (
                    final(self).classes(),
                    Ok::<FileView, DatabaseError>(f@),
                ),
                Err(e) => (e.is_transport() && final(self).classes() == old(self).classes())
                    || remove_file(old(self).classes(), file_id.0) == (
                    final(self).classes(),
                    Err::<FileView, DatabaseError>(e),
                ),
            },
    ;

    fn file_id_exists(&self, file_id: &FileID) -> (r: Result<bool, DatabaseError>)
        ensures
            match r {
                Ok(b) => b == has_file_id(self.classes(), file_id.0),
                Err(e) => e.is_transport(),
            },
    ;
}

} // verus!
