use crate::db::{
    class_index, file_position, has_class_id, has_file_id, has_pass_phrase,
    lemma_append_file_keeps_well_formed, lemma_push_keeps_well_formed,
    lemma_remove_class_keeps_well_formed, lemma_remove_file_keeps_well_formed,
    lemma_rename_keeps_well_formed, pass_index, summaries, summary, well_formed, Database,
    DatabaseError, SimpleClassInfo,
};
use crate::model::{Class, ClassID, ClassView, File, FileID, PassPhrase};
use vstd::prelude::*;

verus! {

/// A backend that keeps the classes in a vector, in order of creation.
/// Every lookup is a linear scan.
pub struct MemoryDB {
    inner: Vec<Class>,
}

impl MemoryDB {
    /// An empty store.
    pub fn new() -> (r: MemoryDB)
        ensures
            r.classes() == Seq::<ClassView>::empty(),
            well_formed(r.classes()),
    {
        let r = MemoryDB { inner: Vec::new() };
        assert(r.classes() =~= Seq::<ClassView>::empty());
        r
    }

    /// Position of the class with identifier `id`, if any.
    fn find_class(&self, id: u128) -> (r: Option<usize>)
        requires
            well_formed(self.classes()),
        ensures
            match r {
                Some(i) => has_class_id(self.classes(), id) && i == class_index(self.classes(), id)
                    && i < self.inner@.len(),
                None => !has_class_id(self.classes(), id),
            },
    {
        let mut i: usize = 0;
        while i < self.inner.len()
            invariant
                well_formed(self.classes()),
                i <= self.inner@.len(),
                forall|k: int| 0 <= k < i ==> #[trigger] self.classes()[k].id != id,
            decreases self.inner@.len() - i,
        {
            if self.inner[i].id.0 == id {
                let ghost s = self.classes();
                assert(s[i as int].id == id);
                assert(has_class_id(s, id));
                let ghost x = class_index(s, id);
                assert(s[x].id == id);
                return Some(i);
            }
            i = i + 1;
        }
        None
    }

    /// Position of the class with passphrase `p`, if any.
    fn find_pass_phrase(&self, p: &PassPhrase) -> (r: Option<usize>)
        requires
            well_formed(self.classes()),
        ensures
            match r {
                Some(i) => has_pass_phrase(self.classes(), p.0@) && i == pass_index(
                    self.classes(),
                    p.0@,
                ) && i < self.inner@.len(),
                None => !has_pass_phrase(self.classes(), p.0@),
            },
    {
        let mut i: usize = 0;
        while i < self.inner.len()
            invariant
                well_formed(self.classes()),
                i <= self.inner@.len(),
                forall|k: int| 0 <= k < i ==> #[trigger] self.classes()[k].pass_phrase != p.0@,
            decreases self.inner@.len() - i,
        {
            if self.inner[i].pass_phrase.0 == p.0 {
                let ghost s = self.classes();
                assert(s[i as int].pass_phrase == p.0@);
                assert(has_pass_phrase(s, p.0@));
                let ghost x = pass_index(s, p.0@);
                assert(s[x].pass_phrase == p.0@);
                return Some(i);
            }
            i = i + 1;
        }
        None
    }

    /// Position (class, file) of the file with identifier `id`, if any.
    fn find_file(&self, id: u128) -> (r: Option<(usize, usize)>)
        requires
            well_formed(self.classes()),
        ensures
            match r {
                Some(p) => has_file_id(self.classes(), id) && (p.0 as int, p.1 as int)
                    == file_position(self.classes(), id) && p.0 < self.inner@.len() && p.1
                    < self.inner@[p.0 as int].files@.len(),
                None => !has_file_id(self.classes(), id),
            },
    {
        let mut i: usize = 0;
        while i < self.inner.len()
            invariant
                well_formed(self.classes()),
                i <= self.inner@.len(),
                forall|k: int, l: int|
                    0 <= k < i && 0 <= l < self.classes()[k].files.len() ==> #[trigger] self.classes()[k].files[l].id
                        != id,
            decreases self.inner@.len() - i,
        {
            let files = &self.inner[i].files;
            let mut j: usize = 0;
            while j < files.len()
                invariant
                    well_formed(self.classes()),
                    i < self.inner@.len(),
                    files == self.inner@[i as int].files,
                    j <= files@.len(),
                    forall|l: int| 0 <= l < j ==> #[trigger] self.classes()[i as int].files[l].id != id,
                decreases files@.len() - j,
            {
                if files[j].id.0 == id {
                    let ghost s = self.classes();
                    assert(s[i as int].files[j as int].id == id);
                    assert(has_file_id(s, id));
                    let ghost p = file_position(s, id);
                    assert(s[p.0].files[p.1].id == id);
                    return Some((i, j));
                }
                j = j + 1;
            }
            i = i + 1;
        }
        None
    }
}

impl Database for MemoryDB {
    closed spec fn classes(&self) -> Seq<ClassView> {
        self.inner@.map_values(|c: Class| c@)
    }

    fn get_all_classes(&self) -> (r: Result<Vec<SimpleClassInfo>, DatabaseError>)
        ensures
            r is Ok,
    {
        let mut out: Vec<SimpleClassInfo> = Vec::new();
        let mut i: usize = 0;
        while i < self.inner.len()
            invariant
                i <= self.inner@.len(),
                out@.len() == i,
                forall|k: int| 0 <= k < i ==> (#[trigger] out@[k])@ == summary(self.classes()[k]),
            decreases self.inner@.len() - i,
        {
            let c = &self.inner[i];
            out.push(
                SimpleClassInfo {
                    name: c.name.clone(),
                    id: c.id,
                    pass_phrase: c.pass_phrase.clone(),
                },
            );
            i = i + 1;
        }
        assert(out@.map_values(|x: SimpleClassInfo| x@) =~= summaries(self.classes()));
        Ok(out)
    }

    fn save_new_class(&mut self, class: &Class) -> (r: Result<(), DatabaseError>)
        ensures
            r is Ok,
    {
        let ghost s = self.classes();
        self.inner.push(class.clone());
        assert(self.classes() =~= s.push(class@));
        proof {
            lemma_push_keeps_well_formed(s, class@);
        }
        Ok(())
    }

    fn get_class_by_id(&self, class_id: &ClassID) -> (r: Result<Class, DatabaseError>)
        ensures
            r matches Err(e) ==> !e.is_transport(),
    {
        match self.find_class(class_id.0) {
            Some(i) => Ok(self.inner[i].clone()),
            None => Err(DatabaseError::ClassNotFound),
        }
    }

    fn get_class_by_pass_phrase(&self, pass_phrase: &PassPhrase) -> (r: Result<
        Class,
        DatabaseError,
    >)
        ensures
            r matches Err(e) ==> !e.is_transport(),
    {
        match self.find_pass_phrase(pass_phrase) {
            Some(i) => Ok(self.inner[i].clone()),
            None => Err(DatabaseError::ClassNotFound),
        }
    }

    fn rename_class(&mut self, class_id: &ClassID, new_name: &str) -> (r: Result<
        (),
        DatabaseError,
    >)
        ensures
            r matches Err(e) ==> !e.is_transport(),
    {
        let ghost s = self.classes();
        match self.find_class(class_id.0) {
            Some(i) => {
                self.inner[i].name = new_name.to_owned();
                proof {
                    let v = ClassView { name: new_name@, ..s[i as int] };
                    assert(self.classes() =~= s.update(i as int, v));
                    lemma_rename_keeps_well_formed(s, class_id.0, new_name@);
                }
                Ok(())
            },
            None => Err(DatabaseError::ClassNotFound),
        }
    }

    fn delete_class(&mut self, class_id: &ClassID) -> (r: Result<Class, DatabaseError>)
        ensures
            r matches Err(e) ==> !e.is_transport(),
    {
        let ghost s = self.classes();
        match self.find_class(class_id.0) {
            Some(i) => {
                let c = self.inner.remove(i);
                proof {
                    assert(self.classes() =~= s.remove(i as int));
                    lemma_remove_class_keeps_well_formed(s, class_id.0);
                }
                Ok(c)
            },
            None => Err(DatabaseError::ClassNotFound),
        }
    }

    fn class_id_exists(&self, class_id: &ClassID) -> (r: Result<bool, DatabaseError>)
        ensures
            r is Ok,
    {
        let mut i: usize = 0;
        while i < self.inner.len()
            invariant
                i <= self.inner@.len(),
                forall|k: int| 0 <= k < i ==> #[trigger] self.classes()[k].id != class_id.0,
            decreases self.inner@.len() - i,
        {
            if self.inner[i].id.0 == class_id.0 {
                assert(self.classes()[i as int].id == class_id.0);
                return Ok(true);
            }
            i = i + 1;
        }
        Ok(false)
    }

    fn pass_phrase_exists(&self, pass_phrase: &PassPhrase) -> (r: Result<bool, DatabaseError>)
        ensures
            r is Ok,
    {
        let mut i: usize = 0;
        while i < self.inner.len()
            invariant
                i <= self.inner@.len(),
                forall|k: int|
                    0 <= k < i ==> #[trigger] self.classes()[k].pass_phrase != pass_phrase.0@,
            decreases self.inner@.len() - i,
        {
            if self.inner[i].pass_phrase.0 == pass_phrase.0 {
                assert(self.classes()[i as int].pass_phrase == pass_phrase.0@);
                return Ok(true);
            }
            i = i + 1;
        }
        Ok(false)
    }

    fn get_files(&self, class_id: &ClassID) -> (r: Result<Vec<File>, DatabaseError>)
        ensures
            r matches Err(e) ==> !e.is_transport(),
    {
        match self.find_class(class_id.0) {
            Some(i) => {
                let files = self.inner[i].files.clone();
                assert(files@ =~= self.inner@[i as int].files@);
                Ok(files)
            },
            None => Err(DatabaseError::ClassNotFound),
        }
    }

    fn add_new_file(&mut self, class_id: &ClassID, file: &File) -> (r: Result<(), DatabaseError>)
        ensures
            r matches Err(e) ==> !e.is_transport(),
    {
        let ghost s = self.classes();
        match self.find_class(class_id.0) {
            Some(i) => {
                self.inner[i].files.push(file.clone());
                proof {
                    let v = ClassView { files: s[i as int].files.push(file@), ..s[i as int] };
                    assert(self.inner@[i as int]@.files =~= v.files);
                    assert(self.classes() =~= s.update(i as int, v));
                    lemma_append_file_keeps_well_formed(s, class_id.0, file@);
                }
                Ok(())
            },
            None => Err(DatabaseError::ClassNotFound),
        }
    }

    fn get_file_by_id(&self, file_id: &FileID) -> (r: Result<File, DatabaseError>)
        ensures
            r matches Err(e) ==> !e.is_transport(),
    {
        match self.find_file(file_id.0) {
            Some((i, j)) => Ok(self.inner[i].files[j].clone()),
            None => Err(DatabaseError::FileNotFound),
        }
    }

    fn delete_file(&mut self, file_id: &FileID) -> (r: Result<File, DatabaseError>)
        ensures
            r matches Err(e) ==> !e.is_transport(),
    {
        let ghost s = self.classes();
        match self.find_file(file_id.0) {
            Some((i, j)) => {
                let f = self.inner[i].files.remove(j);
                proof {
                    let v = ClassView { files: s[i as int].files.remove(j as int), ..s[i as int] };
                    assert(self.inner@[i as int]@.files =~= v.files);
                    assert(self.classes() =~= s.update(i as int, v));
                    lemma_remove_file_keeps_well_formed(s, file_id.0);
                }
                Ok(f)
            },
            None => Err(DatabaseError::FileNotFound),
        }
    }

    fn file_id_exists(&self, file_id: &FileID) -> (r: Result<bool, DatabaseError>)
        ensures
            r is Ok,
    {
        let mut i: usize = 0;
        while i < self.inner.len()
            invariant
                i <= self.inner@.len(),
                forall|k: int, l: int|
                    0 <= k < i && 0 <= l < self.classes()[k].files.len() ==> #[trigger] self.classes()[k].files[l].id
                        != file_id.0,
            decreases self.inner@.len() - i,
        {
            let files = &self.inner[i].files;
            let mut j: usize = 0;
            while j < files.len()
                invariant
                    i < self.inner@.len(),
                    files == self.inner@[i as int].files,
                    j <= files@.len(),
                    forall|l: int|
                        0 <= l < j ==> #[trigger] self.classes()[i as int].files[l].id != file_id.0,
                decreases files@.len() - j,
            {
                if files[j].id.0 == file_id.0 {
                    assert(self.classes()[i as int].files[j as int].id == file_id.0);
                    return Ok(true);
                }
                j = j + 1;
            }
            i = i + 1;
        }
        Ok(false)
    }
}

} // verus!
