use crate::db::{has_class_id, has_file_id, has_pass_phrase, insertable, Database, DatabaseError};
use vstd::prelude::*;

verus! {

/// Number of characters in a passphrase.
pub const PASS_LEN: usize = 6;

/// Number of characters a passphrase character is drawn from.
pub const ALPHABET_LEN: u8 = 62;

/// Identifier of a class: the 128-bit value of a random (version 4) UUID.
#[derive(Debug, Clone, Copy, PartialEq, Eq, Structural)]
pub struct ClassID(pub u128);

/// Identifier of a file record: the 128-bit value of a random (version 4) UUID.
#[derive(Debug, Clone, Copy, PartialEq, Eq, Structural)]
pub struct FileID(pub u128);

/// Short alternate lookup key of a class.
#[derive(Debug, PartialEq, Eq)]
pub struct PassPhrase(pub String);

/// Opaque tag tying a file to an augmented-reality marker.
#[derive(Debug, PartialEq, Eq)]
pub struct ArMarkerID(pub String);

/// Seconds since the Unix epoch.
#[derive(Debug, Clone, Copy, PartialEq, Eq, Structural)]
pub struct EpochTime(pub i64);

/// The text of an identifier could not be read as a UUID.
#[derive(Debug, Clone, Copy, PartialEq, Eq, Structural)]
pub struct IdParseError;

/// A class: a name, its fixed identifier and passphrase, and its files in order.
#[derive(Debug, PartialEq, Eq)]
pub struct Class {
    pub name: String,
    pub id: ClassID,
    pub pass_phrase: PassPhrase,
    pub files: Vec<File>,
}

/// An uploaded file record.
#[derive(Debug, PartialEq, Eq)]
pub struct File {
    pub id: FileID,
    pub marker_id: ArMarkerID,
    pub resource_info: ResourceInfo,
}

/// Name and creation time of an uploaded file.
#[derive(Debug, PartialEq, Eq)]
pub struct ResourceInfo {
    pub filename: String,
    pub created_at: EpochTime,
}

/// The value of a file record.
pub struct FileView {
    pub id: u128,
    pub marker_id: Seq<char>,
    pub filename: Seq<char>,
    pub created_at: i64,
}

/// The value of a class.
pub struct ClassView {
    pub name: Seq<char>,
    pub id: u128,
    pub pass_phrase: Seq<char>,
    pub files: Seq<FileView>,
}

impl View for File {
    type V = FileView;

    open spec fn view(&self) -> FileView {
        FileView {
            id: self.id.0,
            marker_id: self.marker_id.0@,
            filename: self.resource_info.filename@,
            created_at: self.resource_info.created_at.0,
        }
    }
}

impl View for Class {
    type V = ClassView;

    open spec fn view(&self) -> ClassView {
        ClassView {
            name: self.name@,
            id: self.id.0,
            pass_phrase: self.pass_phrase.0@,
            files: self.files@.map_values(|f: File| f@),
        }
    }
}

impl Clone for PassPhrase {
    fn clone(&self) -> (r: Self)
        ensures
            r == *self,
    {
        PassPhrase(self.0.clone())
    }
}

impl Clone for ArMarkerID {
    fn clone(&self) -> (r: Self)
        ensures
            r == *self,
    {
        ArMarkerID(self.0.clone())
    }
}

impl Clone for ResourceInfo {
    fn clone(&self) -> (r: Self)
        ensures
            r == *self,
    {
        ResourceInfo { filename: self.filename.clone(), created_at: self.created_at }
    }
}

impl Clone for File {
    fn clone(&self) -> (r: Self)
        ensures
            r == *self,
    {
        File {
            id: self.id,
            marker_id: self.marker_id.clone(),
            resource_info: self.resource_info.clone(),
        }
    }
}

impl Clone for Class {
    fn clone(&self) -> (r: Self)
        ensures
            r@ == self@,
    {
        let files = self.files.clone();
        assert(files@ =~= self.files@);
        Class {
            name: self.name.clone(),
            id: self.id,
            pass_phrase: self.pass_phrase.clone(),
            files,
        }
    }
}

/// The character that index `i` of the passphrase alphabet stands for:
/// upper-case letters, then lower-case letters, then digits.
pub open spec fn alphabet_at(i: int) -> char {
    if i < 26 {
        (65 + i) as char
    } else if i < 52 {
        (97 + (i - 26)) as char
    } else {
        (48 + (i - 52)) as char
    }
}

/// A character of the passphrase alphabet: an ASCII letter or digit.
pub open spec fn is_pass_char(c: char) -> bool {
    exists|i: int| 0 <= i < ALPHABET_LEN && alphabet_at(i) == c
}

/// A passphrase of the generated shape: `PASS_LEN` alphabet characters.
pub open spec fn is_generated_pass_phrase(p: Seq<char>) -> bool {
    &&& p.len() == PASS_LEN
    &&& forall|i: int| 0 <= i < p.len() ==> is_pass_char(#[trigger] p[i])
}

/// The value that a UUID's text stands for, `None` where it is no UUID.
pub uninterp spec fn uuid_text_value(text: Seq<char>) -> Option<u128>;

/// Relies on `uuid::Uuid::new_v4`: a fresh random UUID, read as its 128-bit value.
/// Nothing is promised about the value.
#[verifier::external_body]
fn random_uuid() -> (r: u128) {
    uuid::Uuid::new_v4().as_u128()
}

/// Relies on `uuid::Uuid::parse_str`: reads the textual forms of a UUID and
/// gives its 128-bit value, or its error where the text is no UUID.
#[verifier::external_body]
fn parse_uuid(text: &str) -> (r: Result<u128, uuid::Error>)
    ensures
        match r {
            Ok(v) => uuid_text_value(text@) == Some(v),
            Err(_) => uuid_text_value(text@) is None,
        },
{
    match uuid::Uuid::parse_str(text) {
        Ok(u) => Ok(u.as_u128()),
        Err(e) => Err(e),
    }
}

#[verifier::external_type_specification]
#[verifier::external_body]
pub struct ExUuidError(uuid::Error);

/// Relies on `rand::Rng::gen_range` over the operating system's generator:
/// a number below `bound`, which must be positive.
#[verifier::external_body]
fn random_below(bound: u8) -> (r: u8)
    requires
        bound > 0,
    ensures
        r < bound,
{
    rand::Rng::gen_range(&mut rand::rngs::OsRng, 0..bound)
}

/// Relies on `String::push`: appends one character.
#[verifier::external_body]
fn push_char(s: &mut String, c: char)
    ensures
        final(s)@ == old(s)@.push(c),
{
    s.push(c)
}

fn alphabet_char(i: u8) -> (c: char)
    requires
        i < ALPHABET_LEN,
    ensures
        c == alphabet_at(i as int),
        is_pass_char(c),
{
    if i < 26 {
        (65u8 + i) as char
    } else if i < 52 {
        (97u8 + (i - 26)) as char
    } else {
        (48u8 + (i - 52)) as char
    }
}

/// Settles one round of generation: keeps the candidate where the store's
/// existence probe did not find it, asks for another round (`None`) where it did,
/// and passes a failed probe on.
pub fn accept_candidate<T>(candidate: T, probe: Result<bool, DatabaseError>) -> (r: Result<
    Option<T>,
    DatabaseError,
>)
    ensures
        r == match probe {
            Ok(false) => Ok(Some(candidate)),
            Ok(true) => Ok(None),
            Err(e) => Err::<Option<T>, DatabaseError>(e),
        },
{
    match probe {
        Ok(false) => Ok(Some(candidate)),
        Ok(true) => Ok(None),
        Err(e) => Err(e),
    }
}

impl ClassID {
    /// One round of generation: a random identifier that `db` does not hold, or
    /// `None` where the candidate was taken and a new round is needed.
    pub fn new<D: Database>(db: &D) -> (r: Result<Option<ClassID>, DatabaseError>)
        ensures
            r matches Ok(Some(id)) ==> !has_class_id(db.classes(), id.0),
            r matches Ok(None) ==> db.classes().len() > 0,
            r matches Err(e) ==> e.is_transport(),
    {
        let candidate = ClassID::candidate();
        let probe = db.class_id_exists(&candidate);
        accept_candidate(candidate, probe)
    }

    /// A random candidate identifier, not yet checked against any store.
    pub fn candidate() -> (r: ClassID) {
        ClassID(random_uuid())
    }

    /// Reads the text of a UUID.
    pub fn from_str(text: &str) -> (r: Result<ClassID, IdParseError>)
        ensures
            match uuid_text_value(text@) {
                Some(v) => r == Ok::<ClassID, IdParseError>(ClassID(v)),
                None => r == Err::<ClassID, IdParseError>(IdParseError),
            },
    {
        match parse_uuid(text) {
            Ok(v) => Ok(ClassID(v)),
            Err(_) => Err(IdParseError),
        }
    }
}

impl FileID {
    /// One round of generation: a random identifier that no file in `db` has, or
    /// `None` where the candidate was taken and a new round is needed.
    pub fn new<D: Database>(db: &D) -> (r: Result<Option<FileID>, DatabaseError>)
        ensures
            r matches Ok(Some(id)) ==> !has_file_id(db.classes(), id.0),
            r matches Ok(None) ==> exists|v: u128| has_file_id(db.classes(), v),
            r matches Err(e) ==> e.is_transport(),
    {
        let candidate = FileID::candidate();
        let probe = db.file_id_exists(&candidate);
        proof {
            if probe == Ok::<bool, DatabaseError>(true) {
                assert(has_file_id(db.classes(), candidate.0));
            }
        }
        accept_candidate(candidate, probe)
    }

    /// A random candidate identifier, not yet checked against any store.
    pub fn candidate() -> (r: FileID) {
        FileID(random_uuid())
    }

    /// Reads the text of a UUID.
    pub fn from_str(text: &str) -> (r: Result<FileID, IdParseError>)
        ensures
            match uuid_text_value(text@) {
                Some(v) => r == Ok::<FileID, IdParseError>(FileID(v)),
                None => r == Err::<FileID, IdParseError>(IdParseError),
            },
    {
        match parse_uuid(text) {
            Ok(v) => Ok(FileID(v)),
            Err(_) => Err(IdParseError),
        }
    }
}

impl PassPhrase {
    /// One round of generation: a random passphrase that no class in `db` has, or
    /// `None` where the candidate was taken and a new round is needed.
    pub fn new<D: Database>(db: &D) -> (r: Result<Option<PassPhrase>, DatabaseError>)
        ensures
            r matches Ok(Some(p)) ==> !has_pass_phrase(db.classes(), p.0@)
                && is_generated_pass_phrase(p.0@),
            r matches Ok(None) ==> db.classes().len() > 0,
            r matches Err(e) ==> e.is_transport(),
    {
        let candidate = PassPhrase::candidate();
        let probe = db.pass_phrase_exists(&candidate);
        accept_candidate(candidate, probe)
    }

    /// A random candidate passphrase: `PASS_LEN` characters drawn independently,
    /// with replacement, from the alphabet. Not yet checked against any store.
    pub fn candidate() -> (r: PassPhrase)
        ensures
            is_generated_pass_phrase(r.0@),
    {
        let mut indices: Vec<u8> = Vec::new();
        let mut n: usize = 0;
        while n < PASS_LEN
            invariant
                n <= PASS_LEN,
                indices@.len() == n,
                forall|i: int| 0 <= i < n ==> #[trigger] indices@[i] < ALPHABET_LEN,
            decreases PASS_LEN - n,
        {
            indices.push(random_below(ALPHABET_LEN));
            n = n + 1;
        }
        let r = PassPhrase::from_indices(&indices);
        assert forall|i: int| 0 <= i < r.0@.len() implies is_pass_char(#[trigger] r.0@[i]) by {
            let k = indices@[i] as int;
            assert(alphabet_at(k) == r.0@[i]);
        }
        r
    }

    /// The passphrase that the alphabet indices `indices` spell, one character
    /// per index.
    pub fn from_indices(indices: &Vec<u8>) -> (r: PassPhrase)
        requires
            forall|i: int| 0 <= i < indices@.len() ==> #[trigger] indices@[i] < ALPHABET_LEN,
        ensures
            r.0@ == indices@.map_values(|k: u8| alphabet_at(k as int)),
    {
        let mut text = String::new();
        let mut n: usize = 0;
        while n < indices.len()
            invariant
                n <= indices@.len(),
                forall|i: int| 0 <= i < indices@.len() ==> #[trigger] indices@[i] < ALPHABET_LEN,
                text@ == indices@.subrange(0, n as int).map_values(|k: u8| alphabet_at(k as int)),
            decreases indices@.len() - n,
        {
            let c = alphabet_char(indices[n]);
            push_char(&mut text, c);
            n = n + 1;
            assert(text@ =~= indices@.subrange(0, n as int).map_values(
                |k: u8| alphabet_at(k as int),
            ));
        }
        assert(indices@.subrange(0, n as int) =~= indices@);
        PassPhrase(text)
    }
}

impl Class {
    /// One round of generation of a new, empty class named `name`: its identifier
    /// and passphrase are new to `db`. `None` where a candidate was taken and a
    /// new round is needed.
    pub fn new<D: Database>(db: &D, name: String) -> (r: Result<Option<Class>, DatabaseError>)
        ensures
            r matches Ok(Some(c)) ==> {
                &&& c@.name == name@
                &&& c@.files == Seq::<FileView>::empty()
                &&& insertable(db.classes(), c@)
                &&& is_generated_pass_phrase(c@.pass_phrase)
            },
            r matches Ok(None) ==> db.classes().len() > 0,
            r matches Err(e) ==> e.is_transport(),
    {
        let id = match ClassID::new(db) {
            Ok(Some(id)) => id,
            Ok(None) => return Ok(None),
            Err(e) => return Err(e),
        };
        let pass_phrase = match PassPhrase::new(db) {
            Ok(Some(p)) => p,
            Ok(None) => return Ok(None),
            Err(e) => return Err(e),
        };
        Ok(Some(Class::empty(name, id, pass_phrase)))
    }

    /// A class with the given name, identifier and passphrase, and no files.
    pub fn empty(name: String, id: ClassID, pass_phrase: PassPhrase) -> (r: Class)
        ensures
            r@ == (ClassView {
                name: name@,
                id: id.0,
                pass_phrase: pass_phrase.0@,
                files: Seq::empty(),
            }),
    {
        let c = Class { name, id, pass_phrase, files: Vec::new() };
        assert(c@.files =~= Seq::<FileView>::empty());
        c
    }
}

impl File {
    /// One round of generation of a new file record: its identifier is new to
    /// `db`. `None` where the candidate was taken and a new round is needed.
    pub fn new<D: Database>(
        db: &D,
        marker_id: ArMarkerID,
        filename: String,
        created_at: EpochTime,
    ) -> (r: Result<Option<File>, DatabaseError>)
        ensures
            r matches Ok(Some(f)) ==> {
                &&& f@.marker_id == marker_id.0@
                &&& f@.filename == filename@
                &&& f@.created_at == created_at.0
                &&& !has_file_id(db.classes(), f@.id)
            },
            r matches Ok(None) ==> exists|v: u128| has_file_id(db.classes(), v),
            r matches Err(e) ==> e.is_transport(),
    {
        let id = match FileID::new(db) {
            Ok(Some(id)) => id,
            Ok(None) => return Ok(None),
            Err(e) => return Err(e),
        };
        Ok(Some(File::from_parts(id, marker_id, filename, created_at)))
    }

    /// A file record with the given identifier, marker, name and creation time.
    pub fn from_parts(id: FileID, marker_id: ArMarkerID, filename: String, created_at: EpochTime) -> (r: File)
        ensures
            r@ == (FileView {
                id: id.0,
                marker_id: marker_id.0@,
                filename: filename@,
                created_at: created_at.0,
            }),
    {
        File { id, marker_id, resource_info: ResourceInfo { filename, created_at } }
    }
}

} // verus!
