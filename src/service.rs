use vstd::prelude::*;
use crate::codec::document_view;
use crate::collection::{ids_below, load_outcome, matching, Collection};
use crate::json::json_rendered;
use crate::entry::{Entry, IdAllocator, MAX_ID};
use crate::error::CoreError;

verus! {

/// rusoto_core::Region, carried through opaquely to the remote client.
#[verifier::external_type_specification]
#[verifier::external_body]
pub struct ExRegion(rusoto_core::Region);

/// A durable store that holds the whole entries document.
pub trait Backend {
    /// The whole stored text; empty when nothing has been stored yet.
    fn read_all(&self) -> Result<String, ()>;

    /// Replaces the whole stored text.
    fn write_all(&mut self, text: &str) -> Result<(), ()>;
}

/// The entries document in a file under the user's home directory.
pub struct LocalStorage {}

impl LocalStorage {
    pub fn new() -> (r: LocalStorage) {
        LocalStorage {}
    }

    /// Where the file lies, relative to the home directory.
    pub fn relative_path(&self) -> (r: &'static str)
        ensures
            r@ == ".cargo/entries.json"@,
    {
        ".cargo/entries.json"
    }
}

/// The entries document as one object in a bucket of a remote object store.
pub struct S3Storage {
    bucket: String,
    key: String,
    region: rusoto_core::Region,
}

impl S3Storage {
    pub fn new(bucket: String, key: String, region: rusoto_core::Region) -> (r: S3Storage)
        ensures
            r.spec_bucket() == bucket@,
            r.spec_key() == key@,
            r.spec_region() == region,
    {
        S3Storage { bucket, key, region }
    }

    pub closed spec fn spec_bucket(&self) -> Seq<char> {
        self.bucket@
    }

    pub closed spec fn spec_key(&self) -> Seq<char> {
        self.key@
    }

    pub fn bucket(&self) -> (r: &String)
        ensures
            r@ == self.spec_bucket(),
    {
        &self.bucket
    }

    pub fn key(&self) -> (r: &String)
        ensures
            r@ == self.spec_key(),
    {
        &self.key
    }

    pub closed spec fn spec_region(&self) -> rusoto_core::Region {
        self.region
    }

    pub fn region(&self) -> (r: &rusoto_core::Region)
        ensures
            *r == self.spec_region(),
    {
        &self.region
    }
}

/// A command to carry out against the store.
pub enum Verb {
    Add { command: String, description: String },
    Search { term: String },
    List,
}

/// What a command gives back.
pub enum Outcome {
    /// The entry that was created and stored.
    Added(Entry),
    /// The entries to show.
    Shown(Vec<Entry>),
}

/// The outcome of loading what a read of the store gave: a failed read is an
/// I/O error, and text is loaded as `Collection::load` does.
pub open spec fn read_outcome(
    read: Result<String, ()>,
    r: Result<(Collection, IdAllocator), CoreError>,
) -> bool {
    match read {
        Ok(text) => load_outcome(text@, r),
        Err(()) => r == Err::<(Collection, IdAllocator), CoreError>(CoreError::Io),
    }
}

/// Loads the collection from the result of reading the store.
pub fn load_read(read: Result<String, ()>) -> (r: Result<(Collection, IdAllocator), CoreError>)
    ensures
        read_outcome(read, r),
{
    match read {
        Ok(text) => Collection::load(text.as_str()),
        Err(()) => Err(CoreError::Io),
    }
}

/// Loads the collection from whatever the backend holds.
pub fn load_from<B: Backend>(backend: &B) -> (r: Result<(Collection, IdAllocator), CoreError>)
    ensures
        exists|read: Result<String, ()>| read_outcome(read, r),
{
    let read = backend.read_all();
    load_read(read)
}

/// What to do after the store was read: write a new text for an added entry,
/// or return a result at once.
pub enum Step {
    Store { text: String, entry: Entry },
    Done(Result<Outcome, CoreError>),
}

/// What `decide` gives for a read result and a command, once the read
/// result has loaded as `loaded`:
/// - a failed load returns its error;
/// - an add with an id left writes the rendered document of the loaded
///   entries followed by the new entry, which has the next id and the given
///   text; with no id left it returns `IdsExhausted`;
/// - search and list return the matching or all loaded entries.
pub open spec fn decided(
    loaded: Result<(Collection, IdAllocator), CoreError>,
    verb: Verb,
    step: Step,
) -> bool {
    match loaded {
        Err(e) => step == Step::Done(Err(e)),
        Ok((c, ids)) => match verb {
            Verb::Add { command, description } => if ids.spec_next() <= MAX_ID {
                let e = Entry { id: ids.spec_next() as u8, command, description };
                step matches Step::Store { text, entry } && entry == e && text@ == json_rendered(
                    document_view(c.entries@.push(e)),
                )
            } else {
                step == Step::Done(Err(CoreError::IdsExhausted))
            },
            Verb::Search { term } => step matches Step::Done(Ok(Outcome::Shown(v))) && v@
                == c.entries@.filter(matching(term@)),
            Verb::List => step matches Step::Done(Ok(Outcome::Shown(v))) && v@ == c.entries@,
        },
    }
}

/// Decides a command from the result of reading the store.
pub fn decide(read: Result<String, ()>, verb: Verb) -> (r: Step)
    ensures
        exists|loaded: Result<(Collection, IdAllocator), CoreError>|
            #![trigger read_outcome(read, loaded)]
            read_outcome(read, loaded) && decided(loaded, verb, r),
{
    let loaded = load_read(read);
    let (mut collection, mut ids) = match loaded {
        Ok(pair) => pair,
        Err(e) => {
            return Step::Done(Err(e));
        },
    };
    proof {
        let t = read->Ok_0@;
        lemma_loaded_ids_below(t, collection, ids);
    }
    match verb {
        Verb::Add { command, description } => match collection.add(command, description, &mut ids) {
            Ok(entry) => {
                let text = collection.to_text();
                Step::Store { text, entry }
            },
            Err(e) => Step::Done(Err(e)),
        },
        Verb::Search { term } => Step::Done(Ok(Outcome::Shown(collection.search(term.as_str())))),
        Verb::List => Step::Done(Ok(Outcome::Shown(collection.list()))),
    }
}

/// Reports an added entry once its text was written: success when the
/// write went through, an I/O error when it failed.
pub fn finish(entry: Entry, written: Result<(), ()>) -> (r: Result<Outcome, CoreError>)
    ensures
        written is Ok ==> r == Ok::<Outcome, CoreError>(Outcome::Added(entry)),
        written is Err ==> r == Err::<Outcome, CoreError>(CoreError::Io),
{
    match written {
        Ok(()) => Ok(Outcome::Added(entry)),
        Err(()) => Err(CoreError::Io),
    }
}

/// Carries out one command: reads the store, decides, and for an added
/// entry writes the decided text and reports how the write went.
pub fn execute<B: Backend>(backend: &mut B, verb: Verb) -> (r: Result<Outcome, CoreError>)
    ensures
        exists|loaded: Result<(Collection, IdAllocator), CoreError>, step: Step|
            #![trigger decided(loaded, verb, step)]
            (exists|read: Result<String, ()>| read_outcome(read, loaded)) && decided(
                loaded,
                verb,
                step,
            ) && match step {
                Step::Done(x) => r == x,
                Step::Store { text, entry } => r == Ok::<Outcome, CoreError>(Outcome::Added(entry))
                    || r == Err::<Outcome, CoreError>(CoreError::Io),
            },
{
    let read = backend.read_all();
    let step = decide(read, verb);
    match step {
        Step::Store { text, entry } => {
            let written = backend.write_all(text.as_str());
            finish(entry, written)
        },
        Step::Done(r) => r,
    }
}

/// A loaded collection is ordered by id and its allocator lies past every id.
pub proof fn lemma_loaded_ids_below(t: Seq<char>, c: Collection, ids: IdAllocator)
    requires
        load_outcome(t, Ok((c, ids))),
    ensures
        c.wf(),
        ids_below(c.entries@, ids.spec_next() as int),
{
}

} // verus!
