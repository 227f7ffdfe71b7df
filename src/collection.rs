use vstd::prelude::*;
use crate::codec::{decode_document, document_entries, document_view, encode_document};
use crate::entry::{Entry, IdAllocator, MAX_ID};
use crate::error::CoreError;
use crate::json::{json_parsed, json_rendered, parse_json, render_json, Json};

verus! {

/// Ids rise strictly along the sequence.
pub open spec fn ids_increasing(s: Seq<Entry>) -> bool {
    forall|i: int, j: int| 0 <= i < j < s.len() ==> s[i].id < s[j].id
}

/// No two positions hold the same id.
pub open spec fn ids_distinct(s: Seq<Entry>) -> bool {
    forall|i: int, j: int| 0 <= i < s.len() && 0 <= j < s.len() && i != j ==> s[i].id != s[j].id
}

/// Every id in the sequence is below `bound`.
pub open spec fn ids_below(s: Seq<Entry>, bound: int) -> bool {
    forall|i: int| 0 <= i < s.len() ==> s[i].id < bound
}

/// One past the last id, or 1 for no entries.
pub open spec fn next_id_after(s: Seq<Entry>) -> int {
    if s.len() == 0 {
        1
    } else {
        s.last().id + 1
    }
}

/// The two sequences hold the same entries.
pub open spec fn same_entries(a: Seq<Entry>, b: Seq<Entry>) -> bool {
    &&& forall|i: int| 0 <= i < a.len() ==> b.contains(#[trigger] a[i])
    &&& forall|j: int| 0 <= j < b.len() ==> a.contains(#[trigger] b[j])
}

/// `pattern` occurs in `text` at some position.
pub open spec fn is_substring(pattern: Seq<char>, text: Seq<char>) -> bool {
    exists|i: int|
        0 <= i && i + pattern.len() <= text.len() && #[trigger] text.subrange(i, i + pattern.len())
            == pattern
}

/// The term occurs in the entry's command or in its description.
pub open spec fn entry_matches(e: Entry, term: Seq<char>) -> bool {
    is_substring(term, e.command@) || is_substring(term, e.description@)
}

/// The search predicate for `term`.
pub open spec fn matching(term: Seq<char>) -> spec_fn(Entry) -> bool {
    |e: Entry| entry_matches(e, term)
}

/// `c` and `ids` are what loading the decoded entries `entries` gives:
/// the same entries ordered by id (left as they are when already so
/// ordered), and an allocator past the largest id.
pub open spec fn loaded(entries: Seq<Entry>, c: Collection, ids: IdAllocator) -> bool {
    &&& ids_distinct(entries)
    &&& c.wf()
    &&& same_entries(c.entries@, entries)
    &&& (ids_increasing(entries) ==> c.entries@ == entries)
    &&& ids.spec_next() == next_id_after(c.entries@)
}

/// The outcome of loading a parsed document.
pub open spec fn document_outcome(
    doc: Json,
    r: Result<(Collection, IdAllocator), CoreError>,
) -> bool {
    match document_entries(doc) {
        Some(es) => if ids_distinct(es) {
            r matches Ok((c, ids)) && loaded(es, c, ids)
        } else {
            r == Err::<(Collection, IdAllocator), CoreError>(CoreError::DataFormat)
        },
        None => r == Err::<(Collection, IdAllocator), CoreError>(CoreError::DataFormat),
    }
}

/// The outcome of loading stored text: empty text is an empty collection
/// with a fresh allocator; other text must parse and be a valid document.
pub open spec fn load_outcome(
    text: Seq<char>,
    r: Result<(Collection, IdAllocator), CoreError>,
) -> bool {
    if text.len() == 0 {
        r matches Ok((c, ids)) && c.entries@.len() == 0 && ids.spec_next() == 1
    } else {
        match json_parsed(text) {
            Some(doc) => document_outcome(doc, r),
            None => r == Err::<(Collection, IdAllocator), CoreError>(CoreError::DataFormat),
        }
    }
}

/// Relies on str::contains with a `&str` pattern: true exactly when the
/// pattern occurs in the text.
#[verifier::external_body]
fn text_contains(text: &str, pattern: &str) -> (r: bool)
    ensures
        r == is_substring(pattern@, text@),
{
    text.contains(pattern)
}

fn is_increasing(es: &Vec<Entry>) -> (r: bool)
    ensures
        r == ids_increasing(es@),
{
    let mut i: usize = 1;
    while i < es.len()
        invariant
            1 <= i,
            forall|a: int, b: int| 0 <= a < b < i && b < es@.len() ==> es@[a].id < es@[b].id,
        decreases es.len() - i,
    {
        if es[i - 1].id >= es[i].id {
            return false;
        }
        i = i + 1;
    }
    true
}

fn is_distinct(es: &Vec<Entry>) -> (r: bool)
    ensures
        r == ids_distinct(es@),
{
    let mut i: usize = 0;
    while i < es.len()
        invariant
            i <= es@.len(),
            forall|a: int, b: int| 0 <= a < i && 0 <= b < i && a != b ==> es@[a].id != es@[b].id,
        decreases es.len() - i,
    {
        let mut j: usize = 0;
        while j < i
            invariant
                i < es@.len(),
                j <= i,
                forall|a: int, b: int| 0 <= a < i && 0 <= b < i && a != b ==> es@[a].id != es@[b].id,
                forall|a: int| 0 <= a < j ==> es@[a].id != es@[i as int].id,
            decreases i - j,
        {
            if es[j].id == es[i].id {
                return false;
            }
            j = j + 1;
        }
        i = i + 1;
    }
    true
}

fn position_of_id(es: &Vec<Entry>, id: u8) -> (r: Option<usize>)
    ensures
        r matches Some(b) ==> b < es@.len() && es@[b as int].id == id,
        r is None ==> forall|b: int| 0 <= b < es@.len() ==> es@[b].id != id,
{
    let mut i: usize = 0;
    while i < es.len()
        invariant
            i <= es@.len(),
            forall|b: int| 0 <= b < i ==> es@[b].id != id,
        decreases es.len() - i,
    {
        if es[i].id == id {
            return Some(i);
        }
        i = i + 1;
    }
    None
}

/// The entries ordered by id.
fn sort_by_id(es: &Vec<Entry>) -> (r: Vec<Entry>)
    requires
        ids_distinct(es@),
    ensures
        ids_increasing(r@),
        same_entries(r@, es@),
{
    let mut out: Vec<Entry> = Vec::new();
    let mut k: u16 = 0;
    while k <= MAX_ID as u16
        invariant
            k <= MAX_ID + 1,
            ids_distinct(es@),
            ids_increasing(out@),
            ids_below(out@, k as int),
            forall|a: int| 0 <= a < out@.len() ==> es@.contains(#[trigger] out@[a]),
            forall|b: int| 0 <= b < es@.len() && es@[b].id < k ==> out@.contains(#[trigger] es@[b]),
        decreases MAX_ID + 1 - k,
    {
        let ghost prev = out@;
        match position_of_id(es, k as u8) {
            Some(b) => {
                let e = es[b].duplicate();
                out.push(e);
                proof {
                    assert(out@[prev.len() as int] == es@[b as int]);
                    assert forall|a: int| 0 <= a < out@.len() implies es@.contains(#[trigger] out@[a]) by {
                        if a < prev.len() {
                            assert(out@[a] == prev[a]);
                        }
                    }
                    assert forall|c: int| 0 <= c < es@.len() && es@[c].id < k + 1 implies out@.contains(
                        #[trigger] es@[c],
                    ) by {
                        if es@[c].id < k {
                            let a = choose|a: int| 0 <= a < prev.len() && prev[a] == es@[c];
                            assert(out@[a] == prev[a]);
                        } else {
                            assert(c == b);
                        }
                    }
                }
            },
            None => {},
        }
        k = k + 1;
    }
    proof {
        assert forall|b: int| 0 <= b < es@.len() implies out@.contains(#[trigger] es@[b]) by {
            assert(es@[b].id < k);
        }
    }
    out
}

/// A list of saved entries, ordered by id.
#[derive(Debug)]
pub struct Collection {
    pub entries: Vec<Entry>,
}

impl Collection {
    /// Ids rise strictly along the entries, so no two entries share one.
    pub open spec fn wf(&self) -> bool {
        ids_increasing(self.entries@)
    }

    /// A collection with no entries.
    pub fn new() -> (r: Collection)
        ensures
            r.entries@.len() == 0,
            r.wf(),
    {
        Collection { entries: Vec::new() }
    }

    /// Appends an entry at the end, as it is. The order by id is kept when
    /// the new id is above every id already present.
    pub fn save(&mut self, entry: Entry)
        ensures
            final(self).entries@ == old(self).entries@.push(entry),
            old(self).wf() && ids_below(old(self).entries@, entry.id as int) ==> final(self).wf(),
    {
        self.entries.push(entry);
    }

    /// Every entry, in order.
    pub fn list(&self) -> (r: Vec<Entry>)
        ensures
            r@ == self.entries@,
    {
        let mut out: Vec<Entry> = Vec::new();
        let mut i: usize = 0;
        while i < self.entries.len()
            invariant
                i <= self.entries@.len(),
                out@ == self.entries@.subrange(0, i as int),
            decreases self.entries.len() - i,
        {
            out.push(self.entries[i].duplicate());
            i = i + 1;
        }
        assert(out@ =~= self.entries@);
        out
    }

    /// The entries whose command or description contains `term`
    /// (case-sensitive), in order.
    pub fn search(&self, term: &str) -> (r: Vec<Entry>)
        ensures
            r@ == self.entries@.filter(matching(term@)),
    {
        let mut out: Vec<Entry> = Vec::new();
        let mut i: usize = 0;
        proof {
            reveal(Seq::filter);
            assert(self.entries@.subrange(0, 0) =~= Seq::<Entry>::empty());
            assert(out@ =~= self.entries@.subrange(0, 0).filter(matching(term@)));
        }
        while i < self.entries.len()
            invariant
                i <= self.entries@.len(),
                out@ == self.entries@.subrange(0, i as int).filter(matching(term@)),
            decreases self.entries.len() - i,
        {
            let e = &self.entries[i];
            let hit = text_contains(e.command.as_str(), term) || text_contains(
                e.description.as_str(),
                term,
            );
            proof {
                reveal(Seq::filter);
                assert(self.entries@.subrange(0, i + 1).drop_last() =~= self.entries@.subrange(
                    0,
                    i as int,
                ));
                assert(self.entries@.subrange(0, i + 1).last() == self.entries@[i as int]);
            }
            if hit {
                out.push(e.duplicate());
            }
            i = i + 1;
        }
        assert(self.entries@.subrange(0, self.entries@.len() as int) =~= self.entries@);
        out
    }

    /// Builds the collection of decoded entries: ordered by id, with an
    /// allocator that continues after the largest id. Two entries with one
    /// id make the data invalid.
    pub fn from_entries(entries: Vec<Entry>) -> (r: Result<(Collection, IdAllocator), CoreError>)
        ensures
            ids_distinct(entries@) ==> (r matches Ok((c, ids)) && loaded(entries@, c, ids)),
            ids_increasing(entries@) ==> (r matches Ok((c, _)) && c.entries@ == entries@),
            !ids_distinct(entries@) ==> r == Err::<(Collection, IdAllocator), CoreError>(
                CoreError::DataFormat,
            ),
    {
        let sorted = if is_increasing(&entries) {
            proof {
                assert forall|i: int| 0 <= i < entries@.len() implies entries@.contains(
                    #[trigger] entries@[i],
                ) by {}
            }
            entries
        } else if is_distinct(&entries) {
            sort_by_id(&entries)
        } else {
            return Err(CoreError::DataFormat);
        };
        let mut ids = IdAllocator::new();
        if sorted.len() > 0 {
            ids.seed(sorted[sorted.len() - 1].id);
        }
        Ok((Collection { entries: sorted }, ids))
    }

    /// Loads a parsed document: its entries ordered by id, or a data-format
    /// error where the document does not have the stored shape or repeats an
    /// id.
    pub fn from_document(doc: &Json) -> (r: Result<(Collection, IdAllocator), CoreError>)
        ensures
            document_outcome(*doc, r),
    {
        match decode_document(doc) {
            Some(entries) => Collection::from_entries(entries),
            None => Err(CoreError::DataFormat),
        }
    }

    /// Loads stored text. Empty text means nothing was stored yet and gives
    /// an empty collection; other text must be a valid entries document.
    pub fn load(text: &str) -> (r: Result<(Collection, IdAllocator), CoreError>)
        ensures
            load_outcome(text@, r),
    {
        if text.is_empty() {
            return Ok((Collection::new(), IdAllocator::new()));
        }
        match parse_json(text) {
            Some(doc) => Collection::from_document(&doc),
            None => Err(CoreError::DataFormat),
        }
    }

    /// The document that stores this collection; it decodes to the same
    /// entries in the same order.
    pub fn to_document(&self) -> (r: Json)
        ensures
            document_entries(r) == Some(self.entries@),
            r.model() == document_view(self.entries@),
    {
        encode_document(&self.entries)
    }

    /// The stored text of this collection: the pretty-printed document.
    pub fn to_text(&self) -> (r: String)
        ensures
            r@ == json_rendered(document_view(self.entries@)),
    {
        let doc = self.to_document();
        render_json(&doc)
    }

    /// Creates an entry with the next id and appends it. The collection
    /// stays ordered by id and the allocator stays past every id in it.
    pub fn add(&mut self, command: String, description: String, ids: &mut IdAllocator) -> (r:
        Result<Entry, CoreError>)
        requires
            old(self).wf(),
            ids_below(old(self).entries@, old(ids).spec_next() as int),
        ensures
            final(self).wf(),
            ids_below(final(self).entries@, final(ids).spec_next() as int),
            old(ids).spec_next() <= MAX_ID ==> r == Ok::<Entry, CoreError>(
                Entry { id: old(ids).spec_next() as u8, command, description },
            ) && final(self).entries@ == old(self).entries@.push(
                Entry { id: old(ids).spec_next() as u8, command, description },
            ) && final(ids).spec_next() == old(ids).spec_next() + 1,
            old(ids).spec_next() > MAX_ID ==> r == Err::<Entry, CoreError>(CoreError::IdsExhausted)
                && final(self).entries@ == old(self).entries@,
    {
        match Entry::new(command, description, ids) {
            Some(entry) => {
                let added = entry.duplicate();
                let ghost before = self.entries@;
                self.save(entry);
                proof {
                    assert forall|i: int| 0 <= i < self.entries@.len() implies self.entries@[i].id
                        < ids.spec_next() by {
                        if i < before.len() {
                            assert(self.entries@[i] == before[i]);
                        }
                    }
                }
                Ok(added)
            },
            None => Err(CoreError::IdsExhausted),
        }
    }
}

} // verus!
