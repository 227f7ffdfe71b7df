use vstd::prelude::*;
use crate::entry::{Entry, MAX_ID};
use crate::json::{Json, JsonView};

verus! {

/// The value of the first member named `key`.
pub open spec fn member(fields: Seq<(String, Json)>, key: Seq<char>) -> Option<Json>
    decreases fields.len(),
{
    if fields.len() == 0 {
        None
    } else if fields[0].0@ == key {
        Some(fields[0].1)
    } else {
        member(fields.drop_first(), key)
    }
}

/// The entry that a JSON object describes: an `id` that fits an entry id,
/// and text `command` and `description` members. Other members are ignored.
pub open spec fn entry_of(j: Json) -> Option<Entry> {
    match j {
        Json::Object(fs) => match (
            member(fs@, "id"@),
            member(fs@, "command"@),
            member(fs@, "description"@),
        ) {
            (Some(Json::Number(Some(n))), Some(Json::Str(c)), Some(Json::Str(d))) => {
                if n <= MAX_ID {
                    Some(Entry { id: n as u8, command: c, description: d })
                } else {
                    None
                }
            },
            _ => None,
        },
        _ => None,
    }
}

/// The entries of a list of JSON values, when each one describes an entry.
pub open spec fn entries_of(items: Seq<Json>) -> Option<Seq<Entry>>
    decreases items.len(),
{
    if items.len() == 0 {
        Some(Seq::empty())
    } else {
        match (entries_of(items.drop_last()), entry_of(items.last())) {
            (Some(es), Some(e)) => Some(es.push(e)),
            _ => None,
        }
    }
}

/// The entries of a stored document: an object whose `entries` member is a
/// list of entry objects.
pub open spec fn document_entries(doc: Json) -> Option<Seq<Entry>> {
    match doc {
        Json::Object(fs) => match member(fs@, "entries"@) {
            Some(Json::Array(items)) => entries_of(items@),
            _ => None,
        },
        _ => None,
    }
}

/// The stored form of one entry: an object with the members `id`,
/// `command` and `description`, in that order.
pub open spec fn entry_view(e: Entry) -> JsonView {
    JsonView::Object(
        seq![
            ("id"@, JsonView::Number(Some(e.id as u64))),
            ("command"@, JsonView::Str(e.command@)),
            ("description"@, JsonView::Str(e.description@)),
        ],
    )
}

/// The stored document of a list of entries: an object whose only member,
/// `entries`, lists them in order.
pub open spec fn document_view(entries: Seq<Entry>) -> JsonView {
    JsonView::Object(
        seq![("entries"@, JsonView::Array(entries.map_values(|e: Entry| entry_view(e))))],
    )
}

proof fn lemma_prefix_fails(items: Seq<Json>, k: int)
    requires
        0 <= k <= items.len(),
        entries_of(items.subrange(0, k)) is None,
    ensures
        entries_of(items) is None,
    decreases items.len() - k,
{
    if k == items.len() {
        assert(items.subrange(0, k) =~= items);
    } else {
        assert(items.subrange(0, k + 1).drop_last() =~= items.subrange(0, k));
        lemma_prefix_fails(items, k + 1);
    }
}

proof fn lemma_entries_of_each(items: Seq<Json>, es: Seq<Entry>)
    requires
        items.len() == es.len(),
        forall|j: int| 0 <= j < items.len() ==> entry_of(#[trigger] items[j]) == Some(es[j]),
    ensures
        entries_of(items) == Some(es),
    decreases items.len(),
{
    if items.len() > 0 {
        lemma_entries_of_each(items.drop_last(), es.drop_last());
        assert(es.drop_last().push(es.last()) =~= es);
    }
}

/// The index of the first member named `key`.
fn find_member(fields: &Vec<(String, Json)>, key: &String) -> (r: Option<usize>)
    ensures
        match r {
            Some(i) => i < fields@.len() && member(fields@, key@) == Some(fields@[i as int].1),
            None => member(fields@, key@) is None,
        },
{
    let mut i: usize = 0;
    assert(fields@.subrange(0, fields@.len() as int) =~= fields@);
    while i < fields.len()
        invariant
            i <= fields@.len(),
            member(fields@, key@) == member(fields@.subrange(i as int, fields@.len() as int), key@),
        decreases fields.len() - i,
    {
        if fields[i].0 == *key {
            return Some(i);
        }
        assert(fields@.subrange(i as int, fields@.len() as int).drop_first() =~= fields@.subrange(
            i + 1,
            fields@.len() as int,
        ));
        i = i + 1;
    }
    None
}

/// Reads one entry object.
pub fn decode_entry(j: &Json) -> (r: Option<Entry>)
    ensures
        r == entry_of(*j),
{
    match j {
        Json::Object(fs) => {
            let id_key = "id".to_owned();
            let command_key = "command".to_owned();
            let description_key = "description".to_owned();
            match (
                find_member(fs, &id_key),
                find_member(fs, &command_key),
                find_member(fs, &description_key),
            ) {
                (Some(a), Some(b), Some(c)) => match (&fs[a].1, &fs[b].1, &fs[c].1) {
                    (Json::Number(Some(n)), Json::Str(command), Json::Str(description)) => {
                        if *n <= MAX_ID as u64 {
                            Some(
                                Entry {
                                    id: *n as u8,
                                    command: command.clone(),
                                    description: description.clone(),
                                },
                            )
                        } else {
                            None
                        }
                    },
                    _ => None,
                },
                _ => None,
            }
        },
        _ => None,
    }
}

/// Reads the entries of a stored document, in document order; `None` where
/// the document does not have the stored shape.
pub fn decode_document(doc: &Json) -> (r: Option<Vec<Entry>>)
    ensures
        r is None <==> document_entries(*doc) is None,
        r matches Some(v) ==> document_entries(*doc) == Some(v@),
{
    match doc {
        Json::Object(fs) => {
            let entries_key = "entries".to_owned();
            match find_member(fs, &entries_key) {
                Some(k) => match &fs[k].1 {
                    Json::Array(items) => {
                        let mut out: Vec<Entry> = Vec::new();
                        let mut i: usize = 0;
                        assert(items@.subrange(0, 0) =~= Seq::<Json>::empty());
                        assert(member(fs@, "entries"@) == Some(Json::Array(*items)));
                        assert(document_entries(*doc) == entries_of(items@));
                        while i < items.len()
                            invariant
                                i <= items@.len(),
                                entries_of(items@.subrange(0, i as int)) == Some(out@),
                                document_entries(*doc) == entries_of(items@),
                            decreases items.len() - i,
                        {
                            assert(items@.subrange(0, i + 1).drop_last() =~= items@.subrange(
                                0,
                                i as int,
                            ));
                            match decode_entry(&items[i]) {
                                Some(e) => {
                                    out.push(e);
                                },
                                None => {
                                    proof {
                                        assert(items@.subrange(0, i + 1).last() == items@[i as int]);
                                        assert(entries_of(items@.subrange(0, i + 1)) is None);
                                        lemma_prefix_fails(items@, i + 1);
                                    }
                                    return None;
                                },
                            }
                            i = i + 1;
                        }
                        assert(items@.subrange(0, items@.len() as int) =~= items@);
                        Some(out)
                    },
                    _ => None,
                },
                None => None,
            }
        },
        _ => None,
    }
}

/// Writes one entry as an object with `id`, `command` and `description`.
pub fn encode_entry(e: &Entry) -> (r: Json)
    ensures
        entry_of(r) == Some(*e),
        r.model() == entry_view(*e),
{
    let mut fs: Vec<(String, Json)> = Vec::new();
    fs.push(("id".to_owned(), Json::Number(Some(e.id as u64))));
    fs.push(("command".to_owned(), Json::Str(e.command.clone())));
    fs.push(("description".to_owned(), Json::Str(e.description.clone())));
    proof {
        reveal_strlit("id");
        reveal_strlit("command");
        reveal_strlit("description");
        let s = fs@;
        assert(s[0].0@.len() == 2 && s[1].0@.len() == 7 && s[2].0@.len() == 11);
        assert(s[0].0@ != "command"@ && s[0].0@ != "description"@ && s[1].0@ != "description"@);
        assert(s.drop_first().drop_first()[0] == s[2]);
        assert(member(s, "id"@) == Some(s[0].1));
        assert(member(s.drop_first(), "command"@) == Some(s[1].1));
        assert(member(s, "command"@) == Some(s[1].1));
        assert(member(s.drop_first().drop_first(), "description"@) == Some(s[2].1));
        assert(member(s.drop_first(), "description"@) == Some(s[2].1));
        assert(member(s, "description"@) == Some(s[2].1));
        let r = Json::Object(fs);
        assert(r.model() == entry_view(*e)) by {
            if let JsonView::Object(ms) = r.model() {
                assert(s[0].1.model() == JsonView::Number(Some(e.id as u64)));
                assert(s[1].1.model() == JsonView::Str(e.command@));
                assert(s[2].1.model() == JsonView::Str(e.description@));
                assert(ms.len() == 3);
                assert(ms[0] == (s[0].0@, s[0].1.model()));
                assert(ms[1] == (s[1].0@, s[1].1.model()));
                assert(ms[2] == (s[2].0@, s[2].1.model()));
                assert(ms =~= seq![
                    ("id"@, JsonView::Number(Some(e.id as u64))),
                    ("command"@, JsonView::Str(e.command@)),
                    ("description"@, JsonView::Str(e.description@)),
                ]);
            }
        }
    }
    Json::Object(fs)
}

/// Writes the stored document for a list of entries: an object whose only
/// member, `entries`, lists them in order. It reads back as the same list.
pub fn encode_document(entries: &Vec<Entry>) -> (r: Json)
    ensures
        document_entries(r) == Some(entries@),
        r.model() == document_view(entries@),
{
    let mut items: Vec<Json> = Vec::new();
    let mut i: usize = 0;
    while i < entries.len()
        invariant
            i <= entries@.len(),
            items@.len() == i,
            forall|j: int| 0 <= j < i ==> entry_of(#[trigger] items@[j]) == Some(entries@[j]),
            forall|j: int| 0 <= j < i ==> (#[trigger] items@[j]).model() == entry_view(entries@[j]),
        decreases entries.len() - i,
    {
        let item = encode_entry(&entries[i]);
        items.push(item);
        i = i + 1;
    }
    proof {
        lemma_entries_of_each(items@, entries@);
    }
    let ghost item_seq = items@;
    let mut fs: Vec<(String, Json)> = Vec::new();
    fs.push(("entries".to_owned(), Json::Array(items)));
    proof {
        let arr = fs@[0].1;
        assert(arr.model() == JsonView::Array(entries@.map_values(|e: Entry| entry_view(e)))) by {
            if let JsonView::Array(ms) = arr.model() {
                assert(ms =~= entries@.map_values(|e: Entry| entry_view(e)));
            }
        }
        let r = Json::Object(fs);
        if let JsonView::Object(ms) = r.model() {
            assert(ms =~= seq![("entries"@, arr.model())]);
        }
    }
    Json::Object(fs)
}

} // verus!
