use linh::collection::Collection;
use linh::entry::{Entry, IdAllocator};
use linh::error::CoreError;
use linh::json::{parse_json, render_json, Json};
use linh::service::{
    decide, execute, finish, load_from, load_read, Backend, LocalStorage, Outcome, S3Storage, Step, Verb,
};

struct MemoryStore {
    text: String,
    fail_read: bool,
    fail_write: bool,
    writes: usize,
}

impl MemoryStore {
    fn with(text: &str) -> MemoryStore {
        MemoryStore { text: text.to_string(), fail_read: false, fail_write: false, writes: 0 }
    }
}

impl Backend for MemoryStore {
    fn read_all(&self) -> Result<String, ()> {
        if self.fail_read {
            Err(())
        } else {
            Ok(self.text.clone())
        }
    }

    fn write_all(&mut self, text: &str) -> Result<(), ()> {
        if self.fail_write {
            return Err(());
        }
        self.text = text.to_string();
        self.writes += 1;
        Ok(())
    }
}

fn add(store: &mut MemoryStore, command: &str, description: &str) -> Entry {
    let verb = Verb::Add { command: command.to_string(), description: description.to_string() };
    match execute(store, verb) {
        Ok(Outcome::Added(e)) => e,
        _ => panic!("add failed"),
    }
}

fn shown(store: &mut MemoryStore, verb: Verb) -> Vec<Entry> {
    match execute(store, verb) {
        Ok(Outcome::Shown(v)) => v,
        _ => panic!("expected entries"),
    }
}

fn summary(v: &[Entry]) -> Vec<(u8, String, String)> {
    v.iter().map(|e| (e.id, e.command.clone(), e.description.clone())).collect()
}

fn entry(id: u8, command: &str, description: &str) -> Entry {
    Entry { id, command: command.to_string(), description: description.to_string() }
}

#[test]
fn example_scenario() {
    let mut store = MemoryStore::with("");
    let first = add(&mut store, "ls -la", "list all files");
    assert_eq!(first.id, 1);
    let (c, _) = Collection::load(&store.text).unwrap();
    assert_eq!(summary(&c.entries), vec![(1, "ls -la".to_string(), "list all files".to_string())]);

    let second = add(&mut store, "pwd", "print working directory");
    assert_eq!(second.id, 2);
    let (c, _) = Collection::load(&store.text).unwrap();
    assert_eq!(
        summary(&c.entries),
        vec![
            (1, "ls -la".to_string(), "list all files".to_string()),
            (2, "pwd".to_string(), "print working directory".to_string()),
        ]
    );

    let found = shown(&mut store, Verb::Search { term: "list".to_string() });
    assert_eq!(summary(&found), vec![(1, "ls -la".to_string(), "list all files".to_string())]);

    let all = shown(&mut store, Verb::List);
    assert_eq!(all.iter().map(|e| e.id).collect::<Vec<_>>(), vec![1, 2]);
    assert_eq!(store.writes, 2);
}

#[test]
fn stored_text_is_pretty_json() {
    let mut store = MemoryStore::with("");
    add(&mut store, "ls -la", "list all files");
    let expected = "{\n  \"entries\": [\n    {\n      \"command\": \"ls -la\",\n      \"description\": \"list all files\",\n      \"id\": 1\n    }\n  ]\n}";
    assert_eq!(store.text, expected);
}

#[test]
fn round_trip_keeps_entries_and_order() {
    let c = Collection {
        entries: vec![entry(1, "a \"quoted\" cmd", ""), entry(4, "echo é", "ünïcode\n"), entry(9, "x", "y")],
    };
    let text = c.to_text();
    let (back, ids) = Collection::load(&text).unwrap();
    assert_eq!(summary(&back.entries), summary(&c.entries));
    assert_eq!(ids.peek(), 10);
}

#[test]
fn ids_keep_rising_across_invocations() {
    let mut store = MemoryStore::with("");
    let mut seen = Vec::new();
    for i in 0..5 {
        let e = add(&mut store, &format!("cmd{}", i), "d");
        assert!(seen.iter().all(|&s| s < e.id));
        seen.push(e.id);
    }
    assert_eq!(seen, vec![1, 2, 3, 4, 5]);
}

#[test]
fn empty_store_lists_and_searches_nothing() {
    let mut store = MemoryStore::with("");
    assert!(shown(&mut store, Verb::List).is_empty());
    assert!(shown(&mut store, Verb::Search { term: "x".to_string() }).is_empty());
    assert_eq!(store.writes, 0);
    let (c, ids) = Collection::load("").unwrap();
    assert!(c.entries.is_empty());
    assert_eq!(ids.peek(), 1);
}

#[test]
fn search_matches_either_field_case_sensitive() {
    let c = Collection {
        entries: vec![
            entry(1, "git status", "show changes"),
            entry(2, "ls", "list Git files"),
            entry(3, "pwd", "where am I"),
        ],
    };
    assert_eq!(c.search("git").iter().map(|e| e.id).collect::<Vec<_>>(), vec![1]);
    assert_eq!(c.search("Git").iter().map(|e| e.id).collect::<Vec<_>>(), vec![2]);
    assert_eq!(c.search("s").iter().map(|e| e.id).collect::<Vec<_>>(), vec![1, 2]);
    assert_eq!(c.search("").len(), 3);
    assert!(c.search("nothing here").is_empty());
}

#[test]
fn corrupt_text_is_a_data_error() {
    for text in [
        "not json",
        "{\"entries\": 5}",
        "[]",
        "{\"other\": []}",
        "{\"entries\": [{\"id\": 1, \"command\": \"a\"}]}",
        "{\"entries\": [{\"id\": -1, \"command\": \"a\", \"description\": \"b\"}]}",
        "{\"entries\": [{\"id\": 256, \"command\": \"a\", \"description\": \"b\"}]}",
        "{\"entries\": [{\"id\": \"1\", \"command\": \"a\", \"description\": \"b\"}]}",
    ] {
        assert_eq!(Collection::load(text).unwrap_err(), CoreError::DataFormat, "{}", text);
    }
}

#[test]
fn repeated_ids_are_a_data_error() {
    let text = "{\"entries\": [{\"id\": 3, \"command\": \"a\", \"description\": \"b\"}, {\"id\": 3, \"command\": \"c\", \"description\": \"d\"}]}";
    assert_eq!(Collection::load(text).unwrap_err(), CoreError::DataFormat);
}

#[test]
fn load_orders_by_id_and_seeds_allocator() {
    let text = "{\"entries\": [{\"id\": 7, \"command\": \"b\", \"description\": \"\"}, {\"description\": \"x\", \"id\": 2, \"command\": \"a\", \"extra\": true}]}";
    let (c, mut ids) = Collection::load(text).unwrap();
    assert_eq!(c.entries.iter().map(|e| e.id).collect::<Vec<_>>(), vec![2, 7]);
    assert_eq!(c.entries[0].description, "x");
    assert_eq!(ids.next(), Some(8));
}

#[test]
fn allocator_runs_out_after_largest_id() {
    let mut ids = IdAllocator::new();
    assert_eq!(ids.peek(), 1);
    ids.seed(254);
    let e = Entry::new("a".to_string(), "b".to_string(), &mut ids).unwrap();
    assert_eq!(e.id, 255);
    assert!(Entry::new("a".to_string(), "b".to_string(), &mut ids).is_none());
    assert_eq!(ids.peek(), 256);

    let mut c = Collection { entries: vec![entry(255, "x", "y")] };
    assert_eq!(c.add("a".to_string(), "b".to_string(), &mut ids).unwrap_err(), CoreError::IdsExhausted);
    assert_eq!(c.entries.len(), 1);
}

#[test]
fn add_appends_with_next_id() {
    let (mut c, mut ids) = Collection::load("").unwrap();
    let e = c.add("ls".to_string(), "".to_string(), &mut ids).unwrap();
    assert_eq!((e.id, e.command.as_str(), e.description.as_str()), (1, "ls", ""));
    c.save(entry(5, "z", "z"));
    assert_eq!(c.entries.iter().map(|e| e.id).collect::<Vec<_>>(), vec![1, 5]);
    assert_eq!(summary(&c.list()), summary(&c.entries));
}

#[test]
fn storage_failures_are_io_errors() {
    let mut store = MemoryStore::with("");
    store.fail_read = true;
    assert_eq!(load_from(&store).unwrap_err(), CoreError::Io);
    assert!(matches!(execute(&mut store, Verb::List), Err(CoreError::Io)));

    let mut store = MemoryStore::with("");
    store.fail_write = true;
    let verb = Verb::Add { command: "a".to_string(), description: "b".to_string() };
    assert!(matches!(execute(&mut store, verb), Err(CoreError::Io)));
    assert_eq!(store.text, "");
}

#[test]
fn corrupt_store_fails_every_command() {
    let mut store = MemoryStore::with("{ broken");
    assert!(matches!(execute(&mut store, Verb::List), Err(CoreError::DataFormat)));
    let verb = Verb::Add { command: "a".to_string(), description: "b".to_string() };
    assert!(matches!(execute(&mut store, verb), Err(CoreError::DataFormat)));
    assert_eq!(store.writes, 0);
}

#[test]
fn json_wrappers_parse_and_render() {
    match parse_json("{\"k\": [1, \"s\", null, true, 2.5, -3]}") {
        Some(Json::Object(fs)) => {
            assert_eq!(fs.len(), 1);
            assert_eq!(fs[0].0, "k");
            match &fs[0].1 {
                Json::Array(items) => {
                    assert!(matches!(items[0], Json::Number(Some(1))));
                    assert!(matches!(&items[1], Json::Str(s) if s == "s"));
                    assert!(matches!(items[2], Json::Null));
                    assert!(matches!(items[3], Json::Bool(true)));
                    assert!(matches!(items[4], Json::Number(None)));
                    assert!(matches!(items[5], Json::Number(None)));
                }
                _ => panic!("expected an array"),
            }
        }
        _ => panic!("expected an object"),
    }
    assert!(parse_json("{").is_none());
    let doc = Json::Object(vec![("n".to_string(), Json::Number(Some(3)))]);
    assert_eq!(render_json(&doc), "{\n  \"n\": 3\n}");
}

#[test]
fn local_storage_path() {
    assert_eq!(LocalStorage::new().relative_path(), ".cargo/entries.json");
}

#[test]
fn decide_fixes_the_text_to_write() {
    let verb = Verb::Add { command: "ls -la".to_string(), description: "list all files".to_string() };
    match decide(Ok(String::new()), verb) {
        Step::Store { text, entry } => {
            assert_eq!((entry.id, entry.command.as_str()), (1, "ls -la"));
            let expected = "{\n  \"entries\": [\n    {\n      \"command\": \"ls -la\",\n      \"description\": \"list all files\",\n      \"id\": 1\n    }\n  ]\n}";
            assert_eq!(text, expected);
        }
        _ => panic!("expected a text to store"),
    }
}

#[test]
fn decide_reports_read_and_id_failures() {
    assert!(matches!(decide(Err(()), Verb::List), Step::Done(Err(CoreError::Io))));
    assert!(matches!(decide(Ok("nope".to_string()), Verb::List), Step::Done(Err(CoreError::DataFormat))));
    let full = "{\"entries\": [{\"id\": 255, \"command\": \"a\", \"description\": \"b\"}]}";
    let verb = Verb::Add { command: "c".to_string(), description: "d".to_string() };
    assert!(matches!(decide(Ok(full.to_string()), verb), Step::Done(Err(CoreError::IdsExhausted))));
    match decide(Ok(full.to_string()), Verb::Search { term: "a".to_string() }) {
        Step::Done(Ok(Outcome::Shown(v))) => assert_eq!(v.len(), 1),
        _ => panic!("expected entries"),
    }
}

#[test]
fn finish_maps_the_write_result() {
    let e = entry(3, "a", "b");
    assert!(matches!(finish(e, Ok(())), Ok(Outcome::Added(x)) if x.id == 3));
    assert!(matches!(finish(entry(3, "a", "b"), Err(())), Err(CoreError::Io)));
}

#[test]
fn failed_read_is_io_not_empty() {
    assert_eq!(load_read(Err(())).unwrap_err(), CoreError::Io);
    let (c, _) = load_read(Ok(String::new())).unwrap();
    assert!(c.entries.is_empty());
}

#[test]
fn s3_storage_keeps_its_settings() {
    let s = S3Storage::new("bucket".to_string(), "key".to_string(), rusoto_core::Region::CaCentral1);
    assert_eq!(s.bucket(), "bucket");
    assert_eq!(s.key(), "key");
    assert_eq!(s.region(), &rusoto_core::Region::CaCentral1);
}
