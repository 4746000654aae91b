use seme::errors::Error;
use seme::store::{
    entry_is_fresh, get_from_cache, parse_document, write_to_cache, CacheFile, CacheStore,
};
use serde_json::Value;

fn doc(text: &str) -> Value {
    serde_json::from_str(text).unwrap()
}

#[test]
fn round_trip_write_then_read() {
    let d = doc("{\"a\":{\"word\":\"a\",\"usage\":{\"2024-02\":37}}}");
    let text = write_to_cache(&d).unwrap();
    let file = CacheFile::Present {
        modified_secs: 100,
        text,
    };
    let back = get_from_cache(&file, 100, 3600).unwrap().unwrap();
    assert_eq!(back, d);
}

#[test]
fn written_text_is_the_exact_json() {
    let d = doc("{\"a\":1}");
    let text = write_to_cache(&d).unwrap();
    assert_eq!(text, "{\"a\":1}");
}

#[test]
fn expiry_boundary_is_inclusive() {
    let d = doc("[1,2,3]");
    let text = write_to_cache(&d).unwrap();
    let file = CacheFile::Present {
        modified_secs: 1000,
        text,
    };
    // at exactly T + ttl the entry is still fresh
    assert_eq!(get_from_cache(&file, 1060, 60).unwrap(), Some(d));
    // one second past the boundary it is a clean miss
    assert_eq!(get_from_cache(&file, 1061, 60).unwrap(), None);
}

#[test]
fn ttl_zero_means_only_the_same_second() {
    let d = doc("7");
    let text = write_to_cache(&d).unwrap();
    let file = CacheFile::Present {
        modified_secs: 500,
        text,
    };
    assert_eq!(get_from_cache(&file, 500, 0).unwrap(), Some(d));
    assert_eq!(get_from_cache(&file, 501, 0).unwrap(), None);
}

#[test]
fn miss_on_absence() {
    assert_eq!(get_from_cache(&CacheFile::Absent, 42, 0).unwrap(), None);
    assert_eq!(
        get_from_cache(&CacheFile::Absent, 0, u64::MAX).unwrap(),
        None
    );
}

#[test]
fn corruption_surfaces_as_error_not_miss() {
    let file = CacheFile::Present {
        modified_secs: 100,
        text: "this is { not json".to_string(),
    };
    assert_eq!(get_from_cache(&file, 100, 3600), Err(Error::CacheCorrupt));
}

#[test]
fn stale_corrupt_file_is_still_a_miss() {
    // freshness is judged before the content is parsed
    let file = CacheFile::Present {
        modified_secs: 100,
        text: "this is { not json".to_string(),
    };
    assert_eq!(get_from_cache(&file, 100 + 3601, 3600).unwrap(), None);
}

#[test]
fn future_modification_time_is_an_io_error() {
    let file = CacheFile::Present {
        modified_secs: 200,
        text: "{}".to_string(),
    };
    assert_eq!(get_from_cache(&file, 100, 3600), Err(Error::Io));
}

#[test]
fn last_writer_wins() {
    let d1 = doc("{\"a\":1}");
    let d2 = doc("{\"b\":2}");
    let _ = write_to_cache(&d1).unwrap();
    let t2 = write_to_cache(&d2).unwrap();
    // the file is replaced whole, so it holds exactly the second text
    let file = CacheFile::Present {
        modified_secs: 10,
        text: t2,
    };
    for _ in 0..3 {
        assert_eq!(get_from_cache(&file, 10, 60).unwrap(), Some(d2.clone()));
    }
}

#[test]
fn document_nested_past_the_parser_depth_reads_back_as_corrupt() {
    // serialization has no depth limit, but the parser does: such a
    // document writes fine and then surfaces as corruption, not a miss
    let mut deep = Value::Null;
    for _ in 0..200 {
        deep = Value::Array(vec![deep]);
    }
    let text = write_to_cache(&deep).unwrap();
    let file = CacheFile::Present {
        modified_secs: 5,
        text,
    };
    assert_eq!(get_from_cache(&file, 5, 60), Err(Error::CacheCorrupt));
}

#[test]
fn parse_document_accepts_json() {
    let v = parse_document("{\"word\":\"a\"}").unwrap();
    assert_eq!(v, doc("{\"word\":\"a\"}"));
}

#[test]
fn parse_document_rejects_non_json() {
    assert_eq!(parse_document("][").map(|_| ()), Err(Error::CacheCorrupt));
}

#[test]
fn freshness_exact_values() {
    assert_eq!(entry_is_fresh(1000, 940, 60), Ok(true));
    assert_eq!(entry_is_fresh(1001, 940, 60), Ok(false));
    assert_eq!(entry_is_fresh(1000, 1000, 0), Ok(true));
    assert_eq!(entry_is_fresh(999, 1000, 60), Err(Error::Io));
}

#[test]
fn resolve_path_is_deterministic() {
    let store = CacheStore::new("/home/user/.cache/seme".to_string());
    let first = store.resolve_path("en");
    let second = store.resolve_path("en");
    assert_eq!(first, "/home/user/.cache/seme/en.json");
    assert_eq!(first, second);
    assert_eq!(store.resolve_path("tok"), "/home/user/.cache/seme/tok.json");
}
