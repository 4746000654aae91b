use seme::errors::Error;
use seme::lookup::{api_url, extract_word, lookup_step, LookupCommand, LookupEvent, LookupState};
use seme::store::{get_from_cache, write_to_cache, CacheFile};
use serde_json::Value;

fn doc(text: &str) -> Value {
    serde_json::from_str(text).unwrap()
}

#[test]
fn cache_hit_completes_without_fetch() {
    let d = doc("{\"a\":{\"word\":\"a\"}}");
    let (state, command) = lookup_step(
        LookupState::Start,
        LookupEvent::CacheRead {
            result: Ok(Some(d.clone())),
        },
    );
    assert!(matches!(command, LookupCommand::Finish));
    match state {
        LookupState::Done { document } => assert_eq!(document, d),
        _ => panic!("a fresh hit must complete the lookup"),
    }
}

#[test]
fn cache_miss_commands_a_fetch() {
    let (state, command) = lookup_step(
        LookupState::Start,
        LookupEvent::CacheRead { result: Ok(None) },
    );
    assert!(matches!(state, LookupState::AwaitFetch));
    assert!(matches!(command, LookupCommand::Fetch));
}

#[test]
fn cache_read_error_fails_the_lookup() {
    let (state, command) = lookup_step(
        LookupState::Start,
        LookupEvent::CacheRead {
            result: Err(Error::CacheCorrupt),
        },
    );
    assert!(matches!(
        state,
        LookupState::Failed {
            error: Error::CacheCorrupt
        }
    ));
    assert!(matches!(command, LookupCommand::Finish));
}

#[test]
fn fetched_document_is_parsed_and_written() {
    let (state, command) = lookup_step(
        LookupState::AwaitFetch,
        LookupEvent::Fetched {
            response: Ok("{\"a\":{\"word\":\"a\"}}".to_string()),
        },
    );
    let expected = doc("{\"a\":{\"word\":\"a\"}}");
    match state {
        LookupState::AwaitWrite { document } => assert_eq!(document, expected),
        _ => panic!("a parsed fetch must await the cache write"),
    }
    match command {
        LookupCommand::Write { document } => assert_eq!(document, expected),
        _ => panic!("a parsed fetch must command a write"),
    }
}

#[test]
fn unparsable_response_is_a_fetch_error() {
    let (state, command) = lookup_step(
        LookupState::AwaitFetch,
        LookupEvent::Fetched {
            response: Ok("definitely not json".to_string()),
        },
    );
    assert!(matches!(
        state,
        LookupState::Failed {
            error: Error::Fetch
        }
    ));
    assert!(matches!(command, LookupCommand::Finish));
}

#[test]
fn transport_failure_is_fatal() {
    let (state, _) = lookup_step(
        LookupState::AwaitFetch,
        LookupEvent::Fetched {
            response: Err(Error::Fetch),
        },
    );
    assert!(matches!(
        state,
        LookupState::Failed {
            error: Error::Fetch
        }
    ));
}

#[test]
fn write_failure_fails_the_whole_lookup() {
    let d = doc("{\"a\":1}");
    let (state, command) = lookup_step(
        LookupState::AwaitWrite { document: d },
        LookupEvent::Wrote {
            outcome: Err(Error::Io),
        },
    );
    assert!(matches!(state, LookupState::Failed { error: Error::Io }));
    assert!(matches!(command, LookupCommand::Finish));
}

#[test]
fn successful_write_completes_the_lookup() {
    let d = doc("{\"a\":1}");
    let (state, command) = lookup_step(
        LookupState::AwaitWrite {
            document: d.clone(),
        },
        LookupEvent::Wrote { outcome: Ok(()) },
    );
    match state {
        LookupState::Done { document } => assert_eq!(document, d),
        _ => panic!("a successful write must complete the lookup"),
    }
    assert!(matches!(command, LookupCommand::Finish));
}

#[test]
fn end_to_end_scenario() {
    // TTL of an hour; the store is the (mtime, text) pair an app would keep
    // on disk for the key "tok".
    let ttl: u64 = 3600;
    let response = "{\"a\":{\"word\":\"a\",\"usage\":{\"2024-02\":37}}}";
    let d = doc(response);

    // write, then read back immediately: the same document
    let text = write_to_cache(&d).unwrap();
    let mut stored: (u64, String) = (1_000_000, text);
    let fresh = CacheFile::Present {
        modified_secs: stored.0,
        text: stored.1.clone(),
    };
    assert_eq!(get_from_cache(&fresh, 1_000_000, ttl).unwrap(), Some(d.clone()));

    // the clock moves past the TTL: the read is a miss, and driving the
    // orchestrator calls the fetch collaborator exactly once
    let now = 1_000_000 + ttl + 1;
    let aged = CacheFile::Present {
        modified_secs: stored.0,
        text: stored.1.clone(),
    };
    let read = get_from_cache(&aged, now, ttl);
    assert_eq!(read, Ok(None));

    let mut fetch_calls = 0;
    let mut state = LookupState::Start;
    let mut event = LookupEvent::CacheRead { result: read };
    let final_doc = loop {
        let (next, command) = lookup_step(state, event);
        state = next;
        match command {
            LookupCommand::Fetch => {
                fetch_calls += 1;
                event = LookupEvent::Fetched {
                    response: Ok(response.to_string()),
                };
            }
            LookupCommand::Write { document } => {
                let text = write_to_cache(&document).unwrap();
                stored = (now, text);
                event = LookupEvent::Wrote { outcome: Ok(()) };
            }
            LookupCommand::Finish => match state {
                LookupState::Done { document } => break document,
                _ => panic!("the scenario must end with a document"),
            },
        }
    };
    assert_eq!(fetch_calls, 1);
    assert_eq!(final_doc, d);

    // the repopulated store is fresh again
    let repopulated = CacheFile::Present {
        modified_secs: stored.0,
        text: stored.1.clone(),
    };
    assert_eq!(get_from_cache(&repopulated, now, ttl).unwrap(), Some(d));
}

#[test]
fn extract_word_present() {
    let d = doc("{\"a\":{\"word\":\"a\"},\"b\":{\"word\":\"b\"}}");
    assert_eq!(extract_word(&d, "a"), doc("{\"word\":\"a\"}"));
}

#[test]
fn extract_word_absent_is_null() {
    let d = doc("{\"a\":{\"word\":\"a\"}}");
    assert_eq!(extract_word(&d, "missing"), Value::Null);
    // a non-object document indexes to null as well
    assert_eq!(extract_word(&doc("[1,2]"), "a"), Value::Null);
}

#[test]
fn api_url_for_language() {
    assert_eq!(api_url("en"), "https://api.linku.la/v1/words?lang=en");
    assert_eq!(api_url("tok"), "https://api.linku.la/v1/words?lang=tok");
}
