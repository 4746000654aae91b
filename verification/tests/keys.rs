use seme::keys::{encode_key, is_safe_char_exec};
use seme::store::CacheStore;

#[test]
fn safe_keys_encode_to_themselves() {
    assert_eq!(encode_key("en"), "en");
    assert_eq!(encode_key("tok"), "tok");
    assert_eq!(encode_key("pt-BR"), "pt-BR");
    assert_eq!(encode_key(""), "");
}

#[test]
fn unsafe_characters_are_escaped() {
    // '/' is U+002F: a path separator must never reach the file name
    assert_eq!(encode_key("pt/br"), "pt_00002fbr");
    // '.' is U+002E
    assert_eq!(encode_key(".."), "_00002e_00002e");
    // the escape marker itself is escaped, so encodings cannot collide
    assert_eq!(encode_key("a_b"), "a_00005fb");
}

#[test]
fn distinct_keys_get_distinct_files() {
    let store = CacheStore::new("root".to_string());
    let keys = ["a/b", "a_b", "a-b", "a_00002fb", "_", "../a"];
    for (i, first) in keys.iter().enumerate() {
        for second in keys.iter().skip(i + 1) {
            assert_ne!(store.resolve_path(first), store.resolve_path(second));
        }
    }
}

#[test]
fn traversal_attempts_stay_inside_the_directory() {
    let store = CacheStore::new("root".to_string());
    let path = store.resolve_path("../../etc/passwd");
    assert!(!path[5..].contains('/'));
    assert_eq!(
        path,
        "root/_00002e_00002e_00002f_00002e_00002e_00002fetc_00002fpasswd.json"
    );
}

#[test]
fn safe_character_judgment() {
    assert!(is_safe_char_exec('a'));
    assert!(is_safe_char_exec('Z'));
    assert!(is_safe_char_exec('7'));
    assert!(is_safe_char_exec('-'));
    assert!(!is_safe_char_exec('_'));
    assert!(!is_safe_char_exec('/'));
    assert!(!is_safe_char_exec('.'));
    assert!(!is_safe_char_exec(' '));
}
