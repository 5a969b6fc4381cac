use wrangler_kv::entries::{DirFile, RelPath};
use wrangler_kv::errors::KvError;
use wrangler_kv::keys::{generate_key, percent_encode_bytes};

use base64::Engine;
use percent_encoding::{percent_decode, percent_encode, PATH_SEGMENT_ENCODE_SET};

fn rel_path(components: &[&[u8]]) -> RelPath {
    RelPath { components: components.iter().map(|c| c.to_vec()).collect() }
}

#[test]
fn single_component_key_is_unchanged_when_plain() {
    let key = generate_key(&vec![b"a.txt".to_vec()]).unwrap();
    assert_eq!(key, "a.txt");
}

#[test]
fn nested_path_key_escapes_the_separator() {
    let key = generate_key(&vec![b"sub".to_vec(), b"b.txt".to_vec()]).unwrap();
    assert_eq!(key, "sub%2Fb.txt");
}

#[test]
fn reserved_characters_are_escaped_uppercase() {
    let key = generate_key(&vec![b"a b#c".to_vec()]).unwrap();
    assert_eq!(key, "a%20b%23c");
}

#[test]
fn non_utf8_path_is_an_encoding_error() {
    let r = generate_key(&vec![vec![0xff, 0x41]]);
    assert!(matches!(r, Err(KvError::EncodingError)));
}

#[test]
fn encoder_matches_the_url_crate_on_every_byte() {
    let mut all: Vec<u8> = Vec::new();
    for b in 0..=255u8 {
        all.push(b);
    }
    let mine: String = percent_encode_bytes(&all).into_iter().collect();
    let reference = percent_encode(&all, PATH_SEGMENT_ENCODE_SET).to_string();
    assert_eq!(mine, reference);
}

#[test]
fn key_round_trips_through_decode_and_split() {
    let components: Vec<Vec<u8>> = vec![b"sub dir".to_vec(), b"inner".to_vec(), b"x%y.txt".to_vec()];
    let key = generate_key(&components).unwrap();
    let decoded = percent_decode(key.as_bytes()).decode_utf8().unwrap().to_string();
    assert_eq!(decoded, "sub dir/inner/x%y.txt");
    let split: Vec<Vec<u8>> = decoded.split('/').map(|p| p.as_bytes().to_vec()).collect();
    assert_eq!(split, components);
}

#[test]
fn directory_collection_produces_encoded_keys_and_base64_values() {
    let files = vec![
        DirFile { path: rel_path(&[b"a.txt"]), contents: b"hello".to_vec() },
        DirFile { path: rel_path(&[b"sub", b"b.txt"]), contents: b"world!".to_vec() },
    ];
    let entries = wrangler_kv::entries::collect_write_entries(&files).unwrap();
    assert_eq!(entries.len(), 2);
    assert_eq!(entries[0].key, "a.txt");
    assert_eq!(entries[1].key, "sub%2Fb.txt");
    let std_engine = base64::engine::general_purpose::STANDARD;
    assert_eq!(entries[0].value, std_engine.encode(b"hello"));
    assert_eq!(entries[1].value, std_engine.encode(b"world!"));
    assert!(entries[0].base64);
    assert!(entries[1].base64);
}

#[test]
fn directory_collection_for_delete_produces_the_same_keys() {
    let paths = vec![rel_path(&[b"a.txt"]), rel_path(&[b"sub", b"b.txt"])];
    let keys = wrangler_kv::entries::collect_delete_keys(&paths).unwrap();
    assert_eq!(keys, vec!["a.txt".to_string(), "sub%2Fb.txt".to_string()]);
}

#[test]
fn directory_collection_fails_fast_on_a_bad_path() {
    let files = vec![
        DirFile { path: rel_path(&[b"ok.txt"]), contents: b"x".to_vec() },
        DirFile { path: rel_path(&[&[0x80u8][..]]), contents: b"y".to_vec() },
    ];
    let r = wrangler_kv::entries::collect_write_entries(&files);
    assert!(matches!(r, Err(KvError::EncodingError)));
}
