use hatcher::envelope::{fnv1a_digest, seal, SCHEMA_VERSION};

#[test]
fn fnv1a_known_values() {
    assert_eq!(fnv1a_digest(b""), 0xcbf29ce484222325);
    assert_eq!(fnv1a_digest(b"a"), 0xaf63dc4c8601ec8c);
    assert_eq!(fnv1a_digest(b"foobar"), 0x85944171f73967e8);
}

#[test]
fn seal_is_versioned_and_digest_backed() {
    let s = seal(b"a");
    assert_eq!(s.codec, "zk-canonical-v1");
    assert_eq!(s.schema_version, 1);
    assert_eq!(SCHEMA_VERSION, 1);
    assert_eq!(s.digest, "af63dc4c8601ec8c");
    assert!(!s.digest.is_empty());
}

#[test]
fn seal_of_empty_payload_pads_to_sixteen_digits() {
    let s = seal(b"");
    assert_eq!(s.digest, "cbf29ce484222325");
    assert_eq!(s.digest.len(), 16);
    let t = seal(br#"{"id":"node-1"}"#);
    assert_eq!(t.digest.len(), 16);
    assert_ne!(t.digest, s.digest);
}
