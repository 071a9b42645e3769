use key_resolver::resolve::{resolve, resolve_prefix, PresignedObject};
use key_resolver::scope::{RequestScope, ResolveError};

fn owned(s: &str) -> Option<String> {
    Some(String::from(s))
}

#[test]
fn full_scope_key() {
    let mut s = RequestScope::empty();
    s.client_id = owned("c1");
    s.container_id = owned("box1");
    s.user_id = owned("u5");
    let k = resolve(&s, &owned("photo.png")).unwrap();
    assert_eq!(k.as_str(), "c1/box1/u5/photo.png");
}

#[test]
fn minimal_scope_key() {
    let s = RequestScope::empty();
    let k = resolve(&s, &owned("report.pdf")).unwrap();
    assert_eq!(k.as_str(), "report.pdf");
}

#[test]
fn omitted_middle_field_shifts_left() {
    let mut s = RequestScope::empty();
    s.client_id = owned("c1");
    s.record_id = owned("r9");
    let k = resolve(&s, &owned("a.png")).unwrap();
    assert_eq!(k.as_str(), "c1/r9/a.png");
    assert!(!k.contains("//"));
}

#[test]
fn all_fields_in_canonical_order() {
    let s = RequestScope {
        client_id: Some(String::from("cl")),
        container_id: Some(String::from("co")),
        container_type: Some(String::from("ct")),
        table_name: Some(String::from("ta")),
        column_name: Some(String::from("cn")),
        record_id: Some(String::from("re")),
        user_id: Some(String::from("us")),
        role_id: Some(String::from("ro")),
    };
    let k = resolve(&s, &owned("f.txt")).unwrap();
    assert_eq!(k.as_str(), "cl/co/ct/ta/cn/re/us/ro/f.txt");
}

#[test]
fn missing_file_name_rejected() {
    let s = RequestScope::empty();
    assert_eq!(resolve(&s, &None).unwrap_err(), ResolveError::MissingFileName);
    assert_eq!(resolve(&s, &owned("")).unwrap_err(), ResolveError::MissingFileName);
}

#[test]
fn separator_in_field_rejected() {
    let mut s = RequestScope::empty();
    s.client_id = owned("a/b");
    assert_eq!(resolve(&s, &owned("f")).unwrap_err(), ResolveError::InvalidSegment);
}

#[test]
fn separator_in_file_name_rejected() {
    let s = RequestScope::empty();
    assert_eq!(resolve(&s, &owned("a/b")).unwrap_err(), ResolveError::InvalidSegment);
}

#[test]
fn empty_field_rejected() {
    let mut s = RequestScope::empty();
    s.user_id = owned("");
    assert_eq!(resolve(&s, &owned("f")).unwrap_err(), ResolveError::InvalidSegment);
}

#[test]
fn resolution_is_deterministic() {
    let mut s = RequestScope::empty();
    s.client_id = owned("c1");
    s.container_type = owned("images");
    let first = resolve(&s, &owned("photo.png")).unwrap();
    let second = resolve(&s, &owned("photo.png")).unwrap();
    assert_eq!(first, second);
}

#[test]
fn prefix_of_client_scope() {
    let mut s = RequestScope::empty();
    s.client_id = owned("c1");
    assert_eq!(resolve_prefix(&s).unwrap().as_str(), "c1/");
}

#[test]
fn prefix_of_empty_scope_is_empty() {
    let s = RequestScope::empty();
    assert_eq!(resolve_prefix(&s).unwrap().as_str(), "");
}

#[test]
fn prefix_of_full_scope() {
    let mut s = RequestScope::empty();
    s.client_id = owned("c1");
    s.container_id = owned("box1");
    s.user_id = owned("u5");
    assert_eq!(resolve_prefix(&s).unwrap().as_str(), "c1/box1/u5/");
}

#[test]
fn prefix_with_separator_in_field_rejected() {
    let mut s = RequestScope::empty();
    s.container_id = owned("x/y");
    assert_eq!(resolve_prefix(&s).unwrap_err(), ResolveError::InvalidSegment);
}

#[test]
fn prefixes_of_distinct_clients_are_disjoint() {
    let mut s1 = RequestScope::empty();
    s1.client_id = owned("c1");
    let mut s2 = RequestScope::empty();
    s2.client_id = owned("c2");
    let p1 = resolve_prefix(&s1).unwrap();
    let p2 = resolve_prefix(&s2).unwrap();
    assert_ne!(p1, p2);
    assert!(!p1.starts_with(p2.as_str()));
    assert!(!p2.starts_with(p1.as_str()));
}

#[test]
fn prefix_of_shorter_client_id_does_not_cover_longer_one() {
    let mut s1 = RequestScope::empty();
    s1.client_id = owned("a");
    let mut s2 = RequestScope::empty();
    s2.client_id = owned("ab");
    let p1 = resolve_prefix(&s1).unwrap();
    let p2 = resolve_prefix(&s2).unwrap();
    assert!(!p2.starts_with(p1.as_str()));
    assert!(!p1.starts_with(p2.as_str()));
}

#[test]
fn key_starts_with_own_prefix() {
    let mut s = RequestScope::empty();
    s.client_id = owned("c1");
    s.table_name = owned("files");
    let p = resolve_prefix(&s).unwrap();
    let k = resolve(&s, &owned("doc.txt")).unwrap();
    assert!(k.starts_with(p.as_str()));
    assert_eq!(k.as_str(), "c1/files/doc.txt");
    assert_eq!(p.as_str(), "c1/files/");
}

#[test]
fn presigned_object_pairs_url_with_key() {
    let mut s = RequestScope::empty();
    s.client_id = owned("c1");
    let k = resolve(&s, &owned("photo.png")).unwrap();
    let p = PresignedObject::new(String::from("https://store.example/signed"), k.clone());
    assert_eq!(p.file_name, k);
    assert_eq!(p.url.as_str(), "https://store.example/signed");
}

#[test]
fn foreign_prefix_does_not_cover_key() {
    let mut s1 = RequestScope::empty();
    s1.client_id = owned("c1");
    let mut s2 = RequestScope::empty();
    s2.client_id = owned("c2");
    let k = resolve(&s1, &owned("doc.txt")).unwrap();
    let p2 = resolve_prefix(&s2).unwrap();
    assert!(!k.starts_with(p2.as_str()));
}
