use rusticsearch::memory::MemoryIndexStore;
use rusticsearch::store::{DocRefIterator, IndexReader, IndexStore};
use rusticsearch::value::{Document, Value};

fn s(text: &str) -> String {
    text.to_string()
}

fn doc(key: &str, field: &str, value: &str) -> Document {
    let mut d = Document::new(s(key));
    d.set_field(s(field), Value::String(s(value)));
    d
}

/// Twelve documents with ids 1..=12; the ones receiving ids 2, 5, 9
/// and 12 contain the term "xyz" in field "f".
fn postings_store() -> MemoryIndexStore {
    let mut store = MemoryIndexStore::new();
    for id in 1..=12u64 {
        let value = if id == 2 || id == 5 || id == 9 || id == 12 { "xyz" } else { "other" };
        store.insert_or_update_document(doc(&format!("doc{}", id), "f", value));
    }
    store
}

#[test]
fn test_next_doc_advances_past_previous() {
    let store = postings_store();
    let reader = store.reader();
    // postings for "xyz" are [2, 5, 9, 12]; previous=5 advances to 9
    assert_eq!(reader.next_doc(b"xyz", "f", Some(5)), Some(9));
}

#[test]
fn test_next_doc_cursor_walks_postings_in_order() {
    let store = postings_store();
    let reader = store.reader();
    assert_eq!(reader.next_doc(b"xyz", "f", None), Some(2));
    assert_eq!(reader.next_doc(b"xyz", "f", Some(2)), Some(5));
    assert_eq!(reader.next_doc(b"xyz", "f", Some(9)), Some(12));
    assert_eq!(reader.next_doc(b"xyz", "f", Some(12)), None);
    assert_eq!(reader.next_doc(b"absent", "f", None), None);
    assert_eq!(reader.next_doc(b"xyz", "other_field", None), None);
}

#[test]
fn test_key_and_id_lookup() {
    let store = postings_store();
    let reader = store.reader();
    assert_eq!(reader.num_docs(), 12);
    assert!(reader.contains_document_key("doc7"));
    assert!(!reader.contains_document_key("doc13"));
    let d = reader.get_document_by_key("doc2").unwrap();
    assert_eq!(d.key, s("doc2"));
    let d = reader.get_document_by_id(2).unwrap();
    assert_eq!(d.key, s("doc2"));
    assert!(reader.get_document_by_id(13).is_none());
}

#[test]
fn test_upsert_replaces_and_assigns_fresh_id() {
    let mut store = MemoryIndexStore::new();
    store.insert_or_update_document(doc("a", "f", "one"));
    store.insert_or_update_document(doc("b", "f", "two"));
    // replace "a": the document changes and receives a fresh, larger id
    store.insert_or_update_document(doc("a", "f", "three"));
    let reader = store.reader();
    assert_eq!(reader.num_docs(), 2);
    assert!(reader.get_document_by_id(1).is_none());
    assert_eq!(reader.get_document_by_id(3).unwrap().key, s("a"));
    assert_eq!(reader.next_doc(b"three", "f", None), Some(3));
    assert_eq!(reader.next_doc(b"one", "f", None), None);
}

#[test]
fn test_remove_document_by_key() {
    let mut store = MemoryIndexStore::new();
    store.insert_or_update_document(doc("a", "f", "one"));
    assert!(store.remove_document_by_key("a"));
    assert!(!store.remove_document_by_key("a"));
    let reader = store.reader();
    assert_eq!(reader.num_docs(), 0);
    assert!(!reader.contains_document_key("a"));
}

#[test]
fn test_iter_docids_all_is_ascending() {
    let store = postings_store();
    let reader = store.reader();
    let mut it = reader.iter_docids_all();
    let mut ids = Vec::new();
    while let Some(id) = it.next() {
        ids.push(id);
    }
    assert_eq!(ids, (1..=12u64).collect::<Vec<u64>>());
}

#[test]
fn test_iter_docids_with_term_yields_postings() {
    let store = postings_store();
    let reader = store.reader();
    let mut it = reader.iter_docids_with_term(b"xyz", "f").unwrap();
    let mut ids = Vec::new();
    while let Some(id) = it.next() {
        ids.push(id);
    }
    assert_eq!(ids, vec![2, 5, 9, 12]);
    assert!(reader.iter_docids_with_term(b"absent", "f").is_none());
}

#[test]
fn test_term_doc_freq_counts_documents() {
    let store = postings_store();
    let reader = store.reader();
    assert_eq!(reader.term_doc_freq(b"xyz", "f"), 4);
    assert_eq!(reader.term_doc_freq(b"other", "f"), 8);
    assert_eq!(reader.term_doc_freq(b"absent", "f"), 0);
}

#[test]
fn test_iter_terms_enumerates_distinct_vocabulary() {
    let mut store = MemoryIndexStore::new();
    store.insert_or_update_document(doc("a", "f", "one"));
    store.insert_or_update_document(doc("b", "f", "two"));
    store.insert_or_update_document(doc("c", "f", "one"));
    let mut d = Document::new(s("d"));
    d.set_field(s("f"), Value::TSVector(vec![s("two"), s("three")]));
    store.insert_or_update_document(d);
    let reader = store.reader();
    let mut terms = reader.iter_terms("f").unwrap();
    terms.sort();
    assert_eq!(terms, vec![b"one".to_vec(), b"three".to_vec(), b"two".to_vec()]);
    assert!(reader.iter_terms("g").is_none());
}

#[test]
fn test_reader_is_a_stable_snapshot_while_borrowed() {
    let mut store = MemoryIndexStore::new();
    store.insert_or_update_document(doc("a", "f", "one"));
    {
        let reader = store.reader();
        assert_eq!(reader.num_docs(), 1);
        assert_eq!(reader.next_doc(b"one", "f", None), Some(1));
    }
    store.insert_or_update_document(doc("b", "f", "one"));
    let reader = store.reader();
    assert_eq!(reader.num_docs(), 2);
    assert_eq!(reader.next_doc(b"one", "f", Some(1)), Some(2));
}
