//! The in-memory reference backend of the index abstraction.
//!
//! Documents are held as a vector of `(doc id, document)` pairs kept
//! strictly ascending by id; ids are assigned monotonically and never
//! reused while the store is open.  Every reader operation is proved
//! against the snapshot model of [`crate::store`].

use vstd::prelude::*;

use crate::store::{
    doc_has_term, docs_wf, spec_all_ids, spec_id_lookup, spec_ids_with_term, spec_key_lookup,
    spec_next_doc, spec_remove_key, spec_term_doc_freq, term_in_field, terms_contain,
    DocRefIterator, IndexReader, IndexStore,
};
use crate::strings::{bytes_eq, str_eq};
use crate::value::{Document, Value};

verus! {

/// Does this document's field contain the term bytes?
#[verifier::loop_isolation(false)]
fn doc_contains_term(doc: &Document, field_name: &str, term: &[u8]) -> (r: bool)
    ensures
        r == doc_has_term(*doc, field_name@, term@),
{
    match doc.get_field(field_name) {
        None => false,
        Some(v) => match v {
            Value::String(s) => bytes_eq(s.as_str().as_bytes(), term),
            Value::TSVector(tokens) => {
                let mut i: usize = 0;
                while i < tokens.len()
                    invariant
                        i <= tokens@.len(),
                        forall|j: int|
                            0 <= j < i ==> vstd::utf8::encode_utf8(tokens@[j]@) != term@,
                    decreases tokens@.len() - i,
                {
                    if bytes_eq(tokens[i].as_str().as_bytes(), term) {
                        proof {
                            assert(vstd::utf8::encode_utf8(tokens@[i as int]@) == term@);
                        }
                        return true;
                    }
                    i = i + 1;
                }
                false
            },
            _ => false,
        },
    }
}

/// A materialized cursor over an ascending doc-id sequence.
pub struct DocIdIterator {
    pub ids: Vec<u64>,
    pub pos: usize,
}

impl DocRefIterator for DocIdIterator {
    open spec fn remaining(&self) -> Seq<u64> {
        if self.pos <= self.ids@.len() {
            self.ids@.subrange(self.pos as int, self.ids@.len() as int)
        } else {
            Seq::<u64>::empty()
        }
    }

    fn next(&mut self) -> (r: Option<u64>) {
        if self.pos < self.ids.len() {
            let id = self.ids[self.pos];
            self.pos = self.pos + 1;
            proof {
                assert(self.ids@.subrange(self.pos as int, self.ids@.len() as int)
                    =~= old(self).remaining().drop_first());
            }
            Some(id)
        } else {
            None
        }
    }
}

/// The mutable in-memory store.
#[derive(Debug)]
pub struct MemoryIndexStore {
    pub docs: Vec<(u64, Document)>,
    pub next_id: u64,
}

/// A read view borrowing the store's committed state; the borrow
/// keeps writes out while the reader is alive.
pub struct MemoryReader<'a> {
    pub docs: &'a Vec<(u64, Document)>,
}

impl MemoryIndexStore {
    /// An empty store; the first document receives id 1.
    pub fn new() -> (r: MemoryIndexStore)
        ensures
            r.inv(),
            r.has_capacity(),
            r.docs@.len() == 0,
            r.next_id == 1,
    {
        MemoryIndexStore { docs: Vec::new(), next_id: 1 }
    }

    /// Remove the entry under `doc_key`, keeping ids and `next_id`
    /// untouched.
    #[verifier::loop_isolation(false)]
    fn remove_by_key_inner(&mut self, doc_key: &str) -> (r: bool)
        requires
            old(self).inv(),
        ensures
            final(self).inv(),
            final(self).next_id == old(self).next_id,
            r == (spec_key_lookup(old(self).docs@, doc_key@) is Some),
            final(self).docs@ =~= spec_remove_key(old(self).docs@, doc_key@),
    {
        let ghost orig = old(self).docs@;
        let mut i: usize = 0;
        while i < self.docs.len()
            invariant
                self == old(self),
                i <= self.docs@.len(),
                forall|j: int| 0 <= j < i ==> self.docs@[j].1.key@ != doc_key@,
            decreases self.docs@.len() - i,
        {
            if str_eq(self.docs[i].1.key.as_str(), doc_key) {
                self.docs.remove(i);
                proof {
                    assert forall|j: int| 0 <= j < orig.len() && j != i implies orig[j].1.key@
                        != doc_key@ by {
                        if j > i {
                            assert(orig[i as int].1.key@ != orig[j].1.key@);
                        }
                    }
                    lemma_remove_key_at(orig, doc_key@, i as int);
                    lemma_key_lookup_has_match(orig, doc_key@);
                    assert forall|a: int, b: int|
                        0 <= a < b < self.docs@.len() implies self.docs@[a].0 < self.docs@[b].0
                        && self.docs@[a].1.key@ != self.docs@[b].1.key@ by {
                        let a0 = if a < i { a } else { a + 1 };
                        let b0 = if b < i { b } else { b + 1 };
                        assert(self.docs@[a] == orig[a0]);
                        assert(self.docs@[b] == orig[b0]);
                    }
                }
                return true;
            }
            i = i + 1;
        }
        proof {
            lemma_remove_key_no_match(orig, doc_key@);
            lemma_key_lookup_has_match(orig, doc_key@);
        }
        false
    }
}

/// With no entry under `key`, removal by `key` changes nothing.
proof fn lemma_remove_key_no_match(docs: Seq<(u64, Document)>, key: Seq<char>)
    requires
        forall|j: int| 0 <= j < docs.len() ==> docs[j].1.key@ != key,
    ensures
        spec_remove_key(docs, key) =~= docs,
    decreases docs.len(),
{
    if docs.len() > 0 {
        lemma_remove_key_no_match(docs.drop_first(), key);
        assert(spec_remove_key(docs, key) =~= seq![docs[0]] + spec_remove_key(
            docs.drop_first(),
            key,
        ));
    }
}

/// With exactly one entry under `key`, at `at`, removal by `key` is
/// removal of that entry.
proof fn lemma_remove_key_at(docs: Seq<(u64, Document)>, key: Seq<char>, at: int)
    requires
        0 <= at < docs.len(),
        docs[at].1.key@ == key,
        forall|j: int| 0 <= j < docs.len() && j != at ==> docs[j].1.key@ != key,
    ensures
        spec_remove_key(docs, key) =~= docs.remove(at),
    decreases docs.len(),
{
    if at == 0 {
        lemma_remove_key_no_match(docs.drop_first(), key);
        assert(docs.remove(0) =~= docs.drop_first());
    } else {
        lemma_remove_key_at(docs.drop_first(), key, at - 1);
        assert(spec_remove_key(docs, key) =~= seq![docs[0]] + spec_remove_key(
            docs.drop_first(),
            key,
        ));
        assert(docs.remove(at) =~= seq![docs[0]] + docs.drop_first().remove(at - 1));
    }
}

/// A key looks up to something exactly when some entry holds it.
proof fn lemma_key_lookup_has_match(docs: Seq<(u64, Document)>, key: Seq<char>)
    ensures
        (spec_key_lookup(docs, key) is Some) == exists|j: int|
            0 <= j < docs.len() && #[trigger] docs[j].1.key@ == key,
    decreases docs.len(),
{
    if docs.len() > 0 {
        lemma_key_lookup_has_match(docs.drop_first(), key);
        if docs[0].1.key@ == key {
        } else if spec_key_lookup(docs.drop_first(), key) is Some {
            let j0 = choose|j: int|
                0 <= j < docs.drop_first().len() && #[trigger] docs.drop_first()[j].1.key@ == key;
            assert(docs[j0 + 1].1.key@ == key);
        } else {
            assert forall|j: int| 0 <= j < docs.len() implies #[trigger] docs[j].1.key@ != key by {
                if j > 0 {
                    assert(docs.drop_first()[j - 1] == docs[j]);
                }
            }
        }
    }
}

impl<'a> IndexStore<'a> for MemoryIndexStore {
    type Reader = MemoryReader<'a>;

    open spec fn docs_model(&self) -> Seq<(u64, Document)> {
        self.docs@
    }

    open spec fn inv(&self) -> bool {
        docs_wf(self.docs@) && forall|j: int|
            0 <= j < self.docs@.len() ==> #[trigger] self.docs@[j].0 < self.next_id
    }

    open spec fn has_capacity(&self) -> bool {
        self.next_id < u64::MAX
    }

    fn reader(&'a self) -> (r: MemoryReader<'a>) {
        MemoryReader { docs: &self.docs }
    }

    fn insert_or_update_document(&mut self, doc: Document) {
        let ghost pre = self.docs@;
        let doc_id = self.next_id;
        self.remove_by_key_inner(doc.key.as_str());
        self.docs.push((doc_id, doc));
        self.next_id = doc_id + 1;
        proof {
            let removed = spec_remove_key(pre, doc.key@);
            assert forall|a: int, b: int|
                0 <= a < b < self.docs@.len() implies self.docs@[a].0 < self.docs@[b].0
                && self.docs@[a].1.key@ != self.docs@[b].1.key@ by {
                if b < self.docs@.len() - 1 {
                    assert(removed[a].0 < removed[b].0);
                    assert(removed[a].1.key@ != removed[b].1.key@);
                } else {
                    lemma_remove_key_entries(pre, doc.key@);
                }
            }
            assert(self.docs@ =~= removed.push((doc_id, doc)));
            assert forall|j: int| 0 <= j < pre.len() implies #[trigger] pre[j].0 < doc_id by {}
            assert(self.docs@ =~= spec_remove_key(old(self).docs@, doc.key@).push((doc_id, doc))
                && (forall|j: int|
                0 <= j < old(self).docs@.len() ==> #[trigger] old(self).docs@[j].0 < doc_id));
            assert(self.docs_model() =~= spec_remove_key(old(self).docs_model(), doc.key@).push(
                (doc_id, doc),
            ));
            assert(forall|j: int|
                0 <= j < old(self).docs_model().len() ==> #[trigger] old(self).docs_model()[j].0
                    < doc_id);
            assert(exists|id: u64|
                #![trigger spec_remove_key(old(self).docs_model(), doc.key@).push((id, doc))]
                self.docs_model() =~= spec_remove_key(old(self).docs_model(), doc.key@).push(
                    (id, doc),
                ) && (forall|j: int|
                    0 <= j < old(self).docs_model().len() ==> old(self).docs_model()[j].0 < id));
        }
    }

    fn remove_document_by_key(&mut self, doc_key: &str) -> (r: bool) {
        self.remove_by_key_inner(doc_key)
    }
}

/// Every entry surviving a removal by `key` stems from the original
/// sequence and does not hold `key`.
proof fn lemma_remove_key_entries(docs: Seq<(u64, Document)>, key: Seq<char>)
    ensures
        forall|j: int|
            0 <= j < spec_remove_key(docs, key).len() ==> (#[trigger] spec_remove_key(docs, key)[j].1.key@
                != key && exists|i: int|
                0 <= i < docs.len() && docs[i] == spec_remove_key(docs, key)[j]),
    decreases docs.len(),
{
    if docs.len() > 0 {
        lemma_remove_key_entries(docs.drop_first(), key);
        let rest = spec_remove_key(docs.drop_first(), key);
        assert forall|j: int|
            0 <= j < spec_remove_key(docs, key).len() implies (#[trigger] spec_remove_key(
            docs,
            key,
        )[j].1.key@ != key && exists|i: int|
            0 <= i < docs.len() && docs[i] == spec_remove_key(docs, key)[j]) by {
            if docs[0].1.key@ == key {
                assert(spec_remove_key(docs, key) == rest);
                assert(rest[j].1.key@ != key && exists|i: int|
                    0 <= i < docs.drop_first().len() && docs.drop_first()[i] == rest[j]);
                let i0 = choose|i: int| 0 <= i < docs.drop_first().len() && docs.drop_first()[i]
                    == rest[j];
                assert(docs.drop_first()[i0] == docs[i0 + 1]);
                assert(docs[i0 + 1] == rest[j]);
            } else {
                assert(spec_remove_key(docs, key) =~= seq![docs[0]] + rest);
                if j > 0 {
                    assert(spec_remove_key(docs, key)[j] == rest[j - 1]);
                    assert(rest[j - 1].1.key@ != key && exists|i: int|
                        0 <= i < docs.drop_first().len() && docs.drop_first()[i] == rest[j - 1]);
                    let i0 = choose|i: int|
                        0 <= i < docs.drop_first().len() && docs.drop_first()[i] == rest[j - 1];
                    assert(docs.drop_first()[i0] == docs[i0 + 1]);
                    assert(docs[i0 + 1] == rest[j - 1]);
                }
            }
        }
    }
}

impl<'a> IndexReader for MemoryReader<'a> {
    type AllDocRefIterator = DocIdIterator;

    type TermDocRefIterator = DocIdIterator;

    open spec fn docs(&self) -> Seq<(u64, Document)> {
        self.docs@
    }

    open spec fn wf(&self) -> bool {
        docs_wf(self.docs@)
    }

    #[verifier::loop_isolation(false)]
    fn get_document_by_key(&self, doc_key: &str) -> (r: Option<&Document>) {
        proof {
            assert(self.docs@.subrange(0, self.docs@.len() as int) =~= self.docs@);
        }
        let mut i: usize = 0;
        while i < self.docs.len()
            invariant
                i <= self.docs@.len(),
                spec_key_lookup(self.docs@, doc_key@) == spec_key_lookup(
                    self.docs@.subrange(i as int, self.docs@.len() as int),
                    doc_key@,
                ),
            decreases self.docs@.len() - i,
        {
            let ghost rest = self.docs@.subrange(i as int, self.docs@.len() as int);
            proof {
                assert(rest[0] == self.docs@[i as int]);
                assert(rest.drop_first() =~= self.docs@.subrange(i + 1, self.docs@.len() as int));
            }
            if str_eq(self.docs[i].1.key.as_str(), doc_key) {
                return Some(&self.docs[i].1);
            }
            i = i + 1;
        }
        None
    }

    #[verifier::loop_isolation(false)]
    fn get_document_by_id(&self, doc_id: u64) -> (r: Option<&Document>) {
        proof {
            assert(self.docs@.subrange(0, self.docs@.len() as int) =~= self.docs@);
        }
        let mut i: usize = 0;
        while i < self.docs.len()
            invariant
                i <= self.docs@.len(),
                spec_id_lookup(self.docs@, doc_id) == spec_id_lookup(
                    self.docs@.subrange(i as int, self.docs@.len() as int),
                    doc_id,
                ),
            decreases self.docs@.len() - i,
        {
            let ghost rest = self.docs@.subrange(i as int, self.docs@.len() as int);
            proof {
                assert(rest[0] == self.docs@[i as int]);
                assert(rest.drop_first() =~= self.docs@.subrange(i + 1, self.docs@.len() as int));
            }
            if self.docs[i].0 == doc_id {
                return Some(&self.docs[i].1);
            }
            i = i + 1;
        }
        None
    }

    fn contains_document_key(&self, doc_key: &str) -> (r: bool) {
        match self.get_document_by_key(doc_key) {
            Some(_) => true,
            None => false,
        }
    }

    #[verifier::loop_isolation(false)]
    fn next_doc(&self, term: &[u8], field_name: &str, previous_doc: Option<u64>) -> (r: Option<
        u64,
    >) {
        proof {
            assert(self.docs@.subrange(0, self.docs@.len() as int) =~= self.docs@);
        }
        let mut i: usize = 0;
        while i < self.docs.len()
            invariant
                i <= self.docs@.len(),
                spec_next_doc(self.docs@, term@, field_name@, previous_doc) == spec_next_doc(
                    self.docs@.subrange(i as int, self.docs@.len() as int),
                    term@,
                    field_name@,
                    previous_doc,
                ),
            decreases self.docs@.len() - i,
        {
            let ghost rest = self.docs@.subrange(i as int, self.docs@.len() as int);
            proof {
                assert(rest[0] == self.docs@[i as int]);
                assert(rest.drop_first() =~= self.docs@.subrange(i + 1, self.docs@.len() as int));
            }
            let id = self.docs[i].0;
            let past_previous = match previous_doc {
                None => true,
                Some(p) => id > p,
            };
            if past_previous {
                if doc_contains_term(&self.docs[i].1, field_name, term) {
                    return Some(id);
                }
            }
            i = i + 1;
        }
        None
    }

    fn num_docs(&self) -> (r: usize) {
        self.docs.len()
    }

    #[verifier::loop_isolation(false)]
    fn iter_docids_all(&self) -> (r: DocIdIterator) {
        let mut ids: Vec<u64> = Vec::new();
        let mut i: usize = 0;
        proof {
            assert(self.docs@.subrange(0, 0) =~= Seq::<(u64, Document)>::empty());
        }
        while i < self.docs.len()
            invariant
                i <= self.docs@.len(),
                ids@ == spec_all_ids(self.docs@.subrange(0, i as int)),
            decreases self.docs@.len() - i,
        {
            proof {
                assert(self.docs@.subrange(0, (i + 1) as int).drop_last() =~= self.docs@.subrange(
                    0,
                    i as int,
                ));
                assert(self.docs@.subrange(0, (i + 1) as int).last() == self.docs@[i as int]);
            }
            ids.push(self.docs[i].0);
            i = i + 1;
        }
        proof {
            assert(self.docs@.subrange(0, self.docs@.len() as int) =~= self.docs@);
            assert(ids@.subrange(0, ids@.len() as int) =~= ids@);
        }
        DocIdIterator { ids, pos: 0 }
    }

    #[verifier::loop_isolation(false)]
    fn iter_docids_with_term(&self, term: &[u8], field_name: &str) -> (r: Option<DocIdIterator>) {
        let mut ids: Vec<u64> = Vec::new();
        let mut i: usize = 0;
        proof {
            assert(self.docs@.subrange(0, 0) =~= Seq::<(u64, Document)>::empty());
        }
        while i < self.docs.len()
            invariant
                i <= self.docs@.len(),
                ids@ == spec_ids_with_term(self.docs@.subrange(0, i as int), term@, field_name@),
            decreases self.docs@.len() - i,
        {
            proof {
                assert(self.docs@.subrange(0, (i + 1) as int).drop_last() =~= self.docs@.subrange(
                    0,
                    i as int,
                ));
                assert(self.docs@.subrange(0, (i + 1) as int).last() == self.docs@[i as int]);
            }
            if doc_contains_term(&self.docs[i].1, field_name, term) {
                ids.push(self.docs[i].0);
            }
            i = i + 1;
        }
        proof {
            assert(self.docs@.subrange(0, self.docs@.len() as int) =~= self.docs@);
            assert(ids@.subrange(0, ids@.len() as int) =~= ids@);
        }
        if ids.len() == 0 {
            None
        } else {
            Some(DocIdIterator { ids, pos: 0 })
        }
    }

    #[verifier::loop_isolation(false)]
    fn iter_terms(&self, field_name: &str) -> (r: Option<Vec<Vec<u8>>>) {
        let mut out: Vec<Vec<u8>> = Vec::new();
        let mut i: usize = 0;
        while i < self.docs.len()
            invariant
                i <= self.docs@.len(),
                forall|k1: int, k2: int| 0 <= k1 < k2 < out@.len() ==> out@[k1]@ != out@[k2]@,
                forall|k: int|
                    0 <= k < out@.len() ==> term_in_field(
                        self.docs@,
                        field_name@,
                        #[trigger] out@[k]@,
                    ),
                forall|j: int, t: Seq<u8>|
                    0 <= j < i && #[trigger] doc_has_term(self.docs@[j].1, field_name@, t)
                        ==> terms_contain(out@, t),
            decreases self.docs@.len() - i,
        {
            let doc = &self.docs[i].1;
            match doc.get_field(field_name) {
                None => {},
                Some(v) => match v {
                    Value::String(s) => {
                        proof {
                            assert(doc_has_term(
                                self.docs@[i as int].1,
                                field_name@,
                                vstd::utf8::encode_utf8(s@),
                            ));
                            assert(term_in_field(
                                self.docs@,
                                field_name@,
                                vstd::utf8::encode_utf8(s@),
                            ));
                        }
                        push_term_if_absent(
                            &mut out,
                            s.as_str().as_bytes_vec(),
                            Ghost(self.docs@),
                            Ghost(field_name@),
                        );
                    },
                    Value::TSVector(tokens) => {
                        let mut w: usize = 0;
                        while w < tokens.len()
                            invariant
                                w <= tokens@.len(),
                                i < self.docs@.len(),
                                crate::value::field_lookup(
                                    self.docs@[i as int].1.fields@,
                                    field_name@,
                                ) == Some(Value::TSVector(*tokens)),
                                forall|k1: int, k2: int|
                                    0 <= k1 < k2 < out@.len() ==> out@[k1]@ != out@[k2]@,
                                forall|k: int|
                                    0 <= k < out@.len() ==> term_in_field(
                                        self.docs@,
                                        field_name@,
                                        #[trigger] out@[k]@,
                                    ),
                                forall|j: int, t: Seq<u8>|
                                    0 <= j < i && #[trigger] doc_has_term(
                                        self.docs@[j].1,
                                        field_name@,
                                        t,
                                    ) ==> terms_contain(out@, t),
                                forall|l: int|
                                    0 <= l < w ==> terms_contain(
                                        out@,
                                        vstd::utf8::encode_utf8(#[trigger] tokens@[l]@),
                                    ),
                            decreases tokens@.len() - w,
                        {
                            proof {
                                assert(doc_has_term(
                                    self.docs@[i as int].1,
                                    field_name@,
                                    vstd::utf8::encode_utf8(tokens@[w as int]@),
                                ));
                                assert(term_in_field(
                                    self.docs@,
                                    field_name@,
                                    vstd::utf8::encode_utf8(tokens@[w as int]@),
                                ));
                            }
                            push_term_if_absent(
                                &mut out,
                                tokens[w].as_str().as_bytes_vec(),
                                Ghost(self.docs@),
                                Ghost(field_name@),
                            );
                            w = w + 1;
                        }
                        proof {
                            assert forall|t: Seq<u8>|
                                #[trigger] doc_has_term(self.docs@[i as int].1, field_name@, t)
                                    implies terms_contain(out@, t) by {
                                let l0 = choose|l: int|
                                    0 <= l < tokens@.len() && vstd::utf8::encode_utf8(
                                        tokens@[l]@,
                                    ) == t;
                                assert(terms_contain(
                                    out@,
                                    vstd::utf8::encode_utf8(tokens@[l0]@),
                                ));
                            }
                        }
                    },
                    _ => {},
                },
            }
            i = i + 1;
        }
        if out.len() == 0 {
            proof {
                assert forall|t: Seq<u8>| !(#[trigger] term_in_field(
                    self.docs@,
                    field_name@,
                    t,
                )) by {
                    if term_in_field(self.docs@, field_name@, t) {
                        let j0 = choose|j: int|
                            0 <= j < self.docs@.len() && doc_has_term(
                                self.docs@[j].1,
                                field_name@,
                                t,
                            );
                        assert(terms_contain(out@, t));
                    }
                }
            }
            None
        } else {
            proof {
                assert forall|t: Seq<u8>|
                    #[trigger] term_in_field(self.docs@, field_name@, t) implies terms_contain(
                    out@,
                    t,
                ) by {
                    let j0 = choose|j: int|
                        0 <= j < self.docs@.len() && doc_has_term(self.docs@[j].1, field_name@, t);
                }
            }
            Some(out)
        }
    }

    #[verifier::loop_isolation(false)]
    fn term_doc_freq(&self, term: &[u8], field_name: &str) -> (r: u64) {
        let mut count: u64 = 0;
        let mut i: usize = 0;
        proof {
            assert(self.docs@.subrange(0, 0) =~= Seq::<(u64, Document)>::empty());
        }
        while i < self.docs.len()
            invariant
                i <= self.docs@.len(),
                count <= i,
                count == spec_term_doc_freq(
                    self.docs@.subrange(0, i as int),
                    term@,
                    field_name@,
                ),
            decreases self.docs@.len() - i,
        {
            proof {
                assert(self.docs@.subrange(0, (i + 1) as int).drop_last() =~= self.docs@.subrange(
                    0,
                    i as int,
                ));
                assert(self.docs@.subrange(0, (i + 1) as int).last() == self.docs@[i as int]);
            }
            if doc_contains_term(&self.docs[i].1, field_name, term) {
                count = count + 1;
            }
            i = i + 1;
        }
        proof {
            assert(self.docs@.subrange(0, self.docs@.len() as int) =~= self.docs@);
        }
        count
    }
}

/// Add a term's bytes to the collected vocabulary unless present,
/// preserving distinctness; the term must be held in the field by some
/// stored document.
#[verifier::loop_isolation(false)]
fn push_term_if_absent(
    out: &mut Vec<Vec<u8>>,
    term: Vec<u8>,
    Ghost(docs): Ghost<Seq<(u64, Document)>>,
    Ghost(field): Ghost<Seq<char>>,
)
    requires
        term_in_field(docs, field, term@),
        forall|k1: int, k2: int| 0 <= k1 < k2 < old(out)@.len() ==> old(out)@[k1]@ != old(out)@[k2]@,
        forall|k: int|
            0 <= k < old(out)@.len() ==> term_in_field(docs, field, #[trigger] old(out)@[k]@),
    ensures
        forall|k1: int, k2: int| 0 <= k1 < k2 < final(out)@.len() ==> final(out)@[k1]@ != final(out)@[k2]@,
        forall|k: int|
            0 <= k < final(out)@.len() ==> term_in_field(docs, field, #[trigger] final(out)@[k]@),
        forall|s: Seq<u8>|
            #[trigger] terms_contain(final(out)@, s) == (terms_contain(old(out)@, s) || s == term@),
{
    let mut k: usize = 0;
    while k < out.len()
        invariant
            k <= out@.len(),
            out@ == old(out)@,
            forall|k0: int| 0 <= k0 < k ==> out@[k0]@ != term@,
        decreases out@.len() - k,
    {
        if bytes_eq(out[k].as_slice(), term.as_slice()) {
            proof {
                assert(terms_contain(out@, term@));
                assert forall|s: Seq<u8>|
                    #[trigger] terms_contain(out@, s) == (terms_contain(old(out)@, s) || s
                        == term@) by {}
            }
            return;
        }
        k = k + 1;
    }
    out.push(term);
    proof {
        assert forall|k1: int, k2: int|
            0 <= k1 < k2 < out@.len() implies out@[k1]@ != out@[k2]@ by {}
        assert forall|k0: int|
            0 <= k0 < out@.len() implies term_in_field(docs, field, #[trigger] out@[k0]@) by {
            if k0 < out@.len() - 1 {
                assert(out@[k0] == old(out)@[k0]);
            }
        }
        assert forall|s: Seq<u8>|
            #[trigger] terms_contain(out@, s) == (terms_contain(old(out)@, s) || s == term@) by {
            if terms_contain(out@, s) {
                let k0 = choose|k0: int| 0 <= k0 < out@.len() && out@[k0]@ == s;
                if k0 < out@.len() - 1 {
                    assert(old(out)@[k0]@ == s);
                    assert(terms_contain(old(out)@, s));
                }
            }
            if terms_contain(old(out)@, s) {
                let k0 = choose|k0: int| 0 <= k0 < old(out)@.len() && old(out)@[k0]@ == s;
                assert(out@[k0]@ == s);
            }
            if s == term@ {
                assert(out@[out@.len() - 1]@ == s);
            }
        }
    }
}

} // verus!
