//! The index abstraction: capability traits for document lookup and
//! sorted postings traversal, and the exact model they are specified
//! against.
//!
//! A backend's read view is modelled as a sequence of `(doc id,
//! document)` pairs, strictly ascending by id and with distinct
//! document keys.  All postings traversal is by ascending doc id;
//! `next_doc` is the skip-style cursor-advance primitive of
//! document-at-a-time merge retrieval.

use vstd::prelude::*;
use vstd::utf8::encode_utf8;

use crate::value::{field_lookup, Document, Value};

verus! {

/// Well-formed snapshot: ids strictly ascending, document keys distinct.
pub open spec fn docs_wf(docs: Seq<(u64, Document)>) -> bool {
    &&& forall|i: int, j: int| 0 <= i < j < docs.len() ==> docs[i].0 < docs[j].0
    &&& forall|i: int, j: int| 0 <= i < j < docs.len() ==> docs[i].1.key@ != docs[j].1.key@
}

/// Does this document's field contain the term (as UTF-8 bytes)?  A
/// string field holds exactly its own bytes; a token-vector field
/// holds each token's bytes; other kinds hold no terms.
pub open spec fn doc_has_term(doc: Document, field: Seq<char>, term: Seq<u8>) -> bool {
    match field_lookup(doc.fields@, field) {
        Some(Value::String(s)) => encode_utf8(s@) == term,
        Some(Value::TSVector(tokens)) => exists|i: int|
            0 <= i < tokens@.len() && encode_utf8(tokens@[i]@) == term,
        _ => false,
    }
}

/// The document stored under a key, if any.
pub open spec fn spec_key_lookup(docs: Seq<(u64, Document)>, key: Seq<char>) -> Option<Document>
    decreases docs.len(),
{
    if docs.len() == 0 {
        None
    } else if docs[0].1.key@ == key {
        Some(docs[0].1)
    } else {
        spec_key_lookup(docs.drop_first(), key)
    }
}

/// The document stored under a doc id, if any.
pub open spec fn spec_id_lookup(docs: Seq<(u64, Document)>, id: u64) -> Option<Document>
    decreases docs.len(),
{
    if docs.len() == 0 {
        None
    } else if docs[0].0 == id {
        Some(docs[0].1)
    } else {
        spec_id_lookup(docs.drop_first(), id)
    }
}

/// Is `id` past the exclusive `previous` bound?
pub open spec fn above_previous(previous: Option<u64>, id: u64) -> bool {
    match previous {
        None => true,
        Some(p) => id > p,
    }
}

/// The first (in storage order, hence smallest under `docs_wf`) doc id
/// past `previous` whose field contains the term.
pub open spec fn spec_next_doc(
    docs: Seq<(u64, Document)>,
    term: Seq<u8>,
    field: Seq<char>,
    previous: Option<u64>,
) -> Option<u64>
    decreases docs.len(),
{
    if docs.len() == 0 {
        None
    } else if above_previous(previous, docs[0].0) && doc_has_term(docs[0].1, field, term) {
        Some(docs[0].0)
    } else {
        spec_next_doc(docs.drop_first(), term, field, previous)
    }
}

/// Number of documents whose field contains the term.
pub open spec fn spec_term_doc_freq(
    docs: Seq<(u64, Document)>,
    term: Seq<u8>,
    field: Seq<char>,
) -> int
    decreases docs.len(),
{
    if docs.len() == 0 {
        0
    } else {
        spec_term_doc_freq(docs.drop_last(), term, field) + if doc_has_term(
            docs.last().1,
            field,
            term,
        ) {
            1int
        } else {
            0int
        }
    }
}

/// All doc ids, in storage order.
pub open spec fn spec_all_ids(docs: Seq<(u64, Document)>) -> Seq<u64>
    decreases docs.len(),
{
    if docs.len() == 0 {
        Seq::<u64>::empty()
    } else {
        spec_all_ids(docs.drop_last()).push(docs.last().0)
    }
}

/// The doc ids whose field contains the term, in storage order.
pub open spec fn spec_ids_with_term(
    docs: Seq<(u64, Document)>,
    term: Seq<u8>,
    field: Seq<char>,
) -> Seq<u64>
    decreases docs.len(),
{
    if docs.len() == 0 {
        Seq::<u64>::empty()
    } else {
        let rest = spec_ids_with_term(docs.drop_last(), term, field);
        if doc_has_term(docs.last().1, field, term) {
            rest.push(docs.last().0)
        } else {
            rest
        }
    }
}

/// Some stored document's field contains the byte string `s`.
pub open spec fn term_in_field(docs: Seq<(u64, Document)>, field: Seq<char>, s: Seq<u8>) -> bool {
    exists|j: int| 0 <= j < docs.len() && doc_has_term(docs[j].1, field, s)
}

/// The byte string `s` occurs among the collected term byte strings.
pub open spec fn terms_contain(terms: Seq<Vec<u8>>, s: Seq<u8>) -> bool {
    exists|k: int| 0 <= k < terms.len() && terms[k]@ == s
}

/// The snapshot with every entry under `key` taken out.
pub open spec fn spec_remove_key(docs: Seq<(u64, Document)>, key: Seq<char>) -> Seq<
    (u64, Document),
>
    decreases docs.len(),
{
    if docs.len() == 0 {
        Seq::<(u64, Document)>::empty()
    } else if docs[0].1.key@ == key {
        spec_remove_key(docs.drop_first(), key)
    } else {
        seq![docs[0]] + spec_remove_key(docs.drop_first(), key)
    }
}

/// On a well-formed snapshot, `spec_next_doc` is exactly the smallest
/// doc id strictly past `previous` whose field contains the term, and
/// `None` exactly when there is no such id.
pub proof fn lemma_next_doc_least(
    docs: Seq<(u64, Document)>,
    term: Seq<u8>,
    field: Seq<char>,
    previous: Option<u64>,
)
    requires
        docs_wf(docs),
    ensures
        spec_next_doc(docs, term, field, previous) matches Some(id) ==> exists|j: int|
            0 <= j < docs.len() && docs[j].0 == id && doc_has_term(docs[j].1, field, term)
                && above_previous(previous, id),
        spec_next_doc(docs, term, field, previous) matches Some(id) ==> forall|j: int|
            0 <= j < docs.len() && doc_has_term(docs[j].1, field, term) && above_previous(
                previous,
                docs[j].0,
            ) ==> id <= docs[j].0,
        spec_next_doc(docs, term, field, previous) is None ==> forall|j: int|
            0 <= j < docs.len() ==> !(doc_has_term(docs[j].1, field, term) && above_previous(
                previous,
                docs[j].0,
            )),
    decreases docs.len(),
{
    if docs.len() > 0 {
        assert forall|i: int, j: int|
            0 <= i < j < docs.drop_first().len() implies docs.drop_first()[i].0
            < docs.drop_first()[j].0 && docs.drop_first()[i].1.key@
            != docs.drop_first()[j].1.key@ by {
            assert(docs[i + 1].0 < docs[j + 1].0);
            assert(docs[i + 1].1.key@ != docs[j + 1].1.key@);
        }
        lemma_next_doc_least(docs.drop_first(), term, field, previous);
        if above_previous(previous, docs[0].0) && doc_has_term(docs[0].1, field, term) {
            assert(docs[0].0 == spec_next_doc(docs, term, field, previous).unwrap());
            assert forall|j: int|
                0 <= j < docs.len() && doc_has_term(docs[j].1, field, term) && above_previous(
                    previous,
                    docs[j].0,
                ) implies docs[0].0 <= docs[j].0 by {}
        } else {
            match spec_next_doc(docs.drop_first(), term, field, previous) {
                Some(id) => {
                    let j0 = choose|j: int|
                        0 <= j < docs.drop_first().len() && docs.drop_first()[j].0 == id
                            && doc_has_term(docs.drop_first()[j].1, field, term) && above_previous(
                            previous,
                            id,
                        );
                    assert(docs[j0 + 1].0 == id && doc_has_term(docs[j0 + 1].1, field, term));
                    assert forall|j: int|
                        0 <= j < docs.len() && doc_has_term(docs[j].1, field, term)
                            && above_previous(previous, docs[j].0) implies id <= docs[j].0 by {
                        assert(j != 0);
                        assert(docs.drop_first()[j - 1] == docs[j]);
                    }
                },
                None => {
                    assert forall|j: int| 0 <= j < docs.len() implies !(doc_has_term(
                        docs[j].1,
                        field,
                        term,
                    ) && above_previous(previous, docs[j].0)) by {
                        if j > 0 {
                            assert(docs.drop_first()[j - 1] == docs[j]);
                        }
                    }
                },
            }
        }
    }
}

/// A restartable cursor over a finite ascending doc-id sequence.
pub trait DocRefIterator {
    /// The ids this cursor has yet to yield, in order.
    spec fn remaining(&self) -> Seq<u64>;

    /// Yield the next id, or `None` at the end.
    fn next(&mut self) -> (r: Option<u64>)
        ensures
            old(self).remaining().len() == 0 ==> (r is None && final(self).remaining() == old(self).remaining()),
            old(self).remaining().len() > 0 ==> (r == Some(old(self).remaining()[0]) && final(self).remaining() == old(self).remaining().drop_first()),
    ;
}

/// Read-only snapshot capability of an index backend.
pub trait IndexReader {
    type AllDocRefIterator: DocRefIterator;

    type TermDocRefIterator: DocRefIterator;

    /// The snapshot this reader presents.
    spec fn docs(&self) -> Seq<(u64, Document)>;

    /// The snapshot is well-formed.
    spec fn wf(&self) -> bool;

    /// Exact key lookup.
    fn get_document_by_key(&self, doc_key: &str) -> (r: Option<&Document>)
        requires
            self.wf(),
        ensures
            match r {
                Some(d) => spec_key_lookup(self.docs(), doc_key@) == Some(*d),
                None => spec_key_lookup(self.docs(), doc_key@) is None,
            },
    ;

    /// Exact id lookup.
    fn get_document_by_id(&self, doc_id: u64) -> (r: Option<&Document>)
        requires
            self.wf(),
        ensures
            match r {
                Some(d) => spec_id_lookup(self.docs(), doc_id) == Some(*d),
                None => spec_id_lookup(self.docs(), doc_id) is None,
            },
    ;

    /// Is a document stored under this key?
    fn contains_document_key(&self, doc_key: &str) -> (r: bool)
        requires
            self.wf(),
        ensures
            r == (spec_key_lookup(self.docs(), doc_key@) is Some),
    ;

    /// The smallest doc id strictly greater than `previous_doc` (or
    /// the smallest overall when it is absent) among documents whose
    /// field contains the term.
    fn next_doc(&self, term: &[u8], field_name: &str, previous_doc: Option<u64>) -> (r: Option<
        u64,
    >)
        requires
            self.wf(),
        ensures
            r == spec_next_doc(self.docs(), term@, field_name@, previous_doc),
    ;

    /// Number of stored documents.
    fn num_docs(&self) -> (r: usize)
        requires
            self.wf(),
        ensures
            r == self.docs().len(),
    ;

    /// A cursor over all doc ids, ascending.
    fn iter_docids_all(&self) -> (r: Self::AllDocRefIterator)
        requires
            self.wf(),
        ensures
            r.remaining() == spec_all_ids(self.docs()),
    ;

    /// A cursor over the doc ids whose field contains the term,
    /// ascending; `None` when the term is unknown to the field.
    fn iter_docids_with_term(&self, term: &[u8], field_name: &str) -> (r: Option<
        Self::TermDocRefIterator,
    >)
        requires
            self.wf(),
        ensures
            (r is Some) == (spec_ids_with_term(self.docs(), term@, field_name@).len() > 0),
            r matches Some(it) ==> it.remaining() == spec_ids_with_term(
                self.docs(),
                term@,
                field_name@,
            ),
    ;

    /// The distinct term byte-strings of a field, `None` when the
    /// field holds none; vocabulary enumeration for prefix expansion.
    fn iter_terms(&self, field_name: &str) -> (r: Option<Vec<Vec<u8>>>)
        requires
            self.wf(),
        ensures
            match r {
                Some(terms) => {
                    &&& terms@.len() > 0
                    &&& forall|k1: int, k2: int|
                        0 <= k1 < k2 < terms@.len() ==> #[trigger] terms@[k1]@ != #[trigger] terms@[k2]@
                    &&& forall|k: int|
                        0 <= k < terms@.len() ==> term_in_field(
                            self.docs(),
                            field_name@,
                            #[trigger] terms@[k]@,
                        )
                    &&& forall|t: Seq<u8>|
                        #[trigger] term_in_field(self.docs(), field_name@, t) ==> terms_contain(
                            terms@,
                            t,
                        )
                },
                None => forall|t: Seq<u8>| !(#[trigger] term_in_field(self.docs(), field_name@, t)),
            },
    ;

    /// Number of documents containing the term in the field; feeds the
    /// inverse-document-frequency of the similarity formulas.
    fn term_doc_freq(&self, term: &[u8], field_name: &str) -> (r: u64)
        requires
            self.wf(),
        ensures
            r == spec_term_doc_freq(self.docs(), term@, field_name@),
    ;
}

/// Mutable capability of an index backend.
pub trait IndexStore<'a> {
    type Reader: IndexReader;

    /// The committed snapshot.
    spec fn docs_model(&self) -> Seq<(u64, Document)>;

    /// The store's invariant.
    spec fn inv(&self) -> bool;

    /// A fresh doc id can still be assigned.
    spec fn has_capacity(&self) -> bool;

    /// A consistent read view of the state committed now; later writes
    /// leave it untouched (it borrows the store, which serializes the
    /// writer).
    fn reader(&'a self) -> (r: Self::Reader)
        requires
            self.inv(),
        ensures
            r.wf(),
            r.docs() == self.docs_model(),
    ;

    /// Upsert by document key: any entry under the key is replaced,
    /// and the document is stored under a fresh id greater than every
    /// id in use.
    fn insert_or_update_document(&mut self, doc: Document)
        requires
            old(self).inv(),
            old(self).has_capacity(),
        ensures
            final(self).inv(),
            exists|id: u64|
                #![trigger spec_remove_key(old(self).docs_model(), doc.key@).push((id, doc))]
                final(self).docs_model() =~= spec_remove_key(
                    old(self).docs_model(),
                    doc.key@,
                ).push((id, doc)) && (forall|j: int|
                    0 <= j < old(self).docs_model().len() ==> old(self).docs_model()[j].0 < id),
    ;

    /// Remove the document stored under a key; true exactly when one
    /// was present.
    fn remove_document_by_key(&mut self, doc_key: &str) -> (r: bool)
        requires
            old(self).inv(),
        ensures
            final(self).inv(),
            r == (spec_key_lookup(old(self).docs_model(), doc_key@) is Some),
            final(self).docs_model() =~= spec_remove_key(old(self).docs_model(), doc_key@),
    ;
}

} // verus!
