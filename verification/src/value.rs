//! Typed field values and documents.

use vstd::prelude::*;

use crate::strings::str_eq;

verus! {

/// The value held by one field of a document.
///
/// `String` and `TSVector` are the leaf kinds that term matching can
/// interpret; the remaining kinds are opaque to it and never match.
#[derive(Debug, Clone, PartialEq)]
pub enum Value {
    String(String),
    TSVector(Vec<String>),
    I64(i64),
    Boolean(bool),
    Null,
}

/// A document: a key naming it within the store, and a mapping from
/// field name to [`Value`], with each field name held at most once.
#[derive(Debug, Clone, PartialEq)]
pub struct Document {
    pub key: String,
    pub fields: Vec<(String, Value)>,
}

/// The value of the first entry of `fields` named `name`, if any.
pub open spec fn field_lookup(fields: Seq<(String, Value)>, name: Seq<char>) -> Option<Value>
    decreases fields.len(),
{
    if fields.len() == 0 {
        None
    } else if fields[0].0@ == name {
        Some(fields[0].1)
    } else {
        field_lookup(fields.drop_first(), name)
    }
}

/// Field names are pairwise distinct, so `fields` is a mapping.
pub open spec fn fields_wf(fields: Seq<(String, Value)>) -> bool {
    forall|i: int, j: int|
        0 <= i < j < fields.len() ==> fields[i].0@ != fields[j].0@
}

impl Document {
    pub open spec fn wf(&self) -> bool {
        fields_wf(self.fields@)
    }

    /// An empty document under the given key.
    pub fn new(key: String) -> (r: Document)
        ensures
            r.key == key,
            r.fields@ =~= Seq::<(String, Value)>::empty(),
            r.wf(),
    {
        Document { key, fields: Vec::new() }
    }

    /// Look a field up by name.
    pub fn get_field(&self, name: &str) -> (r: Option<&Value>)
        ensures
            match r {
                Some(v) => field_lookup(self.fields@, name@) == Some(*v),
                None => field_lookup(self.fields@, name@) is None,
            },
    {
        proof {
            assert(self.fields@.subrange(0, self.fields@.len() as int) =~= self.fields@);
        }
        let mut i: usize = 0;
        while i < self.fields.len()
            invariant
                i <= self.fields@.len(),
                field_lookup(self.fields@, name@) == field_lookup(
                    self.fields@.subrange(i as int, self.fields@.len() as int),
                    name@,
                ),
            decreases self.fields@.len() - i,
        {
            let ghost rest = self.fields@.subrange(i as int, self.fields@.len() as int);
            if str_eq(self.fields[i].0.as_str(), name) {
                proof {
                    assert(rest[0] == self.fields@[i as int]);
                }
                return Some(&self.fields[i].1);
            }
            proof {
                assert(rest[0] == self.fields@[i as int]);
                assert(rest.drop_first() =~= self.fields@.subrange(
                    i + 1,
                    self.fields@.len() as int,
                ));
            }
            i = i + 1;
        }
        proof {
            assert(self.fields@.subrange(i as int, self.fields@.len() as int).len() == 0);
        }
        None
    }

    /// Insert a field value, replacing any earlier value of the same name.
    pub fn set_field(&mut self, name: String, value: Value)
        requires
            old(self).wf(),
        ensures
            final(self).wf(),
            final(self).key == old(self).key,
            field_lookup(final(self).fields@, name@) == Some(value),
            forall|other: Seq<char>|
                other != name@ ==> field_lookup(final(self).fields@, other) == field_lookup(
                    old(self).fields@,
                    other,
                ),
    {
        let ghost orig = *old(self);
        let mut i: usize = 0;
        while i < self.fields.len()
            invariant
                i <= self.fields@.len(),
                *self == orig,
                orig == *old(self),
                orig.wf(),
                forall|j: int| 0 <= j < i ==> self.fields@[j].0@ != name@,
            decreases self.fields@.len() - i,
        {
            if str_eq(self.fields[i].0.as_str(), name.as_str()) {
                self.fields.set(i, (name, value));
                proof {
                    lemma_lookup_at_updated(orig.fields@, self.fields@, i as int);
                }
                return;
            }
            i = i + 1;
        }
        self.fields.push((name, value));
        proof {
            lemma_lookup_appended(orig.fields@, self.fields@);
        }
    }
}

/// Replacing the entry at `at` (same name, new value) in a well-formed
/// field list changes exactly that name's lookup result.
proof fn lemma_lookup_at_updated(pre: Seq<(String, Value)>, post: Seq<(String, Value)>, at: int)
    requires
        fields_wf(pre),
        0 <= at < pre.len(),
        post.len() == pre.len(),
        post[at].0@ == pre[at].0@,
        forall|j: int| 0 <= j < pre.len() && j != at ==> post[j] == pre[j],
    ensures
        fields_wf(post),
        field_lookup(post, post[at].0@) == Some(post[at].1),
        forall|other: Seq<char>|
            other != post[at].0@ ==> field_lookup(post, other) == field_lookup(pre, other),
    decreases pre.len(),
{
    assert(forall|j: int| 0 <= j < post.len() ==> post[j].0@ == pre[j].0@);
    assert forall|i: int, j: int| 0 <= i < j < post.len() implies post[i].0@ != post[j].0@ by {
        assert(pre[i].0@ != pre[j].0@);
    }
    if at == 0 {
        assert(post.drop_first() =~= pre.drop_first());
        assert forall|other: Seq<char>| other != post[0].0@ implies field_lookup(post, other)
            == field_lookup(pre, other) by {
            assert(field_lookup(post, other) == field_lookup(post.drop_first(), other));
            assert(field_lookup(pre, other) == field_lookup(pre.drop_first(), other));
        }
    } else {
        assert forall|i: int, j: int|
            0 <= i < j < pre.drop_first().len() implies pre.drop_first()[i].0@
            != pre.drop_first()[j].0@ by {
            assert(pre[i + 1].0@ != pre[j + 1].0@);
        }
        lemma_lookup_at_updated(pre.drop_first(), post.drop_first(), at - 1);
        assert(post.drop_first()[at - 1] == post[at]);
        assert(post[0] == pre[0]);
        assert(post[at].0@ != post[0].0@);
        assert(field_lookup(post, post[at].0@) == field_lookup(post.drop_first(), post[at].0@));
        assert forall|other: Seq<char>| other != post[at].0@ implies field_lookup(post, other)
            == field_lookup(pre, other) by {
            if other != post[0].0@ {
                assert(field_lookup(post, other) == field_lookup(post.drop_first(), other));
                assert(field_lookup(pre, other) == field_lookup(pre.drop_first(), other));
            }
        }
    }
}

/// Appending an entry under a fresh name keeps the list well-formed,
/// makes that name's lookup find the new value, and leaves every other
/// name's lookup unchanged.
proof fn lemma_lookup_appended(pre: Seq<(String, Value)>, post: Seq<(String, Value)>)
    requires
        fields_wf(pre),
        post.len() == pre.len() + 1,
        forall|j: int| 0 <= j < pre.len() ==> post[j] == pre[j],
        forall|j: int| 0 <= j < pre.len() ==> pre[j].0@ != post[pre.len() as int].0@,
    ensures
        fields_wf(post),
        field_lookup(post, post[pre.len() as int].0@) == Some(post[pre.len() as int].1),
        forall|other: Seq<char>|
            other != post[pre.len() as int].0@ ==> field_lookup(post, other) == field_lookup(
                pre,
                other,
            ),
    decreases pre.len(),
{
    let n = pre.len() as int;
    assert forall|i: int, j: int| 0 <= i < j < post.len() implies post[i].0@ != post[j].0@ by {
        if j < n {
            assert(pre[i].0@ != pre[j].0@);
        } else {
            assert(pre[i].0@ != post[n].0@);
        }
    }
    if pre.len() == 0 {
        assert(post.drop_first().len() == 0);
        assert forall|other: Seq<char>| other != post[0].0@ implies field_lookup(post, other)
            == field_lookup(pre, other) by {
            assert(field_lookup(post, other) == field_lookup(post.drop_first(), other));
        }
    } else {
        assert forall|i: int, j: int|
            0 <= i < j < pre.drop_first().len() implies pre.drop_first()[i].0@
            != pre.drop_first()[j].0@ by {
            assert(pre[i + 1].0@ != pre[j + 1].0@);
        }
        assert(forall|j: int|
            0 <= j < pre.drop_first().len() ==> pre.drop_first()[j].0@ != post.drop_first()[(n
                - 1) as int].0@);
        lemma_lookup_appended(pre.drop_first(), post.drop_first());
        assert(post.drop_first()[n - 1] == post[n]);
        assert(post[0] == pre[0]);
        assert(pre[0].0@ != post[n].0@);
        assert(field_lookup(post, post[n].0@) == field_lookup(post.drop_first(), post[n].0@));
        assert forall|other: Seq<char>| other != post[n].0@ implies field_lookup(post, other)
            == field_lookup(pre, other) by {
            if other != post[0].0@ {
                assert(field_lookup(post, other) == field_lookup(post.drop_first(), other));
                assert(field_lookup(pre, other) == field_lookup(pre.drop_first(), other));
            }
        }
    }
}

} // verus!
