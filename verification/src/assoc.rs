//! Verified name-to-value association lists: the owned mapping objects
//! behind the analyzer registry's catalogs.

use vstd::prelude::*;

use crate::strings::str_eq;

verus! {

/// The value of the first entry of `entries` named `name`, if any.
pub open spec fn assoc_lookup<T>(entries: Seq<(String, T)>, name: Seq<char>) -> Option<T>
    decreases entries.len(),
{
    if entries.len() == 0 {
        None
    } else if entries[0].0@ == name {
        Some(entries[0].1)
    } else {
        assoc_lookup(entries.drop_first(), name)
    }
}

/// Names are pairwise distinct, so the list is a mapping.
pub open spec fn assoc_wf<T>(entries: Seq<(String, T)>) -> bool {
    forall|i: int, j: int| 0 <= i < j < entries.len() ==> entries[i].0@ != entries[j].0@
}

/// Look a name up.
pub fn assoc_get<'a, T>(entries: &'a Vec<(String, T)>, name: &str) -> (r: Option<&'a T>)
    ensures
        match r {
            Some(v) => assoc_lookup(entries@, name@) == Some(*v),
            None => assoc_lookup(entries@, name@) is None,
        },
{
    proof {
        assert(entries@.subrange(0, entries@.len() as int) =~= entries@);
    }
    let mut i: usize = 0;
    while i < entries.len()
        invariant
            i <= entries@.len(),
            assoc_lookup(entries@, name@) == assoc_lookup(
                entries@.subrange(i as int, entries@.len() as int),
                name@,
            ),
        decreases entries@.len() - i,
    {
        let ghost rest = entries@.subrange(i as int, entries@.len() as int);
        if str_eq(entries[i].0.as_str(), name) {
            proof {
                assert(rest[0] == entries@[i as int]);
            }
            return Some(&entries[i].1);
        }
        proof {
            assert(rest[0] == entries@[i as int]);
            assert(rest.drop_first() =~= entries@.subrange(i + 1, entries@.len() as int));
        }
        i = i + 1;
    }
    proof {
        assert(entries@.subrange(i as int, entries@.len() as int).len() == 0);
    }
    None
}

/// True when the name is present.
pub fn assoc_contains<T>(entries: &Vec<(String, T)>, name: &str) -> (r: bool)
    ensures
        r == (assoc_lookup(entries@, name@) is Some),
{
    match assoc_get(entries, name) {
        Some(_) => true,
        None => false,
    }
}

/// Insert a value under a name, replacing and returning any earlier
/// value of that name.
pub fn assoc_insert<T>(entries: &mut Vec<(String, T)>, name: String, value: T) -> (r: Option<T>)
    requires
        assoc_wf(old(entries)@),
    ensures
        assoc_wf(final(entries)@),
        r == assoc_lookup(old(entries)@, name@),
        final(entries)@.len() == old(entries)@.len() + if r is Some {
            0int
        } else {
            1int
        },
        assoc_lookup(final(entries)@, name@) == Some(value),
        forall|other: Seq<char>|
            other != name@ ==> assoc_lookup(final(entries)@, other) == assoc_lookup(
                old(entries)@,
                other,
            ),
{
    let ghost orig = old(entries)@;
    let mut i: usize = 0;
    while i < entries.len()
        invariant
            i <= entries@.len(),
            entries@ == orig,
            orig == old(entries)@,
            assoc_wf(orig),
            forall|j: int| 0 <= j < i ==> entries@[j].0@ != name@,
        decreases entries@.len() - i,
    {
        if str_eq(entries[i].0.as_str(), name.as_str()) {
            let old_pair = entries.remove(i);
            entries.insert(i, (name, value));
            proof {
                assert(entries@ =~= orig.update(i as int, (name, value)));
                lemma_assoc_lookup_updated(orig, entries@, i as int);
                lemma_assoc_lookup_found(orig, i as int);
            }
            return Some(old_pair.1);
        }
        i = i + 1;
    }
    entries.push((name, value));
    proof {
        lemma_assoc_lookup_appended(orig, entries@);
        lemma_assoc_lookup_absent(orig, name@);
    }
    None
}

/// In a well-formed list, looking up the name at position `at` finds
/// that entry's value.
proof fn lemma_assoc_lookup_found<T>(entries: Seq<(String, T)>, at: int)
    requires
        assoc_wf(entries),
        0 <= at < entries.len(),
    ensures
        assoc_lookup(entries, entries[at].0@) == Some(entries[at].1),
    decreases entries.len(),
{
    if at > 0 {
        lemma_assoc_lookup_found(entries.drop_first(), at - 1);
        assert(entries.drop_first()[at - 1] == entries[at]);
        assert(entries[0].0@ != entries[at].0@);
    }
}

/// A name held by no entry looks up to nothing.
proof fn lemma_assoc_lookup_absent<T>(entries: Seq<(String, T)>, name: Seq<char>)
    requires
        forall|j: int| 0 <= j < entries.len() ==> entries[j].0@ != name,
    ensures
        assoc_lookup(entries, name) is None,
    decreases entries.len(),
{
    if entries.len() > 0 {
        lemma_assoc_lookup_absent(entries.drop_first(), name);
    }
}

/// Replacing the entry at `at` (same name, new value) in a well-formed
/// list changes exactly that name's lookup result.
proof fn lemma_assoc_lookup_updated<T>(pre: Seq<(String, T)>, post: Seq<(String, T)>, at: int)
    requires
        assoc_wf(pre),
        0 <= at < pre.len(),
        post.len() == pre.len(),
        post[at].0@ == pre[at].0@,
        forall|j: int| 0 <= j < pre.len() && j != at ==> post[j] == pre[j],
    ensures
        assoc_wf(post),
        assoc_lookup(post, post[at].0@) == Some(post[at].1),
        forall|other: Seq<char>|
            other != post[at].0@ ==> assoc_lookup(post, other) == assoc_lookup(pre, other),
    decreases pre.len(),
{
    assert(forall|j: int| 0 <= j < post.len() ==> post[j].0@ == pre[j].0@);
    assert forall|i: int, j: int| 0 <= i < j < post.len() implies post[i].0@ != post[j].0@ by {
        assert(pre[i].0@ != pre[j].0@);
    }
    if at == 0 {
        assert(post.drop_first() =~= pre.drop_first());
        assert forall|other: Seq<char>| other != post[0].0@ implies assoc_lookup(post, other)
            == assoc_lookup(pre, other) by {
            assert(assoc_lookup(post, other) == assoc_lookup(post.drop_first(), other));
            assert(assoc_lookup(pre, other) == assoc_lookup(pre.drop_first(), other));
        }
    } else {
        assert forall|i: int, j: int|
            0 <= i < j < pre.drop_first().len() implies pre.drop_first()[i].0@
            != pre.drop_first()[j].0@ by {
            assert(pre[i + 1].0@ != pre[j + 1].0@);
        }
        lemma_assoc_lookup_updated(pre.drop_first(), post.drop_first(), at - 1);
        assert(post.drop_first()[at - 1] == post[at]);
        assert(post[0] == pre[0]);
        assert(post[at].0@ != post[0].0@);
        assert(assoc_lookup(post, post[at].0@) == assoc_lookup(post.drop_first(), post[at].0@));
        assert forall|other: Seq<char>| other != post[at].0@ implies assoc_lookup(post, other)
            == assoc_lookup(pre, other) by {
            if other != post[0].0@ {
                assert(assoc_lookup(post, other) == assoc_lookup(post.drop_first(), other));
                assert(assoc_lookup(pre, other) == assoc_lookup(pre.drop_first(), other));
            }
        }
    }
}

/// Appending an entry under a fresh name keeps the list well-formed,
/// makes that name's lookup find the new value, and leaves every other
/// name's lookup unchanged.
proof fn lemma_assoc_lookup_appended<T>(pre: Seq<(String, T)>, post: Seq<(String, T)>)
    requires
        assoc_wf(pre),
        post.len() == pre.len() + 1,
        forall|j: int| 0 <= j < pre.len() ==> post[j] == pre[j],
        forall|j: int| 0 <= j < pre.len() ==> pre[j].0@ != post[pre.len() as int].0@,
    ensures
        assoc_wf(post),
        assoc_lookup(post, post[pre.len() as int].0@) == Some(post[pre.len() as int].1),
        forall|other: Seq<char>|
            other != post[pre.len() as int].0@ ==> assoc_lookup(post, other) == assoc_lookup(
                pre,
                other,
            ),
    decreases pre.len(),
{
    let n = pre.len() as int;
    assert forall|i: int, j: int| 0 <= i < j < post.len() implies post[i].0@ != post[j].0@ by {
        if j < n {
            assert(pre[i].0@ != pre[j].0@);
        } else {
            assert(pre[i].0@ != post[n].0@);
        }
    }
    if pre.len() == 0 {
        assert(post.drop_first().len() == 0);
        assert forall|other: Seq<char>| other != post[0].0@ implies assoc_lookup(post, other)
            == assoc_lookup(pre, other) by {
            assert(assoc_lookup(post, other) == assoc_lookup(post.drop_first(), other));
        }
    } else {
        assert forall|i: int, j: int|
            0 <= i < j < pre.drop_first().len() implies pre.drop_first()[i].0@
            != pre.drop_first()[j].0@ by {
            assert(pre[i + 1].0@ != pre[j + 1].0@);
        }
        assert(forall|j: int|
            0 <= j < pre.drop_first().len() ==> pre.drop_first()[j].0@ != post.drop_first()[(n - 1) as int].0@);
        lemma_assoc_lookup_appended(pre.drop_first(), post.drop_first());
        assert(post.drop_first()[n - 1] == post[n]);
        assert(post[0] == pre[0]);
        assert(pre[0].0@ != post[n].0@);
        assert(assoc_lookup(post, post[n].0@) == assoc_lookup(post.drop_first(), post[n].0@));
        assert forall|other: Seq<char>| other != post[n].0@ implies assoc_lookup(post, other)
            == assoc_lookup(pre, other) by {
            if other != post[0].0@ {
                assert(assoc_lookup(post, other) == assoc_lookup(post.drop_first(), other));
                assert(assoc_lookup(pre, other) == assoc_lookup(pre.drop_first(), other));
            }
        }
    }
}

} // verus!
