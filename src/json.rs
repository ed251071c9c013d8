//! A JSON document tree, as the persisted sequence files hold it, and
//! lookup of object members by key.

use vstd::prelude::*;
use vstd::string::StringExecFns;

verus! {

/// One JSON value. Numbers are kept as their literal text, so that a value
/// read from a file is written back unchanged.
#[derive(Debug, PartialEq)]
pub enum Json {
    Null,
    Bool(bool),
    Number(String),
    Str(String),
    Array(Vec<Json>),
    Object(Vec<(String, Json)>),
}

/// The value of the first member of `fields` whose key is `key`.
pub open spec fn first_match(fields: Seq<(String, Json)>, key: Seq<char>) -> Option<Json>
    decreases fields.len(),
{
    if fields.len() == 0 {
        None
    } else if fields[0].0@ == key {
        Some(fields[0].1)
    } else {
        first_match(fields.drop_first(), key)
    }
}

/// The text of a string value.
pub open spec fn str_of(j: Option<Json>) -> Option<Seq<char>> {
    match j {
        Some(Json::Str(s)) => Some(s@),
        _ => None,
    }
}

/// Keys that are pairwise distinct.
pub open spec fn distinct_keys(keys: Seq<String>) -> bool {
    forall|a: int, b: int| 0 <= a < keys.len() && 0 <= b < keys.len() && a != b ==> keys[a]@ != keys[b]@
}

proof fn lemma_first_match_step(all: Seq<(String, Json)>, i: int, key: Seq<char>)
    requires
        0 < i <= all.len(),
    ensures
        first_match(all.subrange(i - 1, all.len() as int), key) == (if all[i - 1].0@ == key {
            Some(all[i - 1].1)
        } else {
            first_match(all.subrange(i, all.len() as int), key)
        }),
{
    let s = all.subrange(i - 1, all.len() as int);
    assert(s[0] == all[i - 1]);
    assert(s.drop_first() =~= all.subrange(i, all.len() as int));
}

/// The first member named `key` is the one at `i`.
pub proof fn lemma_first_match_at(fields: Seq<(String, Json)>, key: Seq<char>, i: int)
    requires
        0 <= i < fields.len(),
        fields[i].0@ == key,
        forall|p: int| 0 <= p < i ==> fields[p].0@ != key,
    ensures
        first_match(fields, key) == Some(fields[i].1),
    decreases i,
{
    if i > 0 {
        lemma_first_match_at(fields.drop_first(), key, i - 1);
    }
}

/// Moves out of an object's members the value of the first member named by
/// each key; `r[q]` is the value under `keys[q]`, or `None` where no member
/// has that key.
pub fn take_fields(fields: Vec<(String, Json)>, keys: &Vec<String>) -> (r: Vec<Option<Json>>)
    requires
        distinct_keys(keys@),
    ensures
        r@.len() == keys@.len(),
        forall|q: int| 0 <= q < keys@.len() ==> r@[q] == first_match(fields@, keys@[q]@),
{
    let mut r: Vec<Option<Json>> = Vec::new();
    let mut q: usize = 0;
    while q < keys.len()
        invariant
            q <= keys@.len(),
            r@.len() == q,
            forall|p: int| 0 <= p < q ==> r@[p] is None,
        decreases keys@.len() - q,
    {
        r.push(None);
        q = q + 1;
    }
    let ghost all = fields@;
    let mut rest = fields;
    assert(all.subrange(all.len() as int, all.len() as int) =~= Seq::<(String, Json)>::empty());
    while rest.len() > 0
        invariant
            rest@ == all.subrange(0, rest@.len() as int),
            rest@.len() <= all.len(),
            r@.len() == keys@.len(),
            distinct_keys(keys@),
            forall|p: int|
                0 <= p < keys@.len() ==> r@[p] == first_match(
                    all.subrange(rest@.len() as int, all.len() as int),
                    keys@[p]@,
                ),
        decreases rest@.len(),
    {
        let ghost i = rest@.len() as int;
        let entry = rest.pop().unwrap();
        proof {
            assert(rest@ =~= all.subrange(0, i - 1));
            assert(entry == all[i - 1]);
        }
        let (k, v) = entry;
        let mut q: usize = 0;
        let mut found: usize = keys.len();
        while q < keys.len()
            invariant_except_break
                found == keys@.len(),
            invariant
                q <= keys@.len(),
                forall|p: int| 0 <= p < q ==> keys@[p]@ != k@,
            ensures
                found < keys@.len() ==> keys@[found as int]@ == k@,
                found == keys@.len() ==> forall|p: int| 0 <= p < keys@.len() ==> keys@[p]@ != k@,
                found <= keys@.len(),
            decreases keys@.len() - q,
        {
            if keys[q] == k {
                found = q;
                break;
            }
            q = q + 1;
        }
        proof {
            assert forall|p: int| 0 <= p < keys@.len() implies first_match(
                all.subrange(i - 1, all.len() as int),
                keys@[p]@,
            ) == (if all[i - 1].0@ == keys@[p]@ {
                Some(all[i - 1].1)
            } else {
                first_match(all.subrange(i, all.len() as int), keys@[p]@)
            }) by {
                lemma_first_match_step(all, i, keys@[p]@);
            }
        }
        if found < keys.len() {
            r.set(found, Some(v));
        }
        proof {
            assert forall|p: int| 0 <= p < keys@.len() implies r@[p] == first_match(
                all.subrange(i - 1, all.len() as int),
                keys@[p]@,
            ) by {
                if found < keys@.len() && p != found {
                    assert(keys@[p]@ != keys@[found as int]@);
                }
            }
        }
    }
    assert(all.subrange(0, all.len() as int) =~= all);
    r
}

/// Builds a string value from a literal key or text.
pub(crate) fn key(s: &str) -> (r: String)
    ensures
        r@ == s@,
{
    String::from_str(s)
}

} // verus!
