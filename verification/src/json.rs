//! The crate's own model of a JSON value.
//!
//! Wallet responses arrive as JSON.  The unverified shell parses the wire
//! bytes and hands the tree over in this form, with every number kept as
//! its decimal source text, so the verified code decides everything about
//! a response's shape and content.  Object fields keep their wire order;
//! a lookup takes the first field with the wanted name.

use vstd::prelude::*;
use crate::text::str_eq;

verus! {

/// A JSON value.
#[derive(Debug)]
pub enum Json {
    Null,
    Bool(bool),
    /// A number, as the decimal text the wire carried.
    Num(String),
    Str(String),
    Arr(Vec<Json>),
    /// An object, as its fields in wire order.
    Obj(Vec<(String, Json)>),
}

/// The value of the first field named `key`, if any.
pub open spec fn lookup_spec(fields: Seq<(String, Json)>, key: Seq<char>) -> Option<Json>
    decreases fields.len(),
{
    if fields.len() == 0 {
        None
    } else if fields[0].0@ == key {
        Some(fields[0].1)
    } else {
        lookup_spec(fields.drop_first(), key)
    }
}

/// Dropping a prefix with no matching field does not change the lookup.
proof fn lemma_lookup_skip(fields: Seq<(String, Json)>, key: Seq<char>, i: int)
    requires
        0 <= i <= fields.len(),
        forall|j: int| 0 <= j < i ==> fields[j].0@ != key,
    ensures
        lookup_spec(fields, key) == lookup_spec(fields.skip(i), key),
    decreases i,
{
    if i > 0 {
        assert(fields[0].0@ != key);
        lemma_lookup_skip(fields.drop_first(), key, i - 1);
        assert(fields.drop_first().skip(i - 1) =~= fields.skip(i));
    } else {
        assert(fields.skip(0) =~= fields);
    }
}

/// The index of the first field named `key`, with what that means for
/// `lookup_spec`.
pub fn find_field(fields: &Vec<(String, Json)>, key: &str) -> (r: Option<usize>)
    ensures
        match r {
            Some(i) => i < fields@.len() && fields@[i as int].0@ == key@ && lookup_spec(
                fields@,
                key@,
            ) == Some(fields@[i as int].1),
            None => lookup_spec(fields@, key@) is None,
        },
{
    let n = fields.len();
    let mut i: usize = 0;
    while i < n
        invariant
            i <= n,
            n == fields@.len(),
            forall|j: int| 0 <= j < i ==> fields@[j].0@ != key@,
        decreases n - i,
    {
        if str_eq(fields[i].0.as_str(), key) {
            proof {
                lemma_lookup_skip(fields@, key@, i as int);
                assert(fields@.skip(i as int).len() > 0);
                assert(fields@.skip(i as int)[0] == fields@[i as int]);
            }
            return Some(i);
        }
        i += 1;
    }
    proof {
        lemma_lookup_skip(fields@, key@, n as int);
        assert(fields@.skip(n as int).len() == 0);
    }
    None
}

/// A borrow of the first field named `key`.
pub fn lookup<'a>(fields: &'a Vec<(String, Json)>, key: &str) -> (r: Option<&'a Json>)
    ensures
        match r {
            Some(v) => lookup_spec(fields@, key@) == Some(*v),
            None => lookup_spec(fields@, key@) is None,
        },
{
    match find_field(fields, key) {
        Some(i) => Some(&fields[i].1),
        None => None,
    }
}

} // verus!
