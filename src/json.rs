//! A JSON value as the codec reads and writes it. Numbers are kept only as
//! far as the protocol reads them: a non-negative integer that fits in 64
//! bits, or some other number.

use vstd::prelude::*;

verus! {

/// A JSON document.
#[derive(Debug, PartialEq, Eq)]
pub enum Json {
    Null,
    Bool(bool),
    /// A non-negative integer that fits in 64 bits.
    Int(u64),
    /// Any other number: negative, fractional, or too large.
    OtherNumber,
    Str(String),
    Array(Vec<Json>),
    /// The members of an object, in order.
    Object(Vec<Member>),
}

/// One member of an object.
#[derive(Debug, PartialEq, Eq)]
pub struct Member {
    pub name: String,
    pub value: Json,
}

/// The value of the first member named `key`, looking from position `i` on.
pub open spec fn member_from(fs: Seq<Member>, key: Seq<char>, i: int) -> Option<Json>
    decreases fs.len() - i,
{
    if i < 0 || i >= fs.len() {
        None
    } else if fs[i].name@ == key {
        Some(fs[i].value)
    } else {
        member_from(fs, key, i + 1)
    }
}

/// The value of the first member of an object named `key`, if there is one.
pub open spec fn member(fs: Seq<Member>, key: Seq<char>) -> Option<Json> {
    member_from(fs, key, 0)
}

/// Whether `j` is the string `s`.
pub open spec fn is_str(j: Json, s: Seq<char>) -> bool {
    j matches Json::Str(t) && t@ == s
}

/// Whether `j` is an array of exactly the strings `ss`.
pub open spec fn is_str_list(j: Json, ss: Seq<Seq<char>>) -> bool {
    j matches Json::Array(v) && v@.len() == ss.len() && forall|k: int|
        0 <= k < ss.len() ==> #[trigger] is_str(v@[k], ss[k])
}

/// A member found at `i`, with no member of that name before it.
pub proof fn lemma_member_at(fs: Seq<Member>, key: Seq<char>, i: int)
    requires
        0 <= i < fs.len(),
        fs[i].name@ == key,
        forall|k: int| 0 <= k < i ==> #[trigger] fs[k].name@ != key,
    ensures
        member(fs, key) == Some(fs[i].value),
    decreases i,
{
    lemma_member_skip(fs, key, 0, i);
}

/// Members that do not bear `key` are passed over.
pub proof fn lemma_member_skip(fs: Seq<Member>, key: Seq<char>, i: int, j: int)
    requires
        0 <= i <= j <= fs.len(),
        forall|k: int| i <= k < j ==> #[trigger] fs[k].name@ != key,
    ensures
        member_from(fs, key, i) == member_from(fs, key, j),
    decreases j - i,
{
    if i < j {
        lemma_member_skip(fs, key, i + 1, j);
    }
}

/// What a lookup finds is the value of a member of that name; when it finds
/// nothing, no member bears the name.
pub proof fn lemma_member_found(fs: Seq<Member>, key: Seq<char>, i: int)
    requires
        0 <= i <= fs.len(),
    ensures
        match member_from(fs, key, i) {
            Some(v) => exists|k: int| i <= k < fs.len() && #[trigger] fs[k].name@ == key && fs[k].value == v,
            None => forall|k: int| i <= k < fs.len() ==> #[trigger] fs[k].name@ != key,
        },
    decreases fs.len() - i,
{
    if i < fs.len() && fs[i].name@ != key {
        lemma_member_found(fs, key, i + 1);
    }
}

/// The first member of `fs` named `key`.
pub fn find_member<'a>(fs: &'a Vec<Member>, key: &str) -> (r: Option<&'a Json>)
    ensures
        match r {
            Some(v) => member(fs@, key@) == Some(*v),
            None => member(fs@, key@) is None,
        },
{
    let name = key.to_owned();
    let mut i: usize = 0;
    while i < fs.len()
        invariant
            i <= fs@.len(),
            name@ == key@,
            member(fs@, key@) == member_from(fs@, key@, i as int),
        decreases fs@.len() - i,
    {
        if fs[i].name == name {
            return Some(&fs[i].value);
        }
        i = i + 1;
    }
    None
}

} // verus!
