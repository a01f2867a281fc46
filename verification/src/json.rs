//! Reading texts and whole numbers out of a JSON document.
//!
//! A document is a `serde_json::Value`, which the verifier cannot look into.
//! What the library needs of one is named here: the texts and the whole
//! numbers that it holds, each under the path of member names that leads to
//! it from the top of the document. The three functions of `serde_json` that
//! the library calls are described over these two names.

use vstd::prelude::*;
use crate::text::opt_text;

verus! {

/// `serde_json::Value`, a JSON document. Nothing of its inside is known to the
/// verifier.
#[verifier::external_type_specification]
#[verifier::external_body]
pub struct ExJsonValue(serde_json::Value);

/// The texts of a document: for each path of member names that leads through
/// objects to a JSON string, that string. A document that is itself a string
/// holds it under the empty path.
pub uninterp spec fn json_texts(v: serde_json::Value) -> Map<Seq<Seq<char>>, Seq<char>>;

/// The whole numbers of a document: for each path of member names that leads
/// through objects to a JSON number that is an integer and fits `i64`, that
/// number.
pub uninterp spec fn json_numbers(v: serde_json::Value) -> Map<Seq<Seq<char>>, i64>;

/// What a map by path holds below `prefix`, each entry under the rest of its
/// path.
pub open spec fn below<T>(m: Map<Seq<Seq<char>>, T>, prefix: Seq<Seq<char>>) -> Map<
    Seq<Seq<char>>,
    T,
> {
    Map::new(|p: Seq<Seq<char>>| m.contains_key(prefix + p), |p: Seq<Seq<char>>| m[prefix + p])
}

/// The text at `path`, if the document has one there.
pub open spec fn text_at(v: serde_json::Value, path: Seq<Seq<char>>) -> Option<Seq<char>> {
    if json_texts(v).contains_key(path) {
        Some(json_texts(v)[path])
    } else {
        None
    }
}

/// The whole number at `path`, if the document has one there.
pub open spec fn number_at(v: serde_json::Value, path: Seq<Seq<char>>) -> Option<i64> {
    if json_numbers(v).contains_key(path) {
        Some(json_numbers(v)[path])
    } else {
        None
    }
}

/// `serde_json`'s index of a `Value` by a `&str`: the member of that name
/// where the value is an object that has one, else `Value::Null`. So the
/// result holds what the value holds below that name, and nothing where there
/// is no such member, since `Null` holds neither text nor number.
#[verifier::external_body]
pub(crate) fn member<'a>(v: &'a serde_json::Value, key: &str) -> (r: &'a serde_json::Value)
    ensures
        json_texts(*r) == below(json_texts(*v), seq![key@]),
        json_numbers(*r) == below(json_numbers(*v), seq![key@]),
{
    &v[key]
}

/// `serde_json::Value::as_str`: the text of a value that is a JSON string,
/// `None` for every other value.
#[verifier::external_body]
pub(crate) fn as_text(v: &serde_json::Value) -> (r: Option<String>)
    ensures
        opt_text(r) == text_at(*v, Seq::empty()),
{
    v.as_str().map(|s| s.to_string())
}

/// `serde_json::Value::as_i64`: the number of a value that is a JSON integer
/// within the range of `i64`, `None` for every other value.
#[verifier::external_body]
pub(crate) fn as_number(v: &serde_json::Value) -> (r: Option<i64>)
    ensures
        r == number_at(*v, Seq::empty()),
{
    v.as_i64()
}

/// Going below `a` and then below `b` is going below `a + b`.
pub proof fn lemma_below_twice<T>(m: Map<Seq<Seq<char>>, T>, a: Seq<Seq<char>>, b: Seq<Seq<char>>)
    ensures
        below(below(m, a), b) == below(m, a + b),
{
    assert forall|p: Seq<Seq<char>>| (a + b) + p == a + (b + p) by {
        assert((a + b) + p =~= a + (b + p));
    }
    assert(below(below(m, a), b) =~= below(m, a + b));
}

/// What stands at the top of the part below `path` stands at `path`.
pub proof fn lemma_below_top<T>(m: Map<Seq<Seq<char>>, T>, path: Seq<Seq<char>>)
    ensures
        below(m, path).contains_key(Seq::empty()) == m.contains_key(path),
        m.contains_key(path) ==> below(m, path)[Seq::empty()] == m[path],
{
    assert(path + Seq::<Seq<char>>::empty() =~= path);
}

/// The text of the member `key` of `v`.
pub fn text_member(v: &serde_json::Value, key: &str) -> (r: Option<String>)
    ensures
        opt_text(r) == text_at(*v, seq![key@]),
{
    let inner = member(v, key);
    proof {
        lemma_below_top(json_texts(*v), seq![key@]);
    }
    as_text(inner)
}

/// The whole number that is the member `key` of `v`.
pub fn number_member(v: &serde_json::Value, key: &str) -> (r: Option<i64>)
    ensures
        r == number_at(*v, seq![key@]),
{
    let inner = member(v, key);
    proof {
        lemma_below_top(json_numbers(*v), seq![key@]);
    }
    as_number(inner)
}

} // verus!
