//! The dumb HTTP protocol: HEAD and the reference list as plain text.
use vstd::prelude::*;
use vstd::string::StringExecFns;
use crate::handler::{Method, Route};
use crate::oid::{Oid, oid_hex};

verus! {

/// `GET /HEAD`: where HEAD points.
#[derive(Debug, Clone, Copy)]
pub struct Head;

/// `GET /info/refs`: the references and their targets.
#[derive(Debug, Clone, Copy)]
pub struct Refs;

impl Route for Head {
    fn method() -> (r: Method)
        ensures
            r == Method::Get,
    {
        Method::Get
    }

    fn route() -> (r: &'static str)
        ensures
            r@ == "/HEAD"@,
    {
        "/HEAD"
    }

    fn routes() -> (r: Vec<&'static str>)
        ensures
            r@.len() == 1 && r@[0]@ == "/HEAD"@,
    {
        vec!["/HEAD"]
    }
}

impl Route for Refs {
    fn method() -> (r: Method)
        ensures
            r == Method::Get,
    {
        Method::Get
    }

    fn route() -> (r: &'static str)
        ensures
            r@ == "/info/refs"@,
    {
        "/info/refs"
    }

    fn routes() -> (r: Vec<&'static str>)
        ensures
            r@.len() == 1 && r@[0]@ == "/info/refs"@,
    {
        vec!["/info/refs"]
    }
}

impl Head {
    /// The body for a symbolic HEAD pointing at `target`.
    pub fn body(target: &str) -> (r: String)
        ensures
            r@ == "ref: "@ + target@,
    {
        let mut text = "ref: ".to_owned();
        text.append(target);
        text
    }
}

/// One line of the reference list: the target, a tab and the name.
pub open spec fn ref_text(target: Seq<u8>, name: Seq<char>) -> Seq<char> {
    oid_hex(target) + "\t"@ + name
}

/// The reference list: each reference's line, each followed by a line feed.
pub open spec fn refs_text(refs: Seq<(Seq<u8>, Seq<char>)>) -> Seq<char>
    decreases refs.len(),
{
    if refs.len() == 0 {
        seq![]
    } else {
        refs_text(refs.drop_last()) + ref_text(refs.last().0, refs.last().1) + "\n"@
    }
}

/// The line of a reference named `name` that resolves to `target`.
pub fn format_ref(target: &Oid, name: &str) -> (r: String)
    ensures
        r@ == ref_text(target.bytes@, name@),
{
    let mut text = target.to_string();
    text.append("\t");
    text.append(name);
    text
}

/// The reference list of `refs`, each a target and a name.
pub fn format_refs(refs: &Vec<(Oid, String)>) -> (r: String)
    ensures
        r@ == refs_text(refs@.map_values(|x: (Oid, String)| (x.0.bytes@, x.1@))),
{
    let ghost rv = refs@.map_values(|x: (Oid, String)| (x.0.bytes@, x.1@));
    let mut result = String::new();
    let mut i: usize = 0;
    assert(rv.take(0) =~= Seq::<(Seq<u8>, Seq<char>)>::empty());
    while i < refs.len()
        invariant
            i <= refs@.len(),
            rv == refs@.map_values(|x: (Oid, String)| (x.0.bytes@, x.1@)),
            result@ == refs_text(rv.take(i as int)),
        decreases refs@.len() - i,
    {
        let line = format_ref(&refs[i].0, refs[i].1.as_str());
        result.append(line.as_str());
        result.append("\n");
        assert(rv.take(i + 1).drop_last() =~= rv.take(i as int));
        assert(rv.take(i + 1).last() == rv[i as int]);
        i = i + 1;
    }
    assert(rv.take(i as int) =~= rv);
    result
}

} // verus!
