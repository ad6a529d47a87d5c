//! Concatenation of a fixed number of texts.

use vstd::prelude::*;
use vstd::string::*;

verus! {

pub fn cat2(a: &str, b: &str) -> (text: String)
    ensures
        text@ == a@ + b@,
{
    let mut text: String = a.to_owned();
    text.append(b);
    text
}

pub fn cat3(a: &str, b: &str, c: &str) -> (text: String)
    ensures
        text@ == a@ + b@ + c@,
{
    let mut text: String = cat2(a, b);
    text.append(c);
    text
}

pub fn cat4(a: &str, b: &str, c: &str, d: &str) -> (text: String)
    ensures
        text@ == a@ + b@ + c@ + d@,
{
    let mut text: String = cat3(a, b, c);
    text.append(d);
    text
}

pub fn cat5(a: &str, b: &str, c: &str, d: &str, e: &str) -> (text: String)
    ensures
        text@ == a@ + b@ + c@ + d@ + e@,
{
    let mut text: String = cat4(a, b, c, d);
    text.append(e);
    text
}

pub fn cat6(a: &str, b: &str, c: &str, d: &str, e: &str, f: &str) -> (text: String)
    ensures
        text@ == a@ + b@ + c@ + d@ + e@ + f@,
{
    let mut text: String = cat5(a, b, c, d, e);
    text.append(f);
    text
}

pub fn cat7(a: &str, b: &str, c: &str, d: &str, e: &str, f: &str, g: &str) -> (text: String)
    ensures
        text@ == a@ + b@ + c@ + d@ + e@ + f@ + g@,
{
    let mut text: String = cat6(a, b, c, d, e, f);
    text.append(g);
    text
}

/// A copy of an optional text.
pub fn copy_option(text: &Option<String>) -> (copy: Option<String>)
    ensures
        copy == *text,
{
    match text {
        Some(value) => Some(value.clone()),
        None => None,
    }
}

/// The characters of each text of a list.
pub open spec fn views(texts: Seq<String>) -> Seq<Seq<char>> {
    Seq::new(texts.len(), |i: int| texts[i]@)
}

/// The characters of an optional text.
pub open spec fn option_view(text: Option<String>) -> Option<Seq<char>> {
    match text {
        Some(value) => Some(value@),
        None => None,
    }
}

/// A list of texts joined with a separator between neighbours.
pub open spec fn joined(texts: Seq<Seq<char>>, separator: Seq<char>) -> Seq<char>
    decreases texts.len(),
{
    if texts.len() == 0 {
        Seq::empty()
    } else if texts.len() == 1 {
        texts[0]
    } else {
        joined(texts.drop_last(), separator) + separator + texts.last()
    }
}

/// Joins a list of texts.
pub fn join(texts: &Vec<String>, separator: &str) -> (text: String)
    ensures
        text@ == joined(views(texts@), separator@),
{
    let mut text: String = String::new();
    let mut at: usize = 0;
    assert(views(texts@).take(0) == Seq::<Seq<char>>::empty());
    while at < texts.len()
        invariant
            at <= texts@.len(),
            text@ == joined(views(texts@).take(at as int), separator@),
        decreases texts@.len() - at,
    {
        if at > 0 {
            text.append(separator);
        }
        text.append(texts[at].as_str());
        proof {
            let next = views(texts@).take(at + 1);
            assert(next.drop_last() =~= views(texts@).take(at as int));
            assert(next.last() == texts@[at as int]@);
            if at == 0 {
                assert(next[0] == texts@[0]@);
                assert(text@ =~= texts@[0]@);
            }
        }
        at += 1;
    }
    assert(views(texts@).take(at as int) =~= views(texts@));
    text
}

/// Joins the first `count` texts of a list.
pub fn join_first(texts: &Vec<String>, count: usize, separator: &str) -> (text: String)
    requires
        count <= texts@.len(),
    ensures
        text@ == joined(views(texts@).take(count as int), separator@),
{
    let mut head: Vec<String> = Vec::new();
    let mut at: usize = 0;
    while at < count
        invariant
            at <= count <= texts@.len(),
            head@ == texts@.take(at as int),
        decreases count - at,
    {
        head.push(texts[at].clone());
        at += 1;
    }
    assert(views(head@) =~= views(texts@).take(count as int));
    join(&head, separator)
}

/// Joining puts the separator once between neighbours and nowhere else: the
/// first text, a separator, and the rest joined.
pub proof fn joined_from_the_front(first: Seq<char>, rest: Seq<Seq<char>>, separator: Seq<char>)
    ensures
        joined(Seq::empty(), separator) == Seq::<char>::empty(),
        joined(seq![first], separator) == first,
        rest.len() > 0 ==> joined(seq![first] + rest, separator) == first + separator + joined(
            rest,
            separator,
        ),
    decreases rest.len(),
{
    if rest.len() == 1 {
        let all = seq![first] + rest;
        assert(all.drop_last() =~= seq![first]);
        assert(all.last() == rest[0]);
    } else if rest.len() > 1 {
        joined_from_the_front(first, rest.drop_last(), separator);
        let all = seq![first] + rest;
        assert(all.drop_last() =~= seq![first] + rest.drop_last());
        assert(all.last() == rest.last());
        assert(joined(all, separator) =~= first + separator + joined(rest, separator));
    }
}

/// Every text of a list is seen, in its place.
pub proof fn views_show_every_text(texts: Seq<String>, at: int)
    requires
        0 <= at < texts.len(),
    ensures
        views(texts).len() == texts.len(),
        views(texts)[at] == texts[at]@,
        option_view(Some(texts[at])) == Some(texts[at]@),
        option_view(None) is None,
{
}

} // verus!
