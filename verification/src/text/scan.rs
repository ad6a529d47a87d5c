//! Trimming, stripping, splitting and replacing.

use vstd::prelude::*;
use vstd::string::*;

use super::chars::{is_whitespace, to_chars, whitespace};
use super::concat::{joined, views};

verus! {

pub open spec fn trimmed_start(text: Seq<char>) -> Seq<char>
    decreases text.len(),
{
    if text.len() > 0 && is_whitespace(text[0]) {
        trimmed_start(text.drop_first())
    } else {
        text
    }
}

pub open spec fn trimmed_end(text: Seq<char>) -> Seq<char>
    decreases text.len(),
{
    if text.len() > 0 && is_whitespace(text.last()) {
        trimmed_end(text.drop_last())
    } else {
        text
    }
}

/// The text without leading and trailing whitespace.
pub open spec fn trimmed(text: Seq<char>) -> Seq<char> {
    trimmed_end(trimmed_start(text))
}

/// A text that neither starts nor ends with whitespace is its own trimmed form.
pub proof fn trimmed_is_same(text: Seq<char>)
    requires
        text.len() > 0 ==> !is_whitespace(text[0]) && !is_whitespace(text.last()),
    ensures
        trimmed(text) == text,
{
}

/// Removes leading and trailing whitespace.
pub fn trim(text: &str) -> (rest: &str)
    ensures
        rest@ == trimmed(text@),
{
    let chars: Vec<char> = to_chars(text);
    let mut from: usize = 0;
    assert(text@.skip(0) == text@);
    while from < chars.len() && whitespace(chars[from])
        invariant
            from <= chars@.len(),
            chars@ == text@,
            trimmed_start(text@) == trimmed_start(text@.skip(from as int)),
        decreases chars@.len() - from,
    {
        assert(text@.skip(from as int).drop_first() == text@.skip(from + 1));
        from += 1;
    }
    assert(trimmed_start(text@) == text@.skip(from as int));
    let mut to: usize = chars.len();
    assert(text@.skip(from as int) == text@.subrange(from as int, to as int));
    while from < to && whitespace(chars[to - 1])
        invariant
            from <= to <= chars@.len(),
            chars@ == text@,
            trimmed(text@) == trimmed_end(text@.subrange(from as int, to as int)),
        decreases to - from,
    {
        assert(text@.subrange(from as int, to as int).drop_last()
            == text@.subrange(from as int, to - 1));
        to -= 1;
    }
    text.substring_char(from, to)
}

/// Removes trailing whitespace.
pub fn trim_end(text: &str) -> (rest: &str)
    ensures
        rest@ == trimmed_end(text@),
{
    let chars: Vec<char> = to_chars(text);
    let mut to: usize = chars.len();
    assert(text@.take(to as int) == text@);
    while 0 < to && whitespace(chars[to - 1])
        invariant
            to <= chars@.len(),
            chars@ == text@,
            trimmed_end(text@) == trimmed_end(text@.take(to as int)),
        decreases to,
    {
        assert(text@.take(to as int).drop_last() == text@.take(to - 1));
        to -= 1;
    }
    text.substring_char(0, to)
}

/// The text behind a prefix, if the text starts with it.
pub open spec fn without_prefix(text: Seq<char>, prefix: Seq<char>) -> Option<Seq<char>> {
    if prefix.is_prefix_of(text) {
        Some(text.skip(prefix.len() as int))
    } else {
        None
    }
}

/// The text before a suffix, if the text ends with it.
pub open spec fn without_suffix(text: Seq<char>, suffix: Seq<char>) -> Option<Seq<char>> {
    if suffix.is_suffix_of(text) {
        Some(text.take(text.len() - suffix.len()))
    } else {
        None
    }
}

/// The characters of an optional borrowed text.
pub open spec fn str_view(text: Option<&str>) -> Option<Seq<char>> {
    match text {
        Some(value) => Some(value@),
        None => None,
    }
}

/// The text behind `prefix`, if the text starts with it.
pub fn strip_prefix<'a>(text: &'a str, prefix: &str) -> (rest: Option<&'a str>)
    ensures
        match rest {
            Some(tail) => text@ == prefix@ + tail@,
            None => !prefix@.is_prefix_of(text@),
        },
        str_view(rest) == without_prefix(text@, prefix@),
{
    let chars: Vec<char> = to_chars(text);
    let wanted: Vec<char> = to_chars(prefix);
    if wanted.len() > chars.len() {
        return None;
    }
    let mut at: usize = 0;
    while at < wanted.len()
        invariant
            at <= wanted@.len() <= chars@.len(),
            chars@ == text@,
            wanted@ == prefix@,
            forall|i: int| 0 <= i < at ==> chars@[i] == wanted@[i],
        decreases wanted@.len() - at,
    {
        if chars[at] != wanted[at] {
            assert(prefix@[at as int] != text@[at as int]);
            return None;
        }
        at += 1;
    }
    let tail: &'a str = text.substring_char(at, chars.len());
    assert(text@ =~= prefix@ + tail@);
    assert(prefix@ =~= text@.subrange(0, prefix@.len() as int));
    assert(tail@ =~= text@.skip(prefix@.len() as int));
    Some(tail)
}

/// The text before `suffix`, if the text ends with it.
pub fn strip_suffix<'a>(text: &'a str, suffix: &str) -> (rest: Option<&'a str>)
    ensures
        match rest {
            Some(head) => text@ == head@ + suffix@,
            None => !suffix@.is_suffix_of(text@),
        },
        str_view(rest) == without_suffix(text@, suffix@),
{
    let chars: Vec<char> = to_chars(text);
    let wanted: Vec<char> = to_chars(suffix);
    if wanted.len() > chars.len() {
        return None;
    }
    let start: usize = chars.len() - wanted.len();
    let mut at: usize = 0;
    while at < wanted.len()
        invariant
            at <= wanted.len(),
            start + wanted.len() == chars.len(),
            chars@ == text@,
            wanted@ == suffix@,
            forall|i: int| 0 <= i < at ==> chars@[start + i] == wanted@[i],
        decreases wanted@.len() - at,
    {
        if chars[start + at] != wanted[at] {
            assert(text@.subrange(start as int, text@.len() as int)[at as int]
                != suffix@[at as int]);
            return None;
        }
        at += 1;
    }
    let head: &'a str = text.substring_char(0, start);
    assert(text@ =~= head@ + suffix@);
    assert(suffix@ =~= text@.subrange(start as int, text@.len() as int));
    assert(head@ =~= text@.take(text@.len() - suffix@.len()));
    Some(head)
}

pub fn starts_with(text: &str, prefix: &str) -> (found: bool)
    ensures
        found == prefix@.is_prefix_of(text@),
{
    match strip_prefix(text, prefix) {
        Some(tail) => {
            assert((prefix@ + tail@).take(prefix@.len() as int) =~= prefix@);
            true
        },
        None => false,
    }
}

pub fn ends_with(text: &str, suffix: &str) -> (found: bool)
    ensures
        found == suffix@.is_suffix_of(text@),
{
    match strip_suffix(text, suffix) {
        Some(head) => {
            assert((head@ + suffix@).subrange(
                (text@.len() - suffix@.len()) as int,
                text@.len() as int,
            ) =~= suffix@);
            true
        },
        None => false,
    }
}

/// Position of the first occurrence of a character.
pub fn find_char(chars: &Vec<char>, wanted: char) -> (position: Option<usize>)
    ensures
        match position {
            Some(at) => {
                &&& at < chars@.len()
                &&& chars@[at as int] == wanted
                &&& !chars@.take(at as int).contains(wanted)
            },
            None => !chars@.contains(wanted),
        },
{
    let mut at: usize = 0;
    while at < chars.len()
        invariant
            at <= chars@.len(),
            forall|i: int| 0 <= i < at ==> chars@[i] != wanted,
        decreases chars@.len() - at,
    {
        if chars[at] == wanted {
            return Some(at);
        }
        at += 1;
    }
    None
}

pub fn contains_char(text: &str, wanted: char) -> (found: bool)
    ensures
        found == text@.contains(wanted),
{
    let chars: Vec<char> = to_chars(text);
    find_char(&chars, wanted).is_some()
}

/// Position of the first occurrence of a character, or the length.
pub open spec fn first_at(text: Seq<char>, wanted: char) -> nat
    decreases text.len(),
{
    if text.len() == 0 || text[0] == wanted {
        0
    } else {
        1 + first_at(text.drop_first(), wanted)
    }
}

/// The parts before and behind the first occurrence of a character.
pub open spec fn cut(text: Seq<char>, separator: char) -> Option<(Seq<char>, Seq<char>)> {
    let at = first_at(text, separator) as int;
    if at < text.len() {
        Some((text.take(at), text.skip(at + 1)))
    } else {
        None
    }
}

/// The first occurrence is where the character stands with none before it.
pub proof fn first_at_is(text: Seq<char>, wanted: char, at: int)
    requires
        0 <= at <= text.len(),
        !text.take(at).contains(wanted),
        at < text.len() ==> text[at] == wanted,
    ensures
        first_at(text, wanted) == at,
    decreases text.len(),
{
    if at > 0 {
        assert(text.take(at)[0] == text[0]);
        let rest = text.drop_first();
        assert forall|i: int| 0 <= i < at - 1 implies #[trigger] rest.take(at - 1)[i] != wanted by {
            assert(text.take(at)[i + 1] == rest.take(at - 1)[i]);
        }
        first_at_is(rest, wanted, at - 1);
    }
}

/// Splits at the first occurrence of a character.
pub fn split_once<'a>(text: &'a str, separator: char) -> (parts: Option<(&'a str, &'a str)>)
    ensures
        match parts {
            Some((head, tail)) => {
                &&& text@ == head@ + seq![separator] + tail@
                &&& !head@.contains(separator)
            },
            None => !text@.contains(separator),
        },
        match parts {
            Some((head, tail)) => cut(text@, separator) == Some((head@, tail@)),
            None => cut(text@, separator) is None,
        },
{
    let chars: Vec<char> = to_chars(text);
    let total: usize = chars.len();
    match find_char(&chars, separator) {
        Some(at) => {
            let head: &'a str = text.substring_char(0, at);
            let tail: &'a str = text.substring_char(at + 1, total);
            assert(text@ =~= head@ + seq![separator] + tail@);
            proof {
                first_at_is(text@, separator, at as int);
            }
            assert(head@ =~= text@.take(at as int));
            assert(tail@ =~= text@.skip(at + 1));
            Some((head, tail))
        },
        None => {
            proof {
                assert(text@.take(text@.len() as int) =~= text@);
                first_at_is(text@, separator, text@.len() as int);
            }
            None
        },
    }
}

/// The pieces between the occurrences of a separator; one piece more than
/// there are separators.
pub open spec fn split_parts(text: Seq<char>, separator: char) -> Seq<Seq<char>>
    decreases text.len(),
{
    if text.len() == 0 {
        seq![Seq::empty()]
    } else {
        let before = split_parts(text.drop_last(), separator);
        if text.last() == separator {
            before.push(Seq::empty())
        } else {
            before.update(before.len() - 1, before.last().push(text.last()))
        }
    }
}

pub proof fn split_parts_nonempty(text: Seq<char>, separator: char)
    ensures
        split_parts(text, separator).len() >= 1,
    decreases text.len(),
{
    if text.len() > 0 {
        split_parts_nonempty(text.drop_last(), separator);
    }
}

proof fn joined_update_last(parts: Seq<Seq<char>>, separator: Seq<char>, more: Seq<char>)
    requires
        parts.len() >= 1,
    ensures
        joined(parts.update(parts.len() - 1, parts.last() + more), separator)
            == joined(parts, separator) + more,
{
    let changed = parts.update(parts.len() - 1, parts.last() + more);
    assert(changed.drop_last() =~= parts.drop_last());
    assert(changed.last() == parts.last() + more);
    if parts.len() > 1 {
        assert(joined(parts.drop_last(), separator) + separator + (parts.last() + more)
            =~= joined(parts.drop_last(), separator) + separator + parts.last() + more);
    }
}

/// Splitting a text and joining the pieces gives the text back.
pub proof fn split_then_join(text: Seq<char>, separator: char)
    ensures
        joined(split_parts(text, separator), seq![separator]) == text,
    decreases text.len(),
{
    if text.len() == 0 {
        assert(joined(seq![Seq::<char>::empty()], seq![separator]) =~= text);
    } else {
        let before = split_parts(text.drop_last(), separator);
        split_then_join(text.drop_last(), separator);
        split_parts_nonempty(text.drop_last(), separator);
        if text.last() == separator {
            let after = before.push(Seq::<char>::empty());
            assert(after.drop_last() =~= before);
            assert(joined(after, seq![separator]) =~= text.drop_last() + seq![separator]);
            assert(text =~= text.drop_last().push(text.last()));
        } else {
            joined_update_last(before, seq![separator], seq![text.last()]);
            assert(before.last().push(text.last()) =~= before.last() + seq![text.last()]);
            assert(text =~= text.drop_last() + seq![text.last()]);
        }
    }
}

/// No piece of a split text holds the separator.
pub proof fn split_parts_free(text: Seq<char>, separator: char)
    ensures
        forall|i: int|
            0 <= i < split_parts(text, separator).len() ==> !(
            #[trigger] split_parts(text, separator)[i]).contains(separator),
    decreases text.len(),
{
    if text.len() > 0 {
        split_parts_free(text.drop_last(), separator);
        split_parts_nonempty(text.drop_last(), separator);
        let before = split_parts(text.drop_last(), separator);
        let after = split_parts(text, separator);
        assert forall|i: int| 0 <= i < after.len() implies !(#[trigger] after[i]).contains(
            separator,
        ) by {
            if i < before.len() {
                assert(!before[i].contains(separator));
                if text.last() != separator && i == before.len() - 1 {
                    assert(after[i] == before[i].push(text.last()));
                    if after[i].contains(separator) {
                        let k = choose|k: int| 0 <= k < after[i].len() && after[i][k] == separator;
                        if k < before[i].len() {
                            assert(before[i][k] == separator);
                        }
                    }
                }
            }
        }
    }
}

/// Splits a text at every occurrence of a separator.
pub fn split(text: &str, separator: char) -> (parts: Vec<String>)
    ensures
        views(parts@) == split_parts(text@, separator),
        parts@.len() >= 1,
{
    let chars: Vec<char> = to_chars(text);
    let mut parts: Vec<String> = Vec::new();
    let mut current: String = String::new();
    let mut at: usize = 0;
    assert(views(parts@).push(current@) =~= split_parts(text@.take(0), separator));
    while at < chars.len()
        invariant
            at <= chars@.len(),
            chars@ == text@,
            views(parts@).push(current@) == split_parts(text@.take(at as int), separator),
        decreases chars@.len() - at,
    {
        let ghost before = views(parts@).push(current@);
        let ghost next = text@.take(at + 1);
        assert(next.drop_last() =~= text@.take(at as int));
        assert(next.last() == text@[at as int]);
        if chars[at] == separator {
            let ghost pieces = parts@;
            parts.push(current);
            current = String::new();
            assert(views(parts@) =~= views(pieces).push(before.last()));
            assert(views(parts@).push(current@) =~= before.push(Seq::<char>::empty()));
        } else {
            let ghost piece = current@;
            current.push(chars[at]);
            assert(views(parts@).push(current@) =~= before.update(
                before.len() - 1,
                before.last().push(text@[at as int]),
            ));
        }
        at += 1;
    }
    let ghost pieces = parts@;
    let ghost last = current@;
    parts.push(current);
    assert(views(parts@) =~= views(pieces).push(last));
    assert(text@.take(at as int) =~= text@);
    parts
}

/// The text with every occurrence of one character replaced by a text.
pub open spec fn replaced(text: Seq<char>, wanted: char, by: Seq<char>) -> Seq<char>
    decreases text.len(),
{
    if text.len() == 0 {
        Seq::empty()
    } else if text.last() == wanted {
        replaced(text.drop_last(), wanted, by) + by
    } else {
        replaced(text.drop_last(), wanted, by).push(text.last())
    }
}

/// Replaces every occurrence of a character.
pub fn replace(text: &str, wanted: char, by: &str) -> (result: String)
    ensures
        result@ == replaced(text@, wanted, by@),
{
    let chars: Vec<char> = to_chars(text);
    let mut result: String = String::new();
    let mut at: usize = 0;
    while at < chars.len()
        invariant
            at <= chars@.len(),
            chars@ == text@,
            result@ == replaced(text@.take(at as int), wanted, by@),
        decreases chars@.len() - at,
    {
        assert(text@.take(at + 1).drop_last() =~= text@.take(at as int));
        if chars[at] == wanted {
            result.append(by);
        } else {
            result.push(chars[at]);
        }
        at += 1;
    }
    assert(text@.take(at as int) =~= text@);
    result
}

/// The maximal runs of non-whitespace characters: finished words and the one
/// being read.
pub open spec fn words_state(text: Seq<char>) -> (Seq<Seq<char>>, Seq<char>)
    decreases text.len(),
{
    if text.len() == 0 {
        (Seq::empty(), Seq::empty())
    } else {
        let (done, current) = words_state(text.drop_last());
        if is_whitespace(text.last()) {
            if current.len() == 0 {
                (done, current)
            } else {
                (done.push(current), Seq::empty())
            }
        } else {
            (done, current.push(text.last()))
        }
    }
}

/// The words of a text: its maximal runs of non-whitespace characters.
pub open spec fn words(text: Seq<char>) -> Seq<Seq<char>> {
    let (done, current) = words_state(text);
    if current.len() == 0 {
        done
    } else {
        done.push(current)
    }
}

/// Splits a text into its words.
pub fn split_words(text: &str) -> (result: Vec<String>)
    ensures
        views(result@) == words(text@),
{
    let chars: Vec<char> = to_chars(text);
    let mut result: Vec<String> = Vec::new();
    let mut current: String = String::new();
    let mut count: usize = 0;
    let mut at: usize = 0;
    assert(views(result@) =~= Seq::<Seq<char>>::empty());
    while at < chars.len()
        invariant
            at <= chars@.len(),
            chars@ == text@,
            count == current@.len(),
            count <= at,
            words_state(text@.take(at as int)) == (views(result@), current@),
        decreases chars@.len() - at,
    {
        assert(text@.take(at + 1).drop_last() =~= text@.take(at as int));
        if whitespace(chars[at]) {
            if count > 0 {
                let ghost before = result@;
                let ghost word = current@;
                result.push(current);
                current = String::new();
                count = 0;
                assert(views(result@) =~= views(before).push(word));
                assert(current@ =~= Seq::<char>::empty());
            }
        } else {
            current.push(chars[at]);
            count += 1;
        }
        at += 1;
    }
    assert(text@.take(at as int) =~= text@);
    if count > 0 {
        let ghost before = result@;
        let ghost word = current@;
        result.push(current);
        assert(views(result@) =~= views(before).push(word));
    }
    result
}

proof fn trimmed_start_cuts(text: Seq<char>) -> (from: int)
    ensures
        0 <= from <= text.len(),
        trimmed_start(text) == text.skip(from),
        forall|i: int| 0 <= i < from ==> is_whitespace(#[trigger] text[i]),
        from < text.len() ==> !is_whitespace(text[from]),
    decreases text.len(),
{
    if text.len() > 0 && is_whitespace(text[0]) {
        let rest = text.drop_first();
        let deeper = trimmed_start_cuts(rest);
        assert(rest.skip(deeper) =~= text.skip(deeper + 1));
        assert forall|i: int| 0 <= i < deeper + 1 implies is_whitespace(#[trigger] text[i]) by {
            if i > 0 {
                assert(rest[i - 1] == text[i]);
            }
        }
        deeper + 1
    } else {
        assert(text.skip(0) =~= text);
        0
    }
}

proof fn trimmed_end_cuts(text: Seq<char>) -> (to: int)
    ensures
        0 <= to <= text.len(),
        trimmed_end(text) == text.take(to),
        forall|i: int| to <= i < text.len() ==> is_whitespace(#[trigger] text[i]),
        to > 0 ==> !is_whitespace(text[to - 1]),
    decreases text.len(),
{
    if text.len() > 0 && is_whitespace(text.last()) {
        let rest = text.drop_last();
        let to = trimmed_end_cuts(rest);
        assert(rest.take(to) =~= text.take(to));
        assert forall|i: int| to <= i < text.len() implies is_whitespace(#[trigger] text[i]) by {
            if i < rest.len() {
                assert(rest[i] == text[i]);
            }
        }
        to
    } else {
        assert(text.take(text.len() as int) =~= text);
        text.len() as int
    }
}

/// Trimming the end takes away whitespace only, and all of it.
pub proof fn trimming_the_end_is_exact(text: Seq<char>)
    ensures
        exists|tail: Seq<char>|
            text == #[trigger] (trimmed_end(text) + tail) && forall|i: int|
                0 <= i < tail.len() ==> is_whitespace(#[trigger] tail[i]),
        trimmed_end(text).len() > 0 ==> !is_whitespace(trimmed_end(text).last()),
{
    let to = trimmed_end_cuts(text);
    let tail = text.skip(to);
    assert(text =~= trimmed_end(text) + tail);
}

/// Trimming takes away whitespace only, and all of it at both ends.
pub proof fn trimming_is_exact(text: Seq<char>)
    ensures
        exists|head: Seq<char>, tail: Seq<char>|
            text == #[trigger] (head + trimmed(text) + tail) && (forall|i: int|
                0 <= i < head.len() ==> is_whitespace(#[trigger] head[i])) && forall|i: int|
                0 <= i < tail.len() ==> is_whitespace(#[trigger] tail[i]),
        trimmed(text).len() > 0 ==> !is_whitespace(trimmed(text)[0]) && !is_whitespace(
            trimmed(text).last(),
        ),
{
    let from = trimmed_start_cuts(text);
    let middle = trimmed_start(text);
    let to = trimmed_end_cuts(middle);
    let head = text.take(from);
    let tail = middle.skip(to);
    assert(text =~= head + trimmed(text) + tail);
    if to > 0 {
        assert(trimmed(text)[0] == middle[0]);
        assert(trimmed(text).last() == middle[to - 1]);
    }
}

/// A prefix is taken off exactly if the text is the prefix and the rest.
pub proof fn prefix_and_rest(text: Seq<char>, prefix: Seq<char>, rest: Seq<char>)
    ensures
        without_prefix(text, prefix) == Some(rest) <==> text == prefix + rest,
{
    if text == prefix + rest {
        assert(prefix =~= text.subrange(0, prefix.len() as int));
        assert(text.skip(prefix.len() as int) =~= rest);
    }
    if without_prefix(text, prefix) == Some(rest) {
        assert(prefix =~= text.subrange(0, prefix.len() as int));
        assert(text =~= prefix + rest);
    }
}

/// A suffix is taken off exactly if the text is the rest and the suffix.
pub proof fn rest_and_suffix(text: Seq<char>, suffix: Seq<char>, rest: Seq<char>)
    ensures
        without_suffix(text, suffix) == Some(rest) <==> text == rest + suffix,
{
    if text == rest + suffix {
        assert(suffix =~= text.subrange(text.len() - suffix.len(), text.len() as int));
        assert(text.take(text.len() - suffix.len()) =~= rest);
    }
    if without_suffix(text, suffix) == Some(rest) {
        assert(suffix =~= text.subrange(text.len() - suffix.len(), text.len() as int));
        assert(text =~= rest + suffix);
    }
}

proof fn first_at_splits(text: Seq<char>, wanted: char)
    ensures
        first_at(text, wanted) <= text.len(),
        !text.take(first_at(text, wanted) as int).contains(wanted),
        first_at(text, wanted) < text.len() ==> text[first_at(text, wanted) as int] == wanted,
    decreases text.len(),
{
    if text.len() > 0 && text[0] != wanted {
        first_at_splits(text.drop_first(), wanted);
        let at = first_at(text, wanted) as int;
        let head = text.take(at);
        if head.contains(wanted) {
            let i = choose|i: int| 0 <= i < head.len() && head[i] == wanted;
            assert(text.drop_first().take(at - 1)[i - 1] == wanted);
        }
    }
}

/// A text is cut at its first separator: the head has none, and head,
/// separator and tail are the text. Without a separator there is no cut.
pub proof fn cut_at_the_first(text: Seq<char>, separator: char, head: Seq<char>, tail: Seq<char>)
    ensures
        cut(text, separator) == Some((head, tail)) <==> text == head + seq![separator] + tail
            && !head.contains(separator),
        cut(text, separator) is None <==> !text.contains(separator),
{
    first_at_splits(text, separator);
    let at = first_at(text, separator) as int;
    if at < text.len() {
        assert(text =~= text.take(at) + seq![separator] + text.skip(at + 1));
        assert(text[at] == separator);
    } else {
        assert(text.take(at) =~= text);
    }
    if text == head + seq![separator] + tail && !head.contains(separator) {
        assert(text.take(head.len() as int) =~= head);
        assert(text[head.len() as int] == separator);
        first_at_is(text, separator, head.len() as int);
        assert(text.skip(head.len() as int + 1) =~= tail);
    }
}

/// Splitting undoes joining: pieces without the separator come back one by
/// one.
pub proof fn join_then_split(parts: Seq<Seq<char>>, separator: char)
    requires
        parts.len() > 0,
        forall|i: int| 0 <= i < parts.len() ==> !(#[trigger] parts[i]).contains(separator),
    ensures
        split_parts(joined(parts, seq![separator]), separator) == parts,
    decreases parts.len(), parts.last().len(),
{
    let last = parts.last();
    let text = joined(parts, seq![separator]);
    if last.len() == 0 {
        if parts.len() == 1 {
            assert(text =~= Seq::<char>::empty());
            assert(parts =~= seq![Seq::<char>::empty()]);
        } else {
            let earlier = parts.drop_last();
            join_then_split(earlier, separator);
            assert(text =~= joined(earlier, seq![separator]).push(separator));
            assert(text.drop_last() =~= joined(earlier, seq![separator]));
            assert(last =~= Seq::<char>::empty());
            assert(parts =~= earlier.push(Seq::<char>::empty()));
        }
    } else {
        let shorter = parts.update(parts.len() - 1, last.drop_last());
        assert forall|i: int| 0 <= i < shorter.len() implies !(#[trigger] shorter[i]).contains(
            separator,
        ) by {
            if i == parts.len() - 1 {
                if shorter[i].contains(separator) {
                    let k = choose|k: int| 0 <= k < shorter[i].len() && shorter[i][k] == separator;
                    assert(parts[i][k] == separator);
                    assert(parts[i].contains(separator));
                }
            } else {
                assert(!parts[i].contains(separator));
            }
        }
        join_then_split(shorter, separator);
        joined_update_last(shorter, seq![separator], seq![last.last()]);
        assert(shorter.last() + seq![last.last()] =~= last);
        assert(shorter.update(shorter.len() - 1, shorter.last() + seq![last.last()]) =~= parts);
        assert(text =~= joined(shorter, seq![separator]).push(last.last()));
        assert(text.drop_last() =~= joined(shorter, seq![separator]));
        assert(last[last.len() - 1] == last.last());
        assert(parts[parts.len() - 1].contains(last.last()));
        assert(last.last() != separator);
        assert(shorter.last().push(last.last()) =~= last);
        assert(shorter.update(shorter.len() - 1, shorter.last().push(last.last())) =~= parts);
    }
}

/// Replacing goes character by character: each wanted one becomes `by`, every
/// other one stays.
pub proof fn replacing_is_pointwise(left: Seq<char>, right: Seq<char>, ch: char, wanted: char, by: Seq<char>)
    ensures
        replaced(Seq::empty(), wanted, by) == Seq::<char>::empty(),
        replaced(seq![wanted], wanted, by) == by,
        ch != wanted ==> replaced(seq![ch], wanted, by) == seq![ch],
        replaced(left + right, wanted, by) == replaced(left, wanted, by) + replaced(
            right,
            wanted,
            by,
        ),
    decreases right.len(),
{
    assert(seq![wanted].drop_last() =~= Seq::<char>::empty());
    assert(seq![ch].drop_last() =~= Seq::<char>::empty());
    reveal_with_fuel(replaced, 2);
    assert(replaced(seq![wanted], wanted, by) =~= by);
    if ch != wanted {
        assert(replaced(seq![ch], wanted, by) =~= seq![ch]);
    }
    if right.len() == 0 {
        assert(left + right =~= left);
        assert(replaced(left, wanted, by) + replaced(right, wanted, by) =~= replaced(
            left,
            wanted,
            by,
        ));
    } else {
        replacing_is_pointwise(left, right.drop_last(), ch, wanted, by);
        assert((left + right).drop_last() =~= left + right.drop_last());
        assert((left + right).last() == right.last());
        assert(replaced(left + right, wanted, by) =~= replaced(left, wanted, by) + replaced(
            right,
            wanted,
            by,
        ));
    }
}

/// A text without a character stays as it is when that one is replaced, and
/// replacing by another character keeps every place.
pub proof fn replacing_keeps_places(text: Seq<char>, wanted: char, by: char)
    ensures
        replaced(text, wanted, seq![by]).len() == text.len(),
        forall|i: int|
            0 <= i < text.len() ==> #[trigger] replaced(text, wanted, seq![by])[i] == (if text[i]
                == wanted {
                by
            } else {
                text[i]
            }),
    decreases text.len(),
{
    if text.len() > 0 {
        replacing_keeps_places(text.drop_last(), wanted, by);
    }
}

proof fn words_state_of_word(text: Seq<char>, word: Seq<char>)
    requires
        forall|i: int| 0 <= i < word.len() ==> !is_whitespace(#[trigger] word[i]),
    ensures
        words_state(text + word) == (words_state(text).0, words_state(text).1 + word),
    decreases word.len(),
{
    if word.len() == 0 {
        assert(text + word =~= text);
        assert(words_state(text).1 + word =~= words_state(text).1);
    } else {
        let shorter = word.drop_last();
        assert forall|i: int| 0 <= i < shorter.len() implies !is_whitespace(
            #[trigger] shorter[i],
        ) by {
            assert(word[i] == shorter[i]);
        }
        words_state_of_word(text, shorter);
        assert((text + word).drop_last() =~= text + shorter);
        assert(word[word.len() - 1] == word.last());
        assert((text + word).last() == word.last());
        assert((words_state(text).1 + shorter).push(word.last()) =~= words_state(text).1 + word);
    }
}

proof fn words_state_splits(left: Seq<char>, blank: char, right: Seq<char>)
    requires
        is_whitespace(blank),
    ensures
        words_state(left + seq![blank] + right) == (
            words(left) + words_state(right).0,
            words_state(right).1,
        ),
    decreases right.len(),
{
    let all = left + seq![blank] + right;
    if right.len() == 0 {
        assert(all.drop_last() =~= left);
        assert(all.last() == blank);
        assert(words(left) + words_state(right).0 =~= words(left));
        assert(words_state(all).1 =~= Seq::<char>::empty());
    } else {
        words_state_splits(left, blank, right.drop_last());
        assert(all.drop_last() =~= left + seq![blank] + right.drop_last());
        assert(all.last() == right.last());
        let (done, current) = words_state(right.drop_last());
        assert((words(left) + done).push(current) =~= words(left) + done.push(current));
    }
}

/// A text without whitespace is one word, an empty one none, and any
/// whitespace parts the words before it from those behind it.
pub proof fn words_are_runs(left: Seq<char>, blank: char, right: Seq<char>)
    requires
        is_whitespace(blank),
    ensures
        words(Seq::empty()) == Seq::<Seq<char>>::empty(),
        words(left + seq![blank] + right) == words(left) + words(right),
        left.len() > 0 && (forall|i: int|
            0 <= i < left.len() ==> !is_whitespace(#[trigger] left[i])) ==> words(left)
            == seq![left],
{
    words_state_splits(left, blank, right);
    let (done, current) = words_state(right);
    if current.len() > 0 {
        assert((words(left) + done).push(current) =~= words(left) + done.push(current));
    }
    if left.len() > 0 && (forall|i: int|
        0 <= i < left.len() ==> !is_whitespace(#[trigger] left[i])) {
        let none = Seq::<char>::empty();
        words_state_of_word(none, left);
        assert(none + left =~= left);
        assert(words_state(none).1 + left =~= left);
        assert(words(left) =~= seq![left]);
    }
}

} // verus!
