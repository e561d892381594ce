//! The lists of a job document: operator objects, target names and action objects,
//! read and edited element by element.
use vstd::prelude::*;

use crate::json::{self, member, object_insert, JsonValue};
use crate::sorting::views;
use crate::text;

verus! {

/// `v` is an object whose `name` member is the text `name`.
pub open spec fn names_target(v: JsonValue, name: Seq<char>) -> bool {
    v.field("name"@) matches Some(f) && f.text() == Some(name)
}

/// The `name` texts of the objects among `items`, in order.
pub open spec fn listed_names(items: Seq<JsonValue>) -> Seq<Seq<char>>
    decreases items.len(),
{
    if items.len() == 0 {
        Seq::empty()
    } else {
        let rest = listed_names(items.drop_last());
        match items.last().field("name"@) {
            Some(f) => match f.text() {
                Some(t) => rest.push(t),
                None => rest,
            },
            None => rest,
        }
    }
}

/// The string elements of `items`, in order.
pub open spec fn listed_texts(items: Seq<JsonValue>) -> Seq<Seq<char>>
    decreases items.len(),
{
    if items.len() == 0 {
        Seq::empty()
    } else {
        let rest = listed_texts(items.drop_last());
        match items.last().text() {
            Some(t) => rest.push(t),
            None => rest,
        }
    }
}

/// How many of `items` are objects named `name`.
pub open spec fn count_named(items: Seq<JsonValue>, name: Seq<char>) -> nat
    decreases items.len(),
{
    if items.len() == 0 {
        0
    } else {
        count_named(items.drop_last(), name) + if names_target(items.last(), name) {
            1nat
        } else {
            0nat
        }
    }
}

/// `items` without the objects named `name`.
pub open spec fn without_named(items: Seq<JsonValue>, name: Seq<char>) -> Seq<JsonValue>
    decreases items.len(),
{
    if items.len() == 0 {
        Seq::empty()
    } else {
        let rest = without_named(items.drop_last(), name);
        if names_target(items.last(), name) {
            rest
        } else {
            rest.push(items.last())
        }
    }
}

/// `items` without the strings `name`.
pub open spec fn without_text(items: Seq<JsonValue>, name: Seq<char>) -> Seq<JsonValue>
    decreases items.len(),
{
    if items.len() == 0 {
        Seq::empty()
    } else {
        let rest = without_text(items.drop_last(), name);
        if items.last().text() == Some(name) {
            rest
        } else {
            rest.push(items.last())
        }
    }
}

/// `names` followed by each of `extra` that is not already listed, in order.
pub open spec fn merged_names(names: Seq<Seq<char>>, extra: Seq<Seq<char>>) -> Seq<Seq<char>>
    decreases extra.len(),
{
    if extra.len() == 0 {
        names
    } else {
        let m = merged_names(names, extra.drop_last());
        if m.contains(extra.last()) {
            m
        } else {
            m.push(extra.last())
        }
    }
}

/// `after` is `before` with its `name` set to `new` when `before` is an object named
/// `old`; otherwise `after` is `before`.
pub open spec fn object_renamed(before: JsonValue, after: JsonValue, old: Seq<char>, new: Seq<char>) -> bool {
    if names_target(before, old) {
        &&& before matches JsonValue::Object(b) && after matches JsonValue::Object(a)
            && member(a@, "name"@) matches Some(JsonValue::Str(s)) && s@ == new && forall|
            k: Seq<char>,
        | k != "name"@ ==> #[trigger] member(a@, k) == member(b@, k)
    } else {
        after == before
    }
}

/// `after` is the string `new` when `before` is the string `old`; otherwise `after` is
/// `before`.
pub open spec fn text_renamed(before: JsonValue, after: JsonValue, old: Seq<char>, new: Seq<char>) -> bool {
    if before.text() == Some(old) {
        after matches JsonValue::Str(s) && s@ == new
    } else {
        after == before
    }
}

/// Whether an element of `items` is an object named `name`.
pub open spec fn any_named(items: Seq<JsonValue>, name: Seq<char>) -> bool {
    exists|i: int| 0 <= i < items.len() && #[trigger] names_target(items[i], name)
}

/// Whether an element of `items` is the string `name`.
pub open spec fn any_text(items: Seq<JsonValue>, name: Seq<char>) -> bool {
    exists|i: int| 0 <= i < items.len() && (#[trigger] items[i]).text() == Some(name)
}

/// Whether `v` is an object named `name`.
pub fn is_named(v: &JsonValue, name: &str) -> (b: bool)
    ensures
        b == names_target(*v, name@),
{
    match v.get("name") {
        Some(f) => match f.as_str() {
            Some(t) => text::str_eq(t, name),
            None => false,
        },
        None => false,
    }
}

/// Whether `v` is the string `name`.
pub fn is_text_value(v: &JsonValue, name: &str) -> (b: bool)
    ensures
        b == (v.text() == Some(name@)),
{
    match v.as_str() {
        Some(t) => text::str_eq(t, name),
        None => false,
    }
}

/// The `name` texts of the objects among `items`.
pub fn names_of(items: &Vec<JsonValue>) -> (r: Vec<String>)
    ensures
        views(r@) == listed_names(items@),
{
    let mut r: Vec<String> = Vec::new();
    let mut i: usize = 0;
    while i < items.len()
        invariant
            i <= items@.len(),
            views(r@) == listed_names(items@.take(i as int)),
        decreases items@.len() - i,
    {
        assert(items@.take(i + 1).drop_last() =~= items@.take(i as int));
        assert(items@.take(i + 1).last() == items@[i as int]);
        match items[i].get("name") {
            Some(f) => match f.as_str() {
                Some(t) => {
                    r.push(t.to_owned());
                    assert(views(r@) =~= listed_names(items@.take(i as int)).push(t@));
                },
                None => {},
            },
            None => {},
        }
        i = i + 1;
    }
    assert(items@.take(i as int) =~= items@);
    r
}

/// The string elements of `items`.
pub fn texts_of(items: &Vec<JsonValue>) -> (r: Vec<String>)
    ensures
        views(r@) == listed_texts(items@),
{
    let mut r: Vec<String> = Vec::new();
    let mut i: usize = 0;
    while i < items.len()
        invariant
            i <= items@.len(),
            views(r@) == listed_texts(items@.take(i as int)),
        decreases items@.len() - i,
    {
        assert(items@.take(i + 1).drop_last() =~= items@.take(i as int));
        assert(items@.take(i + 1).last() == items@[i as int]);
        match items[i].as_str() {
            Some(t) => {
                r.push(t.to_owned());
                assert(views(r@) =~= listed_texts(items@.take(i as int)).push(t@));
            },
            None => {},
        }
        i = i + 1;
    }
    assert(items@.take(i as int) =~= items@);
    r
}

/// How many of `items` are objects named `name`.
pub fn count_named_items(items: &Vec<JsonValue>, name: &str) -> (n: usize)
    ensures
        n == count_named(items@, name@),
{
    let mut n: usize = 0;
    let mut i: usize = 0;
    while i < items.len()
        invariant
            i <= items@.len(),
            n <= i,
            n == count_named(items@.take(i as int), name@),
        decreases items@.len() - i,
    {
        assert(items@.take(i + 1).drop_last() =~= items@.take(i as int));
        assert(items@.take(i + 1).last() == items@[i as int]);
        if is_named(&items[i], name) {
            n = n + 1;
        }
        i = i + 1;
    }
    assert(items@.take(i as int) =~= items@);
    n
}

/// Whether `name` is among `names`.
pub fn contains_text(names: &Vec<String>, name: &str) -> (b: bool)
    ensures
        b == views(names@).contains(name@),
{
    let mut i: usize = 0;
    while i < names.len()
        invariant
            i <= names@.len(),
            forall|j: int| 0 <= j < i ==> (#[trigger] names@[j])@ != name@,
        decreases names@.len() - i,
    {
        if text::str_eq(names[i].as_str(), name) {
            assert(views(names@)[i as int] == name@);
            return true;
        }
        i = i + 1;
    }
    assert(!views(names@).contains(name@)) by {
        if views(names@).contains(name@) {
            let j = choose|j: int| 0 <= j < views(names@).len() && views(names@)[j] == name@;
            assert(names@[j]@ == name@);
        }
    }
    false
}

/// Drops the objects named `name`.
pub fn retain_unnamed(items: &mut Vec<JsonValue>, name: &str)
    ensures
        final(items)@ == without_named(old(items)@, name@),
{
    let ghost orig = items@;
    let mut out: Vec<JsonValue> = Vec::new();
    let ghost mut t: int = 0;
    while items.len() > 0
        invariant
            0 <= t <= orig.len(),
            items@ == orig.skip(t),
            out@ == without_named(orig.take(t), name@),
        decreases items@.len(),
    {
        let e = items.remove(0);
        proof {
            assert(items@ =~= orig.skip(t + 1));
            assert(orig.take(t + 1).drop_last() =~= orig.take(t));
            assert(orig.take(t + 1).last() == e);
        }
        if !is_named(&e, name) {
            out.push(e);
        }
        proof {
            t = t + 1;
        }
    }
    assert(orig.take(t) =~= orig);
    *items = out;
}

/// Drops the strings `name`.
pub fn retain_other_texts(items: &mut Vec<JsonValue>, name: &str)
    ensures
        final(items)@ == without_text(old(items)@, name@),
{
    let ghost orig = items@;
    let mut out: Vec<JsonValue> = Vec::new();
    let ghost mut t: int = 0;
    while items.len() > 0
        invariant
            0 <= t <= orig.len(),
            items@ == orig.skip(t),
            out@ == without_text(orig.take(t), name@),
        decreases items@.len(),
    {
        let e = items.remove(0);
        proof {
            assert(items@ =~= orig.skip(t + 1));
            assert(orig.take(t + 1).drop_last() =~= orig.take(t));
            assert(orig.take(t + 1).last() == e);
        }
        if !is_text_value(&e, name) {
            out.push(e);
        }
        proof {
            t = t + 1;
        }
    }
    assert(orig.take(t) =~= orig);
    *items = out;
}

/// Sets `name` to `to` in every object named `from`; tells whether there was one.
pub fn rename_objects(items: &mut Vec<JsonValue>, from: &str, to: &str) -> (changed: bool)
    ensures
        final(items)@.len() == old(items)@.len(),
        forall|i: int|
            0 <= i < old(items)@.len() ==> object_renamed(
                #[trigger] old(items)@[i],
                final(items)@[i],
                from@,
                to@,
            ),
        changed == any_named(old(items)@, from@),
{
    let ghost orig = items@;
    let mut out: Vec<JsonValue> = Vec::new();
    let mut changed = false;
    let ghost mut t: int = 0;
    while items.len() > 0
        invariant
            0 <= t <= orig.len(),
            items@ == orig.skip(t),
            out@.len() == t,
            forall|i: int| 0 <= i < t ==> object_renamed(#[trigger] orig[i], out@[i], from@, to@),
            changed == any_named(orig.take(t), from@),
        decreases items@.len(),
    {
        let e = items.remove(0);
        proof {
            assert(items@ =~= orig.skip(t + 1));
            assert(e == orig[t]);
        }
        let ghost before_out = out@;
        if is_named(&e, from) {
            match e {
                JsonValue::Object(mut members) => {
                    let ghost b = members@;
                    object_insert(&mut members, String::from_str("name"), JsonValue::Str(to.to_owned()));
                    out.push(JsonValue::Object(members));
                    proof {
                        assert(object_renamed(orig[t], out@[t], from@, to@));
                    }
                },
                other => {
                    out.push(other);
                },
            }
            changed = true;
            proof {
                assert(names_target(orig.take(t + 1)[t], from@));
            }
        } else {
            out.push(e);
            proof {
                if any_named(orig.take(t + 1), from@) {
                    let j = choose|j: int|
                        0 <= j < t + 1 && #[trigger] names_target(orig.take(t + 1)[j], from@);
                    assert(orig.take(t + 1)[j] == orig.take(t)[j]);
                }
            }
        }
        proof {
            assert forall|i: int| 0 <= i < t + 1 implies object_renamed(
                #[trigger] orig[i],
                out@[i],
                from@,
                to@,
            ) by {
                if i < t {
                    assert(out@[i] == before_out[i]);
                }
            }
            if any_named(orig.take(t), from@) {
                let j = choose|j: int| 0 <= j < t && #[trigger] names_target(orig.take(t)[j], from@);
                assert(orig.take(t + 1)[j] == orig.take(t)[j]);
            }
            t = t + 1;
        }
    }
    proof {
        assert(orig.take(t) =~= orig);
    }
    *items = out;
    changed
}

/// Replaces every string `from` by `to`; tells whether there was one.
pub fn rename_texts(items: &mut Vec<JsonValue>, from: &str, to: &str) -> (changed: bool)
    ensures
        final(items)@.len() == old(items)@.len(),
        forall|i: int|
            0 <= i < old(items)@.len() ==> text_renamed(
                #[trigger] old(items)@[i],
                final(items)@[i],
                from@,
                to@,
            ),
        changed == any_text(old(items)@, from@),
{
    let ghost orig = items@;
    let mut out: Vec<JsonValue> = Vec::new();
    let mut changed = false;
    let ghost mut t: int = 0;
    while items.len() > 0
        invariant
            0 <= t <= orig.len(),
            items@ == orig.skip(t),
            out@.len() == t,
            forall|i: int| 0 <= i < t ==> text_renamed(#[trigger] orig[i], out@[i], from@, to@),
            changed == any_text(orig.take(t), from@),
        decreases items@.len(),
    {
        let e = items.remove(0);
        proof {
            assert(items@ =~= orig.skip(t + 1));
            assert(e == orig[t]);
        }
        let ghost before_out = out@;
        if is_text_value(&e, from) {
            out.push(JsonValue::Str(to.to_owned()));
            changed = true;
            proof {
                assert((orig.take(t + 1)[t]).text() == Some(from@));
            }
        } else {
            out.push(e);
            proof {
                if any_text(orig.take(t + 1), from@) {
                    let j = choose|j: int|
                        0 <= j < t + 1 && (#[trigger] orig.take(t + 1)[j]).text() == Some(from@);
                    assert(orig.take(t + 1)[j] == orig.take(t)[j]);
                }
            }
        }
        proof {
            assert forall|i: int| 0 <= i < t + 1 implies text_renamed(
                #[trigger] orig[i],
                out@[i],
                from@,
                to@,
            ) by {
                if i < t {
                    assert(out@[i] == before_out[i]);
                }
            }
            if any_text(orig.take(t), from@) {
                let j = choose|j: int| 0 <= j < t && (#[trigger] orig.take(t)[j]).text() == Some(from@);
                assert(orig.take(t + 1)[j] == orig.take(t)[j]);
            }
            t = t + 1;
        }
    }
    proof {
        assert(orig.take(t) =~= orig);
    }
    *items = out;
    changed
}

} // verus!
