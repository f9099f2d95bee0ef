//! Text: views, comparison, sorted lists without repeats.
use vstd::prelude::*;

verus! {

/// The characters of the optional text, if it is there.
pub open spec fn optional_view(text: Option<String>) -> Option<Seq<char>> {
    match text {
        Some(text) => Some(text@),
        None => None,
    }
}

/// The characters of the optional text, if it is there.
pub open spec fn optional_str(text: Option<&str>) -> Option<Seq<char>> {
    match text {
        Some(text) => Some(text@),
        None => None,
    }
}

/// The characters of each text.
pub open spec fn texts_view(texts: Seq<String>) -> Seq<Seq<char>> {
    texts.map_values(|text: String| text@)
}

/// The characters of the text, one by one.
pub(crate) fn chars_of(text: &str) -> (chars: Vec<char>)
    ensures
        chars@ == text@,
{
    let mut chars: Vec<char> = Vec::new();
    for c in it: text.chars()
        invariant
            it.seq() == text@,
            chars@ == text@.take(it.index() as int),
    {
        chars.push(c);
    }
    chars
}

/// Whether `a` comes no later than `b` in the order that compares two texts
/// character by character.
pub open spec fn text_le(a: Seq<char>, b: Seq<char>) -> bool
    decreases a.len(),
{
    if a.len() == 0 {
        true
    } else if b.len() == 0 {
        false
    } else if a[0] != b[0] {
        a[0] < b[0]
    } else {
        text_le(a.drop_first(), b.drop_first())
    }
}

/// Every text comes no later than itself, and of two texts one comes no later
/// than the other.
pub proof fn text_order_is_total(a: Seq<char>, b: Seq<char>)
    ensures
        text_le(a, a),
        text_le(a, b) || text_le(b, a),
    decreases a.len(),
{
    if a.len() > 0 {
        text_order_is_total(a.drop_first(), a.drop_first());
        if b.len() > 0 {
            text_order_is_total(a.drop_first(), b.drop_first());
        }
    }
}

/// Two texts each of which comes no later than the other are the same text.
pub proof fn text_order_is_antisymmetric(a: Seq<char>, b: Seq<char>)
    requires
        text_le(a, b),
        text_le(b, a),
    ensures
        a == b,
    decreases a.len(),
{
    if a.len() > 0 && b.len() > 0 {
        text_order_is_antisymmetric(a.drop_first(), b.drop_first());
        assert(a =~= seq![a[0]] + a.drop_first());
        assert(b =~= seq![b[0]] + b.drop_first());
    } else {
        assert(a =~= b);
    }
}

/// The order of texts is transitive.
pub proof fn text_order_is_transitive(a: Seq<char>, b: Seq<char>, c: Seq<char>)
    requires
        text_le(a, b),
        text_le(b, c),
    ensures
        text_le(a, c),
    decreases a.len(),
{
    if a.len() > 0 && a[0] == b[0] && b[0] == c[0] {
        text_order_is_transitive(a.drop_first(), b.drop_first(), c.drop_first());
    }
}

/// Whether `a` comes no later than `b`.
pub fn text_at_most(a: &str, b: &str) -> (at_most: bool)
    ensures
        at_most == text_le(a@, b@),
{
    let left = chars_of(a);
    let right = chars_of(b);
    let mut i: usize = 0;
    proof {
        assert(a@.skip(0) =~= a@);
        assert(b@.skip(0) =~= b@);
    }
    while i < left.len() && i < right.len() && left[i] == right[i]
        invariant
            left@ == a@,
            right@ == b@,
            i <= left.len(),
            i <= right.len(),
            text_le(a@, b@) == text_le(a@.skip(i as int), b@.skip(i as int)),
        decreases left.len() - i,
    {
        proof {
            assert(a@.skip(i as int).drop_first() =~= a@.skip(i + 1));
            assert(b@.skip(i as int).drop_first() =~= b@.skip(i + 1));
        }
        i = i + 1;
    }
    if i == left.len() {
        true
    } else if i == right.len() {
        false
    } else {
        left[i] < right[i]
    }
}

/// The list with `text` in its place, if it is not in the list yet.
pub open spec fn insert_sorted(list: Seq<Seq<char>>, text: Seq<char>) -> Seq<Seq<char>>
    decreases list.len(),
{
    if list.len() == 0 {
        seq![text]
    } else if list.last() == text {
        list
    } else if text_le(list.last(), text) {
        list.push(text)
    } else {
        insert_sorted(list.drop_last(), text).push(list.last())
    }
}

/// The texts in order, each of them once.
pub open spec fn sorted_distinct(texts: Seq<Seq<char>>) -> Seq<Seq<char>>
    decreases texts.len(),
{
    if texts.len() == 0 {
        seq![]
    } else {
        insert_sorted(sorted_distinct(texts.drop_last()), texts.last())
    }
}

/// Whether each text of the list comes before all that follow it.
pub open spec fn strictly_sorted(list: Seq<Seq<char>>) -> bool {
    forall|i: int, j: int|
        0 <= i < j < list.len() ==> text_le(#[trigger] list[i], #[trigger] list[j]) && list[i]
            != list[j]
}

proof fn lemma_insert_sorted(list: Seq<Seq<char>>, text: Seq<char>)
    requires
        strictly_sorted(list),
    ensures
        strictly_sorted(insert_sorted(list, text)),
        forall|t: Seq<char>| #[trigger]
            insert_sorted(list, text).contains(t) <==> list.contains(t) || t == text,
    decreases list.len(),
{
    let result = insert_sorted(list, text);
    if list.len() == 0 {
        assert(result[0] == text);
    } else if list.last() == text {
    } else if text_le(list.last(), text) {
        assert forall|i: int, j: int| 0 <= i < j < result.len() implies text_le(
            #[trigger] result[i],
            #[trigger] result[j],
        ) && result[i] != result[j] by {
            if j == list.len() {
                if i < list.len() - 1 {
                    text_order_is_transitive(list[i], list.last(), text);
                    if list[i] == text {
                        text_order_is_antisymmetric(list.last(), text);
                    }
                }
            }
        }
        assert(result[list.len() as int] == text);
        assert forall|t: Seq<char>| list.contains(t) implies result.contains(t) by {
            let i = choose|i: int| 0 <= i < list.len() && list[i] == t;
            assert(result[i] == t);
        }
    } else {
        let rest = list.drop_last();
        let inner = insert_sorted(rest, text);
        lemma_insert_sorted(rest, text);
        text_order_is_total(list.last(), text);
        assert forall|i: int, j: int| 0 <= i < j < result.len() implies text_le(
            #[trigger] result[i],
            #[trigger] result[j],
        ) && result[i] != result[j] by {
            if j == inner.len() {
                assert(result[i] == inner[i]);
                assert(inner.contains(inner[i]));
                if inner[i] != text {
                    let k = choose|k: int| 0 <= k < rest.len() && rest[k] == inner[i];
                    assert(rest[k] == list[k]);
                }
            } else {
                assert(inner[i] == result[i] && inner[j] == result[j]);
            }
        }
        assert forall|t: Seq<char>| #[trigger]
            result.contains(t) <==> list.contains(t) || t == text by {
            if result.contains(t) {
                let i = choose|i: int| 0 <= i < result.len() && result[i] == t;
                if i < inner.len() {
                    assert(inner[i] == t);
                    assert(inner.contains(t));
                    if t != text {
                        let k = choose|k: int| 0 <= k < rest.len() && rest[k] == t;
                        assert(list[k] == t);
                    }
                } else {
                    assert(list[list.len() - 1] == t);
                }
            }
            if list.contains(t) || t == text {
                if t == list.last() {
                    assert(result[inner.len() as int] == t);
                } else {
                    if list.contains(t) {
                        let k = choose|k: int| 0 <= k < list.len() && list[k] == t;
                        assert(rest[k] == t);
                    }
                    assert(inner.contains(t));
                    let i = choose|i: int| 0 <= i < inner.len() && inner[i] == t;
                    assert(result[i] == t);
                }
            }
        }
    }
}

/// A sorted list without repeats holds the texts it was made of, each once and
/// in order.
pub proof fn sorted_distinct_holds_each_text_once(texts: Seq<Seq<char>>)
    ensures
        strictly_sorted(sorted_distinct(texts)),
        forall|t: Seq<char>| #[trigger] sorted_distinct(texts).contains(t) <==> texts.contains(t),
    decreases texts.len(),
{
    if texts.len() > 0 {
        let rest = texts.drop_last();
        sorted_distinct_holds_each_text_once(rest);
        lemma_insert_sorted(sorted_distinct(rest), texts.last());
        assert forall|t: Seq<char>| #[trigger] sorted_distinct(texts).contains(t) <==> texts.contains(t) by {
            if texts.contains(t) && t != texts.last() {
                let k = choose|k: int| 0 <= k < texts.len() && texts[k] == t;
                assert(rest[k] == t);
            }
            if rest.contains(t) {
                let k = choose|k: int| 0 <= k < rest.len() && rest[k] == t;
                assert(texts[k] == t);
            }
            assert(texts[texts.len() - 1] == texts.last());
        }
    }
}

proof fn lemma_insert_position(list: Seq<Seq<char>>, text: Seq<char>, at: int)
    requires
        0 <= at <= list.len(),
        forall|j: int| at <= j < list.len() ==> #[trigger] list[j] != text && !text_le(list[j], text),
        at > 0 ==> list[at - 1] == text || text_le(list[at - 1], text),
    ensures
        insert_sorted(list, text) == if at > 0 && list[at - 1] == text {
            list
        } else {
            list.insert(at, text)
        },
    decreases list.len(),
{
    if at < list.len() {
        let rest = list.drop_last();
        assert forall|j: int| at <= j < rest.len() implies #[trigger] rest[j] != text && !text_le(
            rest[j],
            text,
        ) by {
            assert(rest[j] == list[j]);
        }
        lemma_insert_position(rest, text, at);
        assert(list[list.len() - 1] != text);
        if at > 0 && list[at - 1] == text {
            assert(rest[at - 1] == text);
            assert(rest.push(list.last()) =~= list);
        } else {
            assert(rest.insert(at, text).push(list.last()) =~= list.insert(at, text));
        }
    } else if list.len() == 0 {
        assert(list.insert(0, text) =~= seq![text]);
    } else {
        assert(list.insert(at, text) =~= list.push(text));
    }
}

/// Puts the text in its place in the list, if it is not there yet.
pub(crate) fn insert_text(list: &mut Vec<String>, text: &String)
    ensures
        texts_view(final(list)@) == insert_sorted(texts_view(old(list)@), text@),
{
    let mut at: usize = list.len();
    let ghost view = texts_view(list@);
    while at > 0 && !(list[at - 1] == *text) && !text_at_most(list[at - 1].as_str(), text.as_str())
        invariant
            at <= list.len(),
            view == texts_view(list@),
            forall|j: int|
                at <= j < view.len() ==> #[trigger] view[j] != text@ && !text_le(view[j], text@),
        decreases at,
    {
        at = at - 1;
    }
    proof {
        lemma_insert_position(view, text@, at as int);
    }
    if at > 0 && list[at - 1] == *text {
        return;
    }
    list.insert(at, text.clone());
    assert(texts_view(list@) =~= view.insert(at as int, text@));
}

} // verus!
