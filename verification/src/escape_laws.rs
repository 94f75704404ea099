//! What holds of escaped text.

use crate::json::Json;
use crate::xml;
use vstd::prelude::*;
use vstd::string::*;

verus! {

/// One of the five references stands at the start of `s`.
pub open spec fn starts_with_reference(s: Seq<char>) -> bool {
    ||| "&lt;"@.is_prefix_of(s)
    ||| "&gt;"@.is_prefix_of(s)
    ||| "&amp;"@.is_prefix_of(s)
    ||| "&apos;"@.is_prefix_of(s)
    ||| "&quot;"@.is_prefix_of(s)
}

/// `s` holds no markup: neither angle brackets nor quotes, and no `&` but at
/// the start of a reference.
pub open spec fn is_inert(s: Seq<char>) -> bool {
    forall|i: int|
        0 <= i < s.len() ==> {
            &&& #[trigger] s[i] != '<'
            &&& s[i] != '>'
            &&& s[i] != '\''
            &&& s[i] != '"'
            &&& s[i] == '&' ==> starts_with_reference(s.skip(i))
        }
}

/// What the references are made of.
proof fn lemma_references()
    ensures
        "&lt;"@ == seq!['&', 'l', 't', ';'],
        "&gt;"@ == seq!['&', 'g', 't', ';'],
        "&amp;"@ == seq!['&', 'a', 'm', 'p', ';'],
        "&apos;"@ == seq!['&', 'a', 'p', 'o', 's', ';'],
        "&quot;"@ == seq!['&', 'q', 'u', 'o', 't', ';'],
{
    reveal_strlit("&lt;");
    reveal_strlit("&gt;");
    reveal_strlit("&amp;");
    reveal_strlit("&apos;");
    reveal_strlit("&quot;");
    assert("&lt;"@ =~= seq!['&', 'l', 't', ';']);
    assert("&gt;"@ =~= seq!['&', 'g', 't', ';']);
    assert("&amp;"@ =~= seq!['&', 'a', 'm', 'p', ';']);
    assert("&apos;"@ =~= seq!['&', 'a', 'p', 'o', 's', ';']);
    assert("&quot;"@ =~= seq!['&', 'q', 'u', 'o', 't', ';']);
}

proof fn lemma_longer_still_starts(s: Seq<char>, more: Seq<char>)
    requires
        starts_with_reference(s),
    ensures
        starts_with_reference(s + more),
{
    assert forall|p: Seq<char>| #[trigger] p.is_prefix_of(s) implies p.is_prefix_of(s + more) by {
        assert((s + more).subrange(0, p.len() as int) =~= s.subrange(0, p.len() as int));
    }
}

proof fn lemma_inert_joined(a: Seq<char>, b: Seq<char>)
    requires
        is_inert(a),
        is_inert(b),
    ensures
        is_inert(a + b),
{
    let s = a + b;
    assert forall|i: int| 0 <= i < s.len() implies {
        &&& #[trigger] s[i] != '<'
        &&& s[i] != '>'
        &&& s[i] != '\''
        &&& s[i] != '"'
        &&& s[i] == '&' ==> starts_with_reference(s.skip(i))
    } by {
        if i < a.len() {
            assert(s[i] == a[i]);
            if a[i] == '&' {
                lemma_longer_still_starts(a.skip(i), b);
                assert(s.skip(i) =~= a.skip(i) + b);
            }
        } else {
            assert(s[i] == b[i - a.len()]);
            assert(s.skip(i) =~= b.skip(i - a.len()));
        }
    }
}

proof fn lemma_inert_char(c: char)
    ensures
        is_inert(xml::escaped_char(c)),
{
    lemma_references();
    let s = xml::escaped_char(c);
    assert forall|i: int| 0 <= i < s.len() implies {
        &&& #[trigger] s[i] != '<'
        &&& s[i] != '>'
        &&& s[i] != '\''
        &&& s[i] != '"'
        &&& s[i] == '&' ==> starts_with_reference(s.skip(i))
    } by {
        if s[i] == '&' {
            assert(i == 0);
            assert(s.skip(0) =~= s);
            assert(s.subrange(0, s.len() as int) =~= s);
        }
    }
}

/// Escaped text holds no markup. Put into text or into an attribute it can
/// neither open nor close anything.
pub proof fn law_escaped_text_is_inert(s: Seq<char>)
    ensures
        is_inert(xml::escaped(s)),
    decreases s.len(),
{
    if s.len() > 0 {
        law_escaped_text_is_inert(s.drop_last());
        lemma_inert_char(s.last());
        lemma_inert_joined(xml::escaped(s.drop_last()), xml::escaped_char(s.last()));
    }
}

/// Every string of `value` is inert.
pub open spec fn is_inert_json(value: Json) -> bool
    decreases value,
{
    match value {
        Json::Text(s) => is_inert(s),
        Json::Array(items) => forall|i: int|
            0 <= i < items.len() ==> is_inert_json(#[trigger] items[i]),
        Json::Object(map) => forall|k: Seq<char>| #[trigger]
            map.contains_key(k) ==> is_inert_json(map[k]),
        _ => true,
    }
}

/// Escaped arguments hold no markup in any of their strings, at any depth.
pub proof fn law_escaped_arguments_are_inert(value: Json)
    ensures
        is_inert_json(xml::escaped_json(value)),
    decreases value,
{
    match value {
        Json::Text(s) => {
            law_escaped_text_is_inert(s);
        },
        Json::Array(items) => {
            let out = xml::escaped_json(value)->Array_0;
            assert forall|i: int| 0 <= i < out.len() implies is_inert_json(#[trigger] out[i]) by {
                law_escaped_arguments_are_inert(items[i]);
            }
        },
        Json::Object(map) => {
            let out = xml::escaped_json(value)->Object_0;
            assert forall|k: Seq<char>| #[trigger] out.contains_key(k) implies is_inert_json(
                out[k],
            ) by {
                law_escaped_arguments_are_inert(map[k]);
            }
        },
        _ => {},
    }
}

/// `s` with each of the five references replaced by the character that it
/// stands for.
pub open spec fn references_resolved(s: Seq<char>) -> Seq<char>
    decreases s.len(),
{
    if s.len() == 0 {
        s
    } else if s.len() >= 4 && "&lt;"@ == s.take(4) {
        seq!['<'] + references_resolved(s.skip(4))
    } else if s.len() >= 4 && "&gt;"@ == s.take(4) {
        seq!['>'] + references_resolved(s.skip(4))
    } else if s.len() >= 5 && "&amp;"@ == s.take(5) {
        seq!['&'] + references_resolved(s.skip(5))
    } else if s.len() >= 6 && "&apos;"@ == s.take(6) {
        seq!['\''] + references_resolved(s.skip(6))
    } else if s.len() >= 6 && "&quot;"@ == s.take(6) {
        seq!['"'] + references_resolved(s.skip(6))
    } else {
        seq![s[0]] + references_resolved(s.skip(1))
    }
}

proof fn lemma_escaped_from_front(s: Seq<char>)
    requires
        s.len() > 0,
    ensures
        xml::escaped(s) == xml::escaped_char(s[0]) + xml::escaped(s.drop_first()),
    decreases s.len(),
{
    if s.len() == 1 {
        assert(s.drop_last() =~= Seq::empty());
        assert(s.drop_first() =~= Seq::empty());
        assert(xml::escaped(s) =~= xml::escaped_char(s[0]) + xml::escaped(s.drop_first()));
    } else {
        lemma_escaped_from_front(s.drop_last());
        assert(s.drop_last().drop_first() =~= s.drop_first().drop_last());
        assert(xml::escaped(s) =~= xml::escaped_char(s[0]) + xml::escaped(s.drop_first()));
    }
}

proof fn lemma_resolve_one(c: char, rest: Seq<char>)
    ensures
        references_resolved(xml::escaped_char(c) + rest) == seq![c] + references_resolved(rest),
{
    lemma_references();
    let s = xml::escaped_char(c) + rest;
    let n = xml::escaped_char(c).len() as int;
    assert(s.skip(n) =~= rest);
    assert(s.take(n) =~= xml::escaped_char(c));
    assert(s[0] == xml::escaped_char(c)[0]);
    if n == 1 {
        assert(c != '&');
        assert(s.len() >= 4 ==> s.take(4)[0] == c);
        assert(s.len() >= 5 ==> s.take(5)[0] == c);
        assert(s.len() >= 6 ==> s.take(6)[0] == c);
        assert("&lt;"@[0] == '&' && "&gt;"@[0] == '&' && "&amp;"@[0] == '&');
        assert("&apos;"@[0] == '&' && "&quot;"@[0] == '&');
    } else {
        assert(s.take(4)[1] == s[1] && s[1] == xml::escaped_char(c)[1]);
        assert("&lt;"@[1] == 'l' && "&gt;"@[1] == 'g' && "&amp;"@[1] == 'a');
        assert("&apos;"@[1] == 'a' && "&quot;"@[1] == 'q');
        assert("&amp;"@[2] == 'm' && "&apos;"@[2] == 'p');
        assert(s.len() >= 5 ==> s.take(5)[1] == s[1] && s.take(5)[2] == s[2]);
        assert(n >= 5 ==> s[2] == xml::escaped_char(c)[2]);
        assert(s.len() >= 6 ==> s.take(6)[1] == s[1]);
    }
}

/// Whoever resolves the references of escaped text has the text itself: the
/// service reads the argument that the caller gave.
pub proof fn law_escaped_text_reads_back(s: Seq<char>)
    ensures
        references_resolved(xml::escaped(s)) == s,
    decreases s.len(),
{
    if s.len() > 0 {
        lemma_escaped_from_front(s);
        law_escaped_text_reads_back(s.drop_first());
        lemma_resolve_one(s[0], xml::escaped(s.drop_first()));
        assert(seq![s[0]] + s.drop_first() =~= s);
    }
}

/// `value` with the five references resolved in each of its strings, at any
/// depth.
pub open spec fn resolved_json(value: Json) -> Json
    decreases value,
{
    match value {
        Json::Text(s) => Json::Text(references_resolved(s)),
        Json::Array(items) => Json::Array(
            Seq::new(
                items.len(),
                |i: int|
                    if 0 <= i < items.len() {
                        resolved_json(items[i])
                    } else {
                        Json::Null
                    },
            ),
        ),
        Json::Object(map) => Json::Object(
            Map::new(
                |k: Seq<char>| map.contains_key(k),
                |k: Seq<char>|
                    if map.contains_key(k) {
                        resolved_json(map[k])
                    } else {
                        Json::Null
                    },
            ),
        ),
        other => other,
    }
}

/// Whoever resolves the references of escaped arguments has the arguments
/// themselves, at any depth: nothing but the strings is changed, and nothing is
/// lost, added or moved.
pub proof fn law_escaped_arguments_read_back(value: Json)
    ensures
        resolved_json(xml::escaped_json(value)) == value,
    decreases value,
{
    let back = resolved_json(xml::escaped_json(value));
    match value {
        Json::Text(s) => {
            law_escaped_text_reads_back(s);
        },
        Json::Array(items) => {
            assert forall|i: int| 0 <= i < items.len() implies back->Array_0[i]
                == #[trigger] items[i] by {
                law_escaped_arguments_read_back(items[i]);
            }
            assert(back->Array_0 =~= items);
        },
        Json::Object(map) => {
            assert forall|k: Seq<char>| map.contains_key(k) implies back->Object_0[k]
                == #[trigger] map[k] by {
                law_escaped_arguments_read_back(map[k]);
            }
            assert(back->Object_0 =~= map);
        },
        _ => {},
    }
}

/// `a` and `b` are alike but for what their strings hold: they are of one kind,
/// arrays are of one length, objects have the same keys, and all else is equal.
pub open spec fn same_shape(a: Json, b: Json) -> bool
    decreases a,
{
    match (a, b) {
        (Json::Text(_), Json::Text(_)) => true,
        (Json::Array(m), Json::Array(n)) => m.len() == n.len() && forall|i: int|
            0 <= i < m.len() ==> same_shape(#[trigger] m[i], n[i]),
        (Json::Object(m), Json::Object(n)) => m.dom() == n.dom() && forall|k: Seq<char>| #[trigger]
            m.contains_key(k) ==> same_shape(m[k], n[k]),
        _ => a == b,
    }
}

/// Escaping changes what the strings hold and nothing else.
pub proof fn law_escaping_keeps_the_shape(value: Json)
    ensures
        same_shape(value, xml::escaped_json(value)),
    decreases value,
{
    let out = xml::escaped_json(value);
    match value {
        Json::Array(items) => {
            assert forall|i: int| 0 <= i < items.len() implies same_shape(
                #[trigger] items[i],
                out->Array_0[i],
            ) by {
                law_escaping_keeps_the_shape(items[i]);
            }
        },
        Json::Object(map) => {
            assert(map.dom() =~= out->Object_0.dom());
            assert forall|k: Seq<char>| #[trigger] map.contains_key(k) implies same_shape(
                map[k],
                out->Object_0[k],
            ) by {
                law_escaping_keeps_the_shape(map[k]);
            }
        },
        _ => {},
    }
}

/// Text without any of the five characters stays as it is, and texts are
/// escaped one after the other.
pub proof fn law_plain_text_stays(a: Seq<char>, b: Seq<char>)
    ensures
        (forall|i: int| 0 <= i < a.len() ==> !is_markup(#[trigger] a[i])) ==> xml::escaped(a) == a,
        xml::escaped(a + b) == xml::escaped(a) + xml::escaped(b),
    decreases a.len() + b.len(),
{
    if b.len() > 0 {
        law_plain_text_stays(a, b.drop_last());
        assert((a + b).drop_last() =~= a + b.drop_last());
        assert(xml::escaped(a + b) =~= xml::escaped(a) + xml::escaped(b));
    } else {
        assert(a + b =~= a);
        assert(xml::escaped(a) + xml::escaped(b) =~= xml::escaped(a));
    }
    if a.len() > 0 {
        law_plain_text_stays(a.drop_last(), Seq::empty());
        if forall|i: int| 0 <= i < a.len() ==> !is_markup(#[trigger] a[i]) {
            assert forall|i: int| 0 <= i < a.len() - 1 implies !is_markup(
                #[trigger] a.drop_last()[i],
            ) by {
                assert(a.drop_last()[i] == a[i]);
            }
            assert(!is_markup(a[a.len() - 1]));
            assert(xml::escaped(a) =~= a);
        }
    }
}

/// A character with a meaning in markup.
pub open spec fn is_markup(c: char) -> bool {
    c == '<' || c == '>' || c == '&' || c == '\'' || c == '"'
}

} // verus!
