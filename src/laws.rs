//! What holds of every event and every alarm, proved over the models that the
//! functions' contracts use.

use vstd::prelude::*;

use crate::json::{
    key_lt, keys_ascending, lemma_key_lt_irreflexive, lemma_key_lt_transitive, parsed_of, pretty_of,
    Json,
};
use crate::message::{
    classification_of, fence, fields_from, fields_of, is_test, mention, message_in, no_reason,
    post_of, reason_key, reason_of, state_is, unknown_event, FieldView, GRAY, GREEN, RED,
};

verus! {

/// An event without a notification text pages in red, with the fixed
/// unknown-event sentence and the whole event, indented, as its dump.
pub proof fn lemma_unknown_shape(event: Json)
    requires
        message_in(event) is None,
    ensures
        classification_of(event).notify,
        classification_of(event).color == RED,
        classification_of(event).summary == unknown_event(),
        classification_of(event).detail == pretty_of(event),
        post_of(classification_of(event)).content == mention() + unknown_event(),
{
}

/// A notification text that is not JSON pages, with no summary, and is
/// dumped as it is.
pub proof fn lemma_not_json(event: Json, text: Seq<char>)
    requires
        message_in(event) == Some(text),
        parsed_of(text) is None,
    ensures
        classification_of(event).notify,
        classification_of(event).color == RED,
        classification_of(event).summary == Seq::<char>::empty(),
        classification_of(event).detail == text,
{
}

/// An alarm that is not a test pages in red; its summary is its reason, or the
/// placeholder where it has none, and the message starts with the mention.
pub proof fn lemma_alarm(event: Json, text: Seq<char>, alarm: Json)
    requires
        message_in(event) == Some(text),
        parsed_of(text) == Some(alarm),
        state_is(alarm, "ALARM"@),
        !is_test(alarm),
    ensures
        classification_of(event).notify,
        classification_of(event).color == RED,
        classification_of(event).summary == reason_of(alarm),
        alarm.spec_str_at(reason_key()) is None ==> classification_of(event).summary
            == no_reason(),
        alarm.spec_str_at(reason_key()) matches Some(r) ==> classification_of(event).summary
            == r,
        post_of(classification_of(event)).content == mention() + reason_of(alarm),
{
}

/// A recovery that is not a test does not page, is green, and has its reason
/// as its summary.
pub proof fn lemma_recovery(event: Json, text: Seq<char>, alarm: Json)
    requires
        message_in(event) == Some(text),
        parsed_of(text) == Some(alarm),
        state_is(alarm, "OK"@),
        !is_test(alarm),
    ensures
        !classification_of(event).notify,
        classification_of(event).color == GREEN,
        classification_of(event).summary == reason_of(alarm),
        post_of(classification_of(event)).content == reason_of(alarm),
{
    reveal_strlit("OK");
    reveal_strlit("ALARM");
    assert("OK"@.len() != "ALARM"@.len());
}

/// A test alarm never pages and is gray, whatever its state.
pub proof fn lemma_test_alarm(event: Json, text: Seq<char>, alarm: Json)
    requires
        message_in(event) == Some(text),
        parsed_of(text) == Some(alarm),
        is_test(alarm),
    ensures
        !classification_of(event).notify,
        classification_of(event).color == GRAY,
        classification_of(event).summary == reason_of(alarm),
{
}

/// `f` shows one of `entries`: not the reason, inline, under the entry's key,
/// with a string as it is and any other value as its indented JSON, fenced.
pub open spec fn shows_entry(f: FieldView, entries: Seq<(String, Json)>) -> bool {
    &&& f.name != reason_key()
    &&& f.inline
    &&& exists|j: int|
        0 <= j < entries.len() && #[trigger] entries[j].0@ == f.name && match entries[j].1 {
            Json::Str(s) => f.value == s@,
            other => f.value == fence(pretty_of(other)),
        }
}

proof fn lemma_fields_from_show_entries(entries: Seq<(String, Json)>)
    ensures
        forall|i: int|
            0 <= i < fields_from(entries).len() ==> shows_entry(
                #[trigger] fields_from(entries)[i],
                entries,
            ),
    decreases entries.len(),
{
    if entries.len() > 0 {
        let prefix = entries.drop_last();
        lemma_fields_from_show_entries(prefix);
        assert forall|i: int| 0 <= i < fields_from(entries).len() implies shows_entry(
            #[trigger] fields_from(entries)[i],
            entries,
        ) by {
            let f = fields_from(entries)[i];
            if i < fields_from(prefix).len() {
                assert(shows_entry(fields_from(prefix)[i], prefix));
                let j = choose|j: int|
                    0 <= j < prefix.len() && #[trigger] prefix[j].0@ == f.name && match prefix[j].1 {
                        Json::Str(s) => f.value == s@,
                        other => f.value == fence(pretty_of(other)),
                    };
                assert(entries[j] == prefix[j]);
            } else {
                let last = entries.len() - 1;
                assert(entries[last].0@ == f.name);
            }
        }
    }
}

proof fn lemma_fields_from_ascending(entries: Seq<(String, Json)>)
    requires
        keys_ascending(entries),
    ensures
        forall|i: int, j: int|
            0 <= i < j < fields_from(entries).len() ==> key_lt(
                #[trigger] fields_from(entries)[i].name,
                #[trigger] fields_from(entries)[j].name,
            ),
    decreases entries.len(),
{
    if entries.len() > 0 {
        let prefix = entries.drop_last();
        let last = entries.len() - 1;
        assert forall|i: int, j: int| 0 <= i < j < prefix.len() implies key_lt(
            #[trigger] prefix[i].0@,
            #[trigger] prefix[j].0@,
        ) by {
            assert(key_lt(entries[i].0@, entries[j].0@));
        }
        lemma_fields_from_ascending(prefix);
        lemma_fields_from_show_entries(prefix);
        let before = fields_from(prefix);
        assert forall|i: int, j: int| 0 <= i < j < fields_from(entries).len() implies key_lt(
            #[trigger] fields_from(entries)[i].name,
            #[trigger] fields_from(entries)[j].name,
        ) by {
            if j >= before.len() {
                assert(shows_entry(before[i], prefix));
                let k = choose|k: int|
                    0 <= k < prefix.len() && #[trigger] prefix[k].0@ == before[i].name && match prefix[k].1 {
                        Json::Str(s) => before[i].value == s@,
                        other => before[i].value == fence(pretty_of(other)),
                    };
                assert(key_lt(entries[k].0@, entries[last].0@));
            } else {
                assert(key_lt(before[i].name, before[j].name));
            }
        }
    }
}

/// The fields of any alarm never carry the reason, are all inline, and each
/// shows an entry of the alarm: a string as it is, any other value fenced.
/// Where the alarm is well formed, their names strictly ascend, so no two
/// fields share a name.
pub proof fn lemma_fields_shape(alarm: Json)
    ensures
        forall|i: int|
            0 <= i < fields_of(alarm).len() ==> match alarm {
                Json::Object(entries) => shows_entry(#[trigger] fields_of(alarm)[i], entries@),
                _ => false,
            },
        alarm.wf() ==> forall|i: int, j: int|
            0 <= i < j < fields_of(alarm).len() ==> key_lt(
                #[trigger] fields_of(alarm)[i].name,
                #[trigger] fields_of(alarm)[j].name,
            ),
        alarm.wf() ==> forall|i: int, j: int|
            0 <= i < j < fields_of(alarm).len() ==> #[trigger] fields_of(alarm)[i].name
                != #[trigger] fields_of(alarm)[j].name,
{
    match alarm {
        Json::Object(entries) => {
            lemma_fields_from_show_entries(entries@);
            if alarm.wf() {
                lemma_fields_from_ascending(entries@);
                assert forall|i: int, j: int| 0 <= i < j < fields_of(alarm).len() implies #[trigger] fields_of(alarm)[i].name
                    != #[trigger] fields_of(alarm)[j].name by {
                    lemma_key_lt_irreflexive(fields_of(alarm)[i].name);
                }
            }
        },
        _ => {},
    }
}

proof fn lemma_ascending_same_entries(a: Seq<(String, Json)>, b: Seq<(String, Json)>)
    requires
        keys_ascending(a),
        keys_ascending(b),
        forall|e: (String, Json)| a.contains(e) <==> b.contains(e),
    ensures
        a == b,
    decreases a.len(),
{
    if a.len() == 0 {
        if b.len() > 0 {
            assert(b.contains(b[0]));
        }
        assert(a =~= b);
    } else if b.len() == 0 {
        assert(a.contains(a[0]));
    } else {
        assert(a.contains(a[0]));
        assert(b.contains(b[0]));
        let k = choose|k: int| 0 <= k < b.len() && b[k] == a[0];
        let m = choose|m: int| 0 <= m < a.len() && a[m] == b[0];
        if k > 0 {
            assert(key_lt(b[0].0@, b[k].0@));
            if m > 0 {
                assert(key_lt(a[0].0@, a[m].0@));
                lemma_key_lt_transitive(a[0].0@, b[0].0@, a[0].0@);
            }
            lemma_key_lt_irreflexive(a[0].0@);
        }
        let ta = a.drop_first();
        let tb = b.drop_first();
        assert forall|i: int, j: int| 0 <= i < j < ta.len() implies key_lt(
            #[trigger] ta[i].0@,
            #[trigger] ta[j].0@,
        ) by {
            assert(key_lt(a[i + 1].0@, a[j + 1].0@));
        }
        assert forall|i: int, j: int| 0 <= i < j < tb.len() implies key_lt(
            #[trigger] tb[i].0@,
            #[trigger] tb[j].0@,
        ) by {
            assert(key_lt(b[i + 1].0@, b[j + 1].0@));
        }
        assert forall|e: (String, Json)| ta.contains(e) implies tb.contains(e) by {
            let i = choose|i: int| 0 <= i < ta.len() && ta[i] == e;
            assert(a.contains(e));
            let j = choose|j: int| 0 <= j < b.len() && b[j] == e;
            if j == 0 {
                assert(key_lt(a[0].0@, a[i + 1].0@));
                lemma_key_lt_irreflexive(a[0].0@);
            }
            assert(tb[j - 1] == e);
        }
        assert forall|e: (String, Json)| tb.contains(e) implies ta.contains(e) by {
            let j = choose|j: int| 0 <= j < tb.len() && tb[j] == e;
            assert(b.contains(e));
            let i = choose|i: int| 0 <= i < a.len() && a[i] == e;
            if i == 0 {
                assert(key_lt(b[0].0@, b[j + 1].0@));
                lemma_key_lt_irreflexive(b[0].0@);
            }
            assert(ta[i - 1] == e);
        }
        lemma_ascending_same_entries(ta, tb);
        assert(b[0] == a[0]);
        assert forall|i: int| 0 < i < a.len() implies a[i] == b[i] by {
            assert(a[i] == ta[i - 1]);
            assert(b[i] == tb[i - 1]);
        }
        assert(a =~= b);
    }
}

/// An object's entries, or none for any other value.
pub open spec fn entries_of(value: Json) -> Seq<(String, Json)> {
    match value {
        Json::Object(entries) => entries@,
        _ => Seq::empty(),
    }
}

/// Two well-formed objects that hold the same entries give the same fields, in
/// the same order: the order does not depend on how the objects were written.
pub proof fn lemma_fields_independent_of_order(x: Json, y: Json)
    requires
        x is Object,
        y is Object,
        x.wf(),
        y.wf(),
        forall|e: (String, Json)| entries_of(x).contains(e) <==> entries_of(y).contains(e),
    ensures
        fields_of(x) == fields_of(y),
{
    lemma_ascending_same_entries(entries_of(x), entries_of(y));
}

/// Classifying and extracting fields are functions of their input: equal
/// inputs give equal classifications, messages and fields.
pub proof fn lemma_deterministic(a: Json, b: Json)
    requires
        a == b,
    ensures
        classification_of(a) == classification_of(b),
        post_of(classification_of(a)) == post_of(classification_of(b)),
        fields_of(a) == fields_of(b),
{
}

} // verus!
