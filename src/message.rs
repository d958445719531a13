//! From an alarm event to the chat message that reports it: which role to
//! mention, the color, a summary, a dump of what came in, and display fields.

use vstd::prelude::*;

use crate::json::{parse_json, parsed_of, pretty_json, pretty_of, Json};

verus! {

/// Color of a message that pages: an alarm, or an event that could not be read.
pub const RED: u32 = 0xe83535;

/// Color of a recovery.
pub const GREEN: u32 = 0x2daf32;

/// Color of a test alarm.
pub const GRAY: u32 = 0xb3b4bc;

/// The token that pages the on-call role, with the space that follows it.
pub open spec fn mention() -> Seq<char> {
    "<@&678974055365476392> "@
}

/// The summary of an event whose shape is not an alarm notification.
pub open spec fn unknown_event() -> Seq<char> {
    "알지 못하는 유형의 이벤트가 발생했습니다."@
}

/// The summary of an alarm that gives no reason.
pub open spec fn no_reason() -> Seq<char> {
    "(메시지에 NewStateReason이 없습니다)"@
}

/// The key of an alarm's reason, which is shown as the summary and not as a field.
pub open spec fn reason_key() -> Seq<char> {
    "NewStateReason"@
}

/// `text` as a fenced JSON code block.
pub open spec fn fence(text: Seq<char>) -> Seq<char> {
    "```json\n"@ + text + "\n```"@
}

/// One display field of a message.
pub struct Field {
    pub name: String,
    pub value: String,
    pub inline: bool,
}

/// A field as the contracts see it.
pub struct FieldView {
    pub name: Seq<char>,
    pub value: Seq<char>,
    pub inline: bool,
}

impl View for Field {
    type V = FieldView;

    open spec fn view(&self) -> FieldView {
        FieldView { name: self.name@, value: self.value@, inline: self.inline }
    }
}

/// The fields' views, in order.
pub open spec fn fields_view(fields: Seq<Field>) -> Seq<FieldView> {
    fields.map_values(|f: Field| f@)
}

/// How a value is shown in a field: a string as it is, anything else as its
/// indented JSON in a code block.
pub open spec fn field_text(value: Json) -> Seq<char> {
    match value {
        Json::Str(s) => s@,
        _ => fence(pretty_of(value)),
    }
}

/// One field per entry, in order, but none for the reason.
pub open spec fn fields_from(entries: Seq<(String, Json)>) -> Seq<FieldView>
    decreases entries.len(),
{
    if entries.len() == 0 {
        Seq::empty()
    } else {
        let rest = fields_from(entries.drop_last());
        let (key, value) = entries.last();
        if key@ == reason_key() {
            rest
        } else {
            rest.push(FieldView { name: key@, value: field_text(value), inline: true })
        }
    }
}

/// The fields of an alarm: those of its entries when it is an object, else none.
pub open spec fn fields_of(alarm: Json) -> Seq<FieldView> {
    match alarm {
        Json::Object(entries) => fields_from(entries@),
        _ => Seq::empty(),
    }
}

/// Puts `text` in a fenced JSON code block.
pub fn fenced(text: &str) -> (r: String)
    ensures
        r@ == fence(text@),
{
    let mut r: String = "```json\n".to_owned();
    r.append(text);
    r.append("\n```");
    r
}

/// The display fields of an alarm: one per entry of the object, in its order,
/// skipping the reason; a string is shown as it is, any other value as its
/// indented JSON in a code block; every field is inline. An alarm that
/// `classify` parsed has its keys in ascending order, as serde_json's map
/// keeps them, so its fields come in that order; a well-formed object has
/// no other.
pub fn message_to_fields(message: &Json) -> (r: Vec<Field>)
    requires
        message.wf(),
    ensures
        fields_view(r@) == fields_of(*message),
{
    let mut fields: Vec<Field> = Vec::new();
    match message {
        Json::Object(entries) => {
            let reason: String = "NewStateReason".to_owned();
            let mut i: usize = 0;
            assert(entries@.subrange(0, 0) =~= Seq::<(String, Json)>::empty());
            while i < entries.len()
                invariant
                    0 <= i <= entries@.len(),
                    reason@ == reason_key(),
                    fields_of(*message) == fields_from(entries@),
                    fields_view(fields@) == fields_from(entries@.subrange(0, i as int)),
                decreases entries.len() - i,
            {
                let entry = &entries[i];
                assert(entries@.subrange(0, i + 1).drop_last() =~= entries@.subrange(0, i as int));
                assert(entries@.subrange(0, i + 1).last() == entries@[i as int]);
                if entry.0 != reason {
                    let value: String = match &entry.1 {
                        Json::Str(s) => s.clone(),
                        other => fenced(pretty_json(other).as_str()),
                    };
                    let ghost before = fields@;
                    fields.push(Field { name: entry.0.clone(), value, inline: true });
                    assert(fields_view(fields@) =~= fields_view(before).push(fields@.last()@));
                }
                i += 1;
            }
            assert(entries@.subrange(0, entries@.len() as int) =~= entries@);
        },
        _ => {},
    }
    fields
}

/// The parts of a message that an alarm decides.
pub struct Verdict {
    pub notify: bool,
    pub color: u32,
    pub summary: String,
}

/// A verdict as the contracts see it.
pub struct VerdictView {
    pub notify: bool,
    pub color: u32,
    pub summary: Seq<char>,
}

impl View for Verdict {
    type V = VerdictView;

    open spec fn view(&self) -> VerdictView {
        VerdictView { notify: self.notify, color: self.color, summary: self.summary@ }
    }
}

/// A test alarm: one named `_Test`.
pub open spec fn is_test(alarm: Json) -> bool {
    alarm.spec_str_at("AlarmName"@) == Some("_Test"@)
}

/// The alarm's new state is the text `state`.
pub open spec fn state_is(alarm: Json, state: Seq<char>) -> bool {
    alarm.spec_str_at("NewStateValue"@) == Some(state)
}

/// The alarm's reason, or the placeholder where it gives none as a string.
pub open spec fn reason_of(alarm: Json) -> Seq<char> {
    match alarm.spec_str_at(reason_key()) {
        Some(reason) => reason,
        None => no_reason(),
    }
}

/// The decision table, in order: a test alarm is shown in gray without paging,
/// with its reason; an alarm pages in red with its reason; a recovery is shown
/// in green without paging, with its reason; any other state pages in red with
/// no summary.
pub open spec fn verdict_of(alarm: Json) -> VerdictView {
    if is_test(alarm) {
        VerdictView { notify: false, color: GRAY, summary: reason_of(alarm) }
    } else if state_is(alarm, "ALARM"@) {
        VerdictView { notify: true, color: RED, summary: reason_of(alarm) }
    } else if state_is(alarm, "OK"@) {
        VerdictView { notify: false, color: GREEN, summary: reason_of(alarm) }
    } else {
        VerdictView { notify: true, color: RED, summary: Seq::empty() }
    }
}

/// Whether `value` is the string `text`.
fn is_text(value: Option<&String>, text: &str) -> (r: bool)
    ensures
        r == match value {
            Some(s) => s@ == text@,
            None => false,
        },
{
    match value {
        Some(s) => *s == text.to_owned(),
        None => false,
    }
}

/// Applies the decision table to a parsed alarm.
pub fn verdict(alarm: &Json) -> (r: Verdict)
    ensures
        r@ == verdict_of(*alarm),
{
    let reason: String = match alarm.str_at("NewStateReason") {
        Some(text) => text.clone(),
        None => "(메시지에 NewStateReason이 없습니다)".to_owned(),
    };
    let state = alarm.str_at("NewStateValue");
    if is_text(alarm.str_at("AlarmName"), "_Test") {
        Verdict { notify: false, color: GRAY, summary: reason }
    } else if is_text(state, "ALARM") {
        Verdict { notify: true, color: RED, summary: reason }
    } else if is_text(state, "OK") {
        Verdict { notify: false, color: GREEN, summary: reason }
    } else {
        Verdict { notify: true, color: RED, summary: String::new() }
    }
}

/// The notification text at `Records[0].Sns.Message`, when the event has one.
pub open spec fn message_in(event: Json) -> Option<Seq<char>> {
    match event.spec_get("Records"@) {
        Some(records) => match records.spec_at(0) {
            Some(record) => match record.spec_get("Sns"@) {
                Some(sns) => sns.spec_str_at("Message"@),
                None => None,
            },
            None => None,
        },
        None => None,
    }
}

/// Follows `Records[0].Sns.Message` to a string, stopping at the first step
/// that is absent or of another kind.
pub fn message_of(event: &Json) -> (r: Option<&String>)
    ensures
        match r {
            Some(s) => message_in(*event) == Some(s@),
            None => message_in(*event) is None,
        },
{
    match event.get("Records") {
        Some(records) => match records.at(0) {
            Some(record) => match record.get("Sns") {
                Some(sns) => sns.str_at("Message"),
                None => None,
            },
            None => None,
        },
        None => None,
    }
}

/// What an event is found to be, before it is rendered.
pub struct Classification {
    pub notify: bool,
    pub color: u32,
    pub summary: String,
    pub detail: String,
    pub fields: Vec<Field>,
}

/// A classification as the contracts see it.
pub struct ClassificationView {
    pub notify: bool,
    pub color: u32,
    pub summary: Seq<char>,
    pub detail: Seq<char>,
    pub fields: Seq<FieldView>,
}

impl View for Classification {
    type V = ClassificationView;

    open spec fn view(&self) -> ClassificationView {
        ClassificationView {
            notify: self.notify,
            color: self.color,
            summary: self.summary@,
            detail: self.detail@,
            fields: fields_view(self.fields@),
        }
    }
}

/// How an event is classified. Without a notification text it is of an unknown
/// kind: it pages in red and its dump is the whole event. A text that is not
/// JSON pages in red with no summary and is dumped as it is. A parsed alarm
/// goes through the decision table, is dumped in indented form and gives the
/// fields.
pub open spec fn classification_of(event: Json) -> ClassificationView {
    match message_in(event) {
        None => ClassificationView {
            notify: true,
            color: RED,
            summary: unknown_event(),
            detail: pretty_of(event),
            fields: Seq::empty(),
        },
        Some(text) => match parsed_of(text) {
            None => ClassificationView {
                notify: true,
                color: RED,
                summary: Seq::empty(),
                detail: text,
                fields: Seq::empty(),
            },
            Some(alarm) => ClassificationView {
                notify: verdict_of(alarm).notify,
                color: verdict_of(alarm).color,
                summary: verdict_of(alarm).summary,
                detail: pretty_of(alarm),
                fields: fields_of(alarm),
            },
        },
    }
}

/// Classifies an event of any shape; it never fails.
pub fn classify(event: &Json) -> (r: Classification)
    requires
        event.wf(),
    ensures
        r@ == classification_of(*event),
{
    let no_fields: Vec<Field> = Vec::new();
    assert(fields_view(no_fields@) =~= Seq::<FieldView>::empty());
    match message_of(event) {
        None => Classification {
            notify: true,
            color: RED,
            summary: "알지 못하는 유형의 이벤트가 발생했습니다.".to_owned(),
            detail: pretty_json(event),
            fields: no_fields,
        },
        Some(text) => match parse_json(text.as_str()) {
            None => Classification {
                notify: true,
                color: RED,
                summary: String::new(),
                detail: text.clone(),
                fields: no_fields,
            },
            Some(alarm) => {
                let v = verdict(&alarm);
                Classification {
                    notify: v.notify,
                    color: v.color,
                    summary: v.summary,
                    detail: pretty_json(&alarm),
                    fields: message_to_fields(&alarm),
                }
            },
        },
    }
}

/// The one embed of a message.
pub struct Embed {
    pub color: u32,
    pub description: String,
    pub fields: Vec<Field>,
}

/// A message for the chat webhook.
pub struct PostData {
    pub content: String,
    pub embed: Embed,
}

/// A message as the contracts see it: its content and its embed's parts.
pub struct PostView {
    pub content: Seq<char>,
    pub color: u32,
    pub description: Seq<char>,
    pub fields: Seq<FieldView>,
}

impl View for PostData {
    type V = PostView;

    open spec fn view(&self) -> PostView {
        PostView {
            content: self.content@,
            color: self.embed.color,
            description: self.embed.description@,
            fields: fields_view(self.embed.fields@),
        }
    }
}

/// The message for a classification: the mention, only where it pages, then
/// the summary; the dump in a code block.
pub open spec fn post_of(c: ClassificationView) -> PostView {
    PostView {
        content: if c.notify {
            mention() + c.summary
        } else {
            c.summary
        },
        color: c.color,
        description: fence(c.detail),
        fields: c.fields,
    }
}

/// Renders a classification as a message.
pub fn render(c: Classification) -> (r: PostData)
    ensures
        r@ == post_of(c@),
{
    let content: String = if c.notify {
        let mut m: String = "<@&678974055365476392> ".to_owned();
        m.append(c.summary.as_str());
        m
    } else {
        c.summary
    };
    PostData {
        content,
        embed: Embed { color: c.color, description: fenced(c.detail.as_str()), fields: c.fields },
    }
}

/// The message for an event of any shape; it never fails.
pub fn parse_message(event: &Json) -> (r: PostData)
    requires
        event.wf(),
    ensures
        r@ == post_of(classification_of(*event)),
{
    render(classify(event))
}

} // verus!
