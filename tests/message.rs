use sns_discord::json::{key_less, Json};
use sns_discord::message::{
    classify, fenced, message_of, message_to_fields, parse_message, render, verdict,
    Classification, GRAY, GREEN, RED,
};

fn text(s: &str) -> Json {
    Json::Str(s.to_string())
}

fn object(entries: Vec<(&str, Json)>) -> Json {
    Json::Object(entries.into_iter().map(|(k, v)| (k.to_string(), v)).collect())
}

/// `{"Records":[{"Sns":{"Message": message}}]}`
fn event_with(message: Json) -> Json {
    object(vec![(
        "Records",
        Json::Array(vec![object(vec![("Sns", object(vec![("Message", message)]))])]),
    )])
}

const MENTION: &str = "<@&678974055365476392> ";
const UNKNOWN: &str = "알지 못하는 유형의 이벤트가 발생했습니다.";
const NO_REASON: &str = "(메시지에 NewStateReason이 없습니다)";

#[test]
fn test_parse_message() {
    let mut post_data;

    post_data = parse_message(&text("arbitrary"));
    assert_eq!(
        post_data.content,
        "<@&678974055365476392> 알지 못하는 유형의 이벤트가 발생했습니다.".to_string(),
        "An arbitrary message should be parsed as an alarm."
    );
    assert_eq!(post_data.embed.color, RED,);

    post_data = parse_message(&event_with(text(
        r#"{"NewStateReason":"Threshold Crossed: 1 out of the last 1 datapoints was less than the threshold.","NewStateValue":"ALARM"}"#,
    )));
    assert_eq!(
        post_data.content,
        "<@&678974055365476392> Threshold Crossed: 1 out of the last 1 datapoints was less than the threshold.".to_string(),
        "An alarm should be parsed as an alarm."
    );
    assert_eq!(post_data.embed.color, RED,);

    post_data = parse_message(&event_with(text(r#"{"NewStateValue":"OK"}"#)));
    assert_eq!(
        post_data.content,
        "(메시지에 NewStateReason이 없습니다)".to_string(),
        "An OK should be parsed as an OK."
    );
    assert_eq!(post_data.embed.color, GREEN,);

    post_data = parse_message(&event_with(text(
        r#"{"AWSAccountId":"302617221463","AlarmActions":["arn:aws:sns:ap-northeast-1:302617221463:CloudWatch_Alarms_Topic"],"AlarmArn":"arn:aws:cloudwatch:ap-northeast-1:302617221463:alarm:Femiwiki CPU credit balance","AlarmConfigurationUpdatedTimestamp":"2021-05-17T02:32:05.144+0000","AlarmDescription":null,"AlarmName":"Femiwiki CPU credit balance","InsufficientDataActions":[],"NewStateReason":"Threshold Crossed: 1 out of the last 1 datapoints [71.58514626666667 (09/04/22 21:01:00)] was less than the threshold (72.0) (minimum 1 datapoint for OK -> ALARM transition).","NewStateValue":"ALARM","OKActions":[],"OldStateValue":"OK","Region":"Asia Pacific (Tokyo)","StateChangeTime":"2022-04-09T21:06:48.198+0000","Trigger":{"ComparisonOperator":"LessThanThreshold","DatapointsToAlarm":1,"Dimensions":[{"name":"InstanceId","value":"i-0d6c06981a9aa5112"}],"EvaluateLowSampleCountPercentile":"","EvaluationPeriods":1,"MetricName":"CPUCreditBalance","Namespace":"AWS/EC2","Period":300,"Statistic":"MINIMUM","StatisticType":"Statistic","Threshold":72.0,"TreatMissingData":"missing","Unit":null}}"#,
    )));
    assert_eq!(
        post_data.content,
        "<@&678974055365476392> Threshold Crossed: 1 out of the last 1 datapoints [71.58514626666667 (09/04/22 21:01:00)] was less than the threshold (72.0) (minimum 1 datapoint for OK -> ALARM transition).".to_string(),
        "A test alarm should be parsed as a test alarm."
    );
    assert_eq!(post_data.embed.color, RED,);

    post_data = parse_message(&event_with(text(
        r#"{"AlarmName":"_Test","NewStateReason":"테스트","NewStateValue":"OK"}"#,
    )));
    assert_eq!(
        post_data.content,
        "테스트".to_string(),
        "A test alarm should be parsed as a test alarm."
    );
    assert_eq!(post_data.embed.color, GRAY,);
}

#[test]
fn message_to_fields_test() {
    let mut fields;

    fields = message_to_fields(&object(vec![
        ("NewStateReason", text("Threshold Crossed: 1 out of the last 1 datapoints [71.58514626666667 (09/04/22 21:01:00)] was less than the threshold (72.0) (minimum 1 datapoint for OK -> ALARM transition).")),
        ("NewStateValue", text("ALARM")),
        ("OldStateValue", text("OK")),
    ]));
    assert_eq!(fields.len(), 2, "NewStateReason should be removed");
    assert_eq!(fields[1].value, "OK",);

    fields = message_to_fields(&object(vec![
        ("InsufficientDataActions", Json::Array(vec![])),
        ("OKActions", Json::Array(vec![])),
    ]));
    assert_eq!(fields.len(), 2,);
    assert_eq!(fields[1].value, "```json\n[]\n```",);
}

#[test]
fn alarm_example_mentions_and_is_red() {
    let post = parse_message(&event_with(text(
        r#"{"NewStateValue":"ALARM","NewStateReason":"cpu high"}"#,
    )));
    assert!(post.content.starts_with(MENTION));
    assert!(post.content.contains("cpu high"));
    assert_eq!(post.content, format!("{}cpu high", MENTION));
    assert_eq!(post.embed.color, RED);
}

#[test]
fn ok_example_does_not_mention_and_is_green() {
    let c = classify(&event_with(text(r#"{"NewStateValue":"OK"}"#)));
    assert!(!c.notify);
    assert_eq!(c.summary, NO_REASON);
    assert_eq!(c.color, GREEN);
    assert_eq!(c.detail, "{\n  \"NewStateValue\": \"OK\"\n}");
    let post = render(c);
    assert_eq!(post.content, NO_REASON);
    assert_eq!(post.embed.description, "```json\n{\n  \"NewStateValue\": \"OK\"\n}\n```");
}

#[test]
fn ok_with_reason_shows_reason() {
    let c = classify(&event_with(text(r#"{"NewStateValue":"OK","NewStateReason":"back to normal"}"#)));
    assert!(!c.notify);
    assert_eq!(c.color, GREEN);
    assert_eq!(c.summary, "back to normal");
}

#[test]
fn arbitrary_event_is_unknown() {
    let c = classify(&text("arbitrary"));
    assert!(c.notify);
    assert_eq!(c.color, RED);
    assert_eq!(c.summary, UNKNOWN);
    assert_eq!(c.detail, "\"arbitrary\"");
    assert!(c.fields.is_empty());
    let post = parse_message(&text("arbitrary"));
    assert_eq!(post.embed.description, "```json\n\"arbitrary\"\n```");
}

#[test]
fn unknown_event_dump_is_indented() {
    let event = object(vec![("Records", Json::Array(vec![])), ("n", Json::Number("3".to_string()))]);
    let c = classify(&event);
    assert!(c.notify);
    assert_eq!(c.summary, UNKNOWN);
    assert_eq!(c.detail, "{\n  \"Records\": [],\n  \"n\": 3\n}");
}

#[test]
fn message_that_is_not_a_string_is_unknown() {
    let c = classify(&event_with(Json::Number("5".to_string())));
    assert!(c.notify);
    assert_eq!(c.color, RED);
    assert_eq!(c.summary, UNKNOWN);
}

#[test]
fn message_path_lookups() {
    assert!(message_of(&text("x")).is_none());
    assert!(message_of(&object(vec![("Records", Json::Array(vec![]))])).is_none());
    assert!(message_of(&object(vec![("Records", text("not an array"))])).is_none());
    assert!(message_of(&event_with(Json::Null)).is_none());
    assert_eq!(message_of(&event_with(text("m"))).map(|s| s.as_str()), Some("m"));
}

#[test]
fn text_that_is_not_json_is_dumped_as_is() {
    let post = parse_message(&event_with(text("disk full {")));
    assert_eq!(post.content, MENTION);
    assert_eq!(post.embed.color, RED);
    assert_eq!(post.embed.description, "```json\ndisk full {\n```");
    assert!(post.embed.fields.is_empty());
}

#[test]
fn test_alarm_is_gray_whatever_its_state() {
    for state in ["ALARM", "OK", "INSUFFICIENT_DATA"] {
        let message = format!(r#"{{"AlarmName":"_Test","NewStateValue":"{}","NewStateReason":"try"}}"#, state);
        let c = classify(&event_with(text(&message)));
        assert!(!c.notify);
        assert_eq!(c.color, GRAY);
        assert_eq!(c.summary, "try");
    }
}

#[test]
fn other_state_pages_without_summary() {
    let post = parse_message(&event_with(text(
        r#"{"NewStateValue":"INSUFFICIENT_DATA","NewStateReason":"no data"}"#,
    )));
    assert_eq!(post.content, MENTION);
    assert_eq!(post.embed.color, RED);
    let empty = classify(&event_with(text("{}")));
    assert!(empty.notify);
    assert_eq!(empty.summary, "");
    assert!(empty.fields.is_empty());
}

#[test]
fn verdict_table() {
    let alarm = object(vec![("NewStateReason", text("r")), ("NewStateValue", text("ALARM"))]);
    let v = verdict(&alarm);
    assert!(v.notify);
    assert_eq!(v.color, RED);
    assert_eq!(v.summary, "r");

    let v = verdict(&object(vec![("NewStateValue", text("ALARM"))]));
    assert_eq!(v.summary, NO_REASON);

    let v = verdict(&object(vec![("AlarmName", text("_Test")), ("NewStateValue", text("ALARM"))]));
    assert!(!v.notify);
    assert_eq!(v.color, GRAY);

    let v = verdict(&object(vec![("NewStateValue", Json::Bool(true))]));
    assert!(v.notify);
    assert_eq!(v.color, RED);
    assert_eq!(v.summary, "");

    let v = verdict(&text("ALARM"));
    assert!(v.notify);
    assert_eq!(v.summary, "");
}

#[test]
fn fields_skip_reason_and_fence_other_values() {
    let fields = message_to_fields(&object(vec![
        ("AlarmName", text("cpu")),
        ("NewStateReason", text("why")),
        ("Trigger", object(vec![("Period", Json::Number("300".to_string()))])),
        ("Unit", Json::Null),
    ]));
    assert_eq!(fields.len(), 3);
    assert!(fields.iter().all(|f| f.inline && f.name != "NewStateReason"));
    assert_eq!(fields[0].name, "AlarmName");
    assert_eq!(fields[0].value, "cpu");
    assert_eq!(fields[1].name, "Trigger");
    assert_eq!(fields[1].value, "```json\n{\n  \"Period\": 300\n}\n```");
    assert_eq!(fields[2].name, "Unit");
    assert_eq!(fields[2].value, "```json\nnull\n```");
    assert!(message_to_fields(&text("not an object")).is_empty());
}

#[test]
fn parsed_alarm_fields_follow_key_order() {
    let c = classify(&event_with(text(r#"{"b":"1","a":[1,2],"NewStateReason":"x"}"#)));
    assert_eq!(c.fields.len(), 2);
    assert_eq!(c.fields[0].name, "a");
    assert_eq!(c.fields[0].value, "```json\n[\n  1,\n  2\n]\n```");
    assert_eq!(c.fields[1].name, "b");
    assert_eq!(c.fields[1].value, "1");
}

#[test]
fn same_event_gives_same_message() {
    let event = event_with(text(r#"{"NewStateValue":"ALARM","NewStateReason":"cpu high","X":{"y":[true]}}"#));
    let a = parse_message(&event);
    let b = parse_message(&event);
    assert_eq!(a.content, b.content);
    assert_eq!(a.embed.color, b.embed.color);
    assert_eq!(a.embed.description, b.embed.description);
    assert_eq!(a.embed.fields.len(), b.embed.fields.len());
    for (x, y) in a.embed.fields.iter().zip(b.embed.fields.iter()) {
        assert_eq!(x.name, y.name);
        assert_eq!(x.value, y.value);
        assert_eq!(x.inline, y.inline);
    }
}

#[test]
fn fenced_and_render() {
    assert_eq!(fenced("x"), "```json\nx\n```");
    let post = render(Classification {
        notify: true,
        color: RED,
        summary: "s".to_string(),
        detail: "d".to_string(),
        fields: vec![],
    });
    assert_eq!(post.content, format!("{}s", MENTION));
    assert_eq!(post.embed.description, "```json\nd\n```");
    let quiet = render(Classification {
        notify: false,
        color: GREEN,
        summary: "s".to_string(),
        detail: String::new(),
        fields: vec![],
    });
    assert_eq!(quiet.content, "s");
    assert_eq!(quiet.embed.color, GREEN);
}

#[test]
fn well_formed_objects_have_ascending_unique_keys() {
    assert!(object(vec![("a", text("1")), ("b", text("2"))]).is_wf());
    assert!(!object(vec![("b", text("1")), ("a", text("2"))]).is_wf());
    assert!(!object(vec![("a", text("1")), ("a", text("2"))]).is_wf());
    assert!(!Json::Array(vec![object(vec![("b", Json::Null), ("a", Json::Null)])]).is_wf());
    assert!(!object(vec![("x", object(vec![("z", Json::Null), ("y", Json::Null)]))]).is_wf());
    assert!(Json::Array(vec![text("a"), Json::Bool(false), object(vec![])]).is_wf());
    assert!(event_with(text("m")).is_wf());
}

#[test]
fn keys_compare_by_code_point() {
    let k = |s: &str| s.to_string();
    assert!(key_less(&k("a"), &k("b")));
    assert!(!key_less(&k("b"), &k("a")));
    assert!(!key_less(&k("a"), &k("a")));
    assert!(key_less(&k(""), &k("a")));
    assert!(key_less(&k("ab"), &k("abc")));
    assert!(key_less(&k("Z"), &k("a")));
    assert!(key_less(&k("z"), &k("é")));
    assert!(key_less(&k("NewStateReason"), &k("NewStateValue")));
}

#[test]
fn parsed_alarms_are_well_formed_and_drop_repeated_keys() {
    let c = classify(&event_with(text(r#"{"b":"1","a":"x","a":"y"}"#)));
    assert_eq!(c.fields.len(), 2);
    assert_eq!(c.fields[0].name, "a");
    assert_eq!(c.fields[0].value, "y");
    assert_eq!(c.fields[1].name, "b");
}
