use command_tally::classify::find_command;
use command_tally::kind::{OperationKind, KIND_COUNT};
use command_tally::record::{classify, read_record, timestamp_day, LogRecord, RecordError};

fn json(text: &str) -> serde_json::Value {
    serde_json::from_str(text).unwrap()
}

#[test]
fn find_and_get_more_classifies_as_find() {
    let command = json(r#"{"find": {"coll": "a"}, "getMore": {"n": 1}}"#);
    assert_eq!(find_command(&command), Some(OperationKind::Find));
}

#[test]
fn key_order_in_the_document_does_not_matter() {
    let command = json(r#"{"update": 1, "getMore": {"n": 1}, "find": {"coll": "a"}}"#);
    assert_eq!(find_command(&command), Some(OperationKind::Find));
    let command = json(r#"{"update": 1, "insert": 2, "delete": 3}"#);
    assert_eq!(find_command(&command), Some(OperationKind::Delete));
}

#[test]
fn every_kind_is_found_by_its_name() {
    let names = ["delete", "find", "findAndModify", "getMore", "insert", "resetError", "update"];
    assert_eq!(names.len(), KIND_COUNT);
    for (index, name) in names.iter().enumerate() {
        let kind = OperationKind::from_index(index).unwrap();
        assert_eq!(kind.name(), *name);
        assert_eq!(kind.index(), index);
        let command = json(&format!(r#"{{"{}": {{}}, "lsid": 7}}"#, name));
        assert_eq!(find_command(&command), Some(kind));
    }
    assert_eq!(OperationKind::from_index(KIND_COUNT), None);
    assert_eq!(OperationKind::from_index(usize::MAX), None);
}

#[test]
fn find_and_modify_is_not_mistaken_for_find() {
    let command = json(r#"{"findAndModify": "orders"}"#);
    assert_eq!(find_command(&command), Some(OperationKind::FindAndModify));
}

#[test]
fn names_are_case_sensitive() {
    assert_eq!(find_command(&json(r#"{"Insert": 1, "FIND": 2, "getmore": 3}"#)), None);
}

#[test]
fn unrecognized_commands_are_not_classified() {
    assert_eq!(find_command(&json(r#"{"aggregate": "orders", "pipeline": []}"#)), None);
    assert_eq!(find_command(&json("{}")), None);
}

#[test]
fn a_command_that_is_no_object_is_not_classified() {
    assert_eq!(find_command(&json(r#""find""#)), None);
    assert_eq!(find_command(&json(r#"["find", "insert"]"#)), None);
    assert_eq!(find_command(&json("null")), None);
    assert_eq!(find_command(&json("17")), None);
}

#[test]
fn a_member_of_any_value_counts_as_named() {
    assert_eq!(find_command(&json(r#"{"insert": null}"#)), Some(OperationKind::Insert));
}

#[test]
fn classify_reads_the_command_under_attr() {
    let document = json(r#"{"attr": {"command": {"getMore": 1, "update": 2}}}"#);
    assert_eq!(classify(&document), Some(OperationKind::GetMore));
}

#[test]
fn classify_skips_documents_without_a_command() {
    assert_eq!(classify(&json(r#"{"t": {"$date": "2023-05-25T10:15:30Z"}}"#)), None);
    assert_eq!(classify(&json(r#"{"attr": {"message": "insert"}}"#)), None);
    assert_eq!(classify(&json(r#"{"attr": "command"}"#)), None);
    assert_eq!(classify(&json(r#"{"command": {"insert": 1}}"#)), None);
}

#[test]
fn timestamp_day_is_the_day_number_of_the_date() {
    let document = json(r#"{"t": {"$date": "2023-05-25T10:15:30Z"}}"#);
    assert_eq!(timestamp_day(&document), Ok(738665));
    let expected = chrono::Datelike::num_days_from_ce(
        &chrono::NaiveDate::from_ymd_opt(2023, 5, 25).unwrap(),
    );
    assert_eq!(timestamp_day(&document), Ok(expected));
    let document = json(r#"{"t": {"$date": "1970-01-01T00:00:00+00:00"}}"#);
    assert_eq!(timestamp_day(&document), Ok(719163));
}

#[test]
fn timestamp_day_is_the_local_date_of_the_timestamp() {
    let document = json(r#"{"t": {"$date": "2023-05-25T23:30:00.123-05:00"}}"#);
    assert_eq!(timestamp_day(&document), Ok(738665));
    let document = json(r#"{"t": {"$date": "2023-05-26T00:30:00+09:00"}}"#);
    assert_eq!(timestamp_day(&document), Ok(738666));
}

#[test]
fn timestamp_day_refuses_what_is_no_timestamp() {
    let refused = Err(RecordError::MissingOrInvalidTimestamp);
    assert_eq!(timestamp_day(&json(r#"{"t": {"$date": "not-a-date"}}"#)), refused);
    assert_eq!(timestamp_day(&json(r#"{"t": {"$date": "2023-05-25"}}"#)), refused);
    assert_eq!(timestamp_day(&json(r#"{"t": {"$date": "2023-02-30T10:15:30Z"}}"#)), refused);
    assert_eq!(timestamp_day(&json(r#"{"t": {"$date": 1685009730}}"#)), refused);
    assert_eq!(timestamp_day(&json(r#"{"t": {"date": "2023-05-25T10:15:30Z"}}"#)), refused);
    assert_eq!(timestamp_day(&json(r#"{"t": "2023-05-25T10:15:30Z"}"#)), refused);
    assert_eq!(timestamp_day(&json(r#"{"attr": {"command": {"find": 1}}}"#)), refused);
    assert_eq!(timestamp_day(&json("[]")), refused);
}

#[test]
fn read_record_reads_day_and_kind() {
    let line = r#"{"t": {"$date": "2023-05-25T10:15:30Z"}, "attr": {"command": {"insert": "c"}}}"#;
    assert_eq!(
        read_record(line),
        Ok(LogRecord { day: 738665, kind: Some(OperationKind::Insert) })
    );
}

#[test]
fn read_record_without_attr_is_a_record_without_kind() {
    let line = r#"{"t": {"$date": "2023-05-25T10:15:30Z"}, "msg": "started"}"#;
    assert_eq!(read_record(line), Ok(LogRecord { day: 738665, kind: None }));
}

#[test]
fn read_record_refuses_text_that_is_no_json() {
    assert_eq!(read_record("not json"), Err(RecordError::MalformedRecord));
    assert_eq!(read_record(""), Err(RecordError::MalformedRecord));
    assert_eq!(read_record(r#"{"t": {"$date": "2023-05-25T10:15:30Z"}"#), Err(RecordError::MalformedRecord));
    assert_eq!(read_record(r#"{"t": 1} trailing"#), Err(RecordError::MalformedRecord));
}

#[test]
fn read_record_checks_the_timestamp_before_the_command() {
    let line = r#"{"t": {"$date": "not-a-date"}, "attr": {"command": {"insert": "c"}}}"#;
    assert_eq!(read_record(line), Err(RecordError::MissingOrInvalidTimestamp));
    let line = r#"{"t": {"$date": "not-a-date"}}"#;
    assert_eq!(read_record(line), Err(RecordError::MissingOrInvalidTimestamp));
}
