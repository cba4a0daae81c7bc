use minote::api::{
    check_status, create_folder, create_note, data_of, delete_folder, delete_note, get_note,
    interpret_answer, list_notes, prefer, update_folder, update_note, ApiRequest, FormField,
};
use minote::error::MiError;
use minote::executor::Method;
use minote::models::{Folder, Note};

fn fields(request: &ApiRequest) -> Vec<(String, String)> {
    request
        .form
        .as_ref()
        .map(|form| form.iter().map(|f| (f.name.clone(), f.value.clone())).collect())
        .unwrap_or_default()
}

fn pair(name: &str, value: &str) -> (String, String) {
    (name.to_string(), value.to_string())
}

#[test]
fn reading_requests_are_time_stamped_gets() {
    assert_eq!(
        list_notes(100, 1234567890123),
        ApiRequest {
            method: Method::Get,
            url: "https://i.mi.com/note/full/page/?limit=100&ts=1234567890123".to_string(),
            form: None,
        }
    );
    assert_eq!(list_notes(-5, 0).url, "https://i.mi.com/note/full/page/?limit=-5&ts=0");
    assert_eq!(
        list_notes(i32::MIN, 7).url,
        "https://i.mi.com/note/full/page/?limit=-2147483648&ts=7"
    );
    assert_eq!(
        get_note("42", u128::MAX).url,
        "https://i.mi.com/note/note/42?ts=340282366920938463463374607431768211455"
    );
    assert_eq!(get_note("42", 9).method, Method::Get);
    assert_eq!(get_note("42", 9).form, None);
}

#[test]
fn creating_a_note_posts_the_entry_as_json() {
    let request = create_note("7", "Sub \"ject\"", "line\nbreak", "TOKEN").unwrap();
    assert_eq!(request.method, Method::Post);
    assert_eq!(request.url, "https://i.mi.com/note/full/post");
    assert_eq!(
        fields(&request),
        vec![
            pair("folder_id", "7"),
            pair("entry", "{\"content\":\"line\\nbreak\",\"subject\":\"Sub \\\"ject\\\"\"}"),
            pair("serviceToken", "TOKEN"),
        ]
    );
    let entry: serde_json::Value = serde_json::from_str(&fields(&request)[1].1).unwrap();
    assert_eq!(entry.get("subject").and_then(|v| v.as_str()), Some("Sub \"ject\""));
    assert_eq!(entry.get("content").and_then(|v| v.as_str()), Some("line\nbreak"));
}

#[test]
fn updating_a_note_names_the_folder_only_when_given() {
    let with = update_note("9", "t1", "S", "C", Some("3"), "TOKEN").unwrap();
    assert_eq!(with.url, "https://i.mi.com/note/note/9");
    assert_eq!(
        fields(&with),
        vec![
            pair("tag", "t1"),
            pair(
                "entry",
                "{\"content\":\"C\",\"folderId\":\"3\",\"id\":\"9\",\"subject\":\"S\",\"tag\":\"t1\"}"
            ),
            pair("serviceToken", "TOKEN"),
        ]
    );
    let without = update_note("9", "t1", "S", "C", None, "TOKEN").unwrap();
    assert_eq!(
        fields(&without)[1],
        pair("entry", "{\"content\":\"C\",\"id\":\"9\",\"subject\":\"S\",\"tag\":\"t1\"}")
    );
}

#[test]
fn deleting_and_folder_requests_are_posts() {
    let request = delete_note("5", "t", true, "TOKEN");
    assert_eq!(request.url, "https://i.mi.com/note/full/5/delete");
    assert_eq!(
        fields(&request),
        vec![pair("tag", "t"), pair("purge", "true"), pair("serviceToken", "TOKEN")]
    );
    assert_eq!(fields(&delete_note("5", "t", false, "TOKEN"))[1], pair("purge", "false"));

    let request = create_folder("Work", "TOKEN");
    assert_eq!(request.url, "https://i.mi.com/note/folder/post");
    assert_eq!(fields(&request), vec![pair("subject", "Work"), pair("serviceToken", "TOKEN")]);

    let request = delete_folder("8", "t", "TOKEN");
    assert_eq!(request.url, "https://i.mi.com/note/folder/8/delete");
    assert_eq!(fields(&request), vec![pair("tag", "t"), pair("serviceToken", "TOKEN")]);

    let request = update_folder("8", "t", "Home", "TOKEN");
    assert_eq!(request.method, Method::Post);
    assert_eq!(request.url, "https://i.mi.com/note/folder/8");
    assert_eq!(
        request.form,
        Some(vec![
            FormField { name: "tag".to_string(), value: "t".to_string() },
            FormField { name: "subject".to_string(), value: "Home".to_string() },
            FormField { name: "serviceToken".to_string(), value: "TOKEN".to_string() },
        ])
    );
}

#[test]
fn status_outside_the_success_range_is_a_failure() {
    assert_eq!(check_status("Delete", 200), Ok(()));
    assert_eq!(check_status("Delete", 299), Ok(()));
    assert_eq!(
        check_status("Delete", 300),
        Err(MiError::Api("Delete failed with status: 300".to_string()))
    );
    assert_eq!(
        check_status("Delete folder", 199),
        Err(MiError::Api("Delete folder failed with status: 199".to_string()))
    );
}

#[test]
fn data_is_the_member_of_the_envelope() {
    let body = b"{\"data\":{\"entries\":[],\"lastPage\":true},\"code\":0}".to_vec();
    assert_eq!(data_of(200, &body), Ok("{\"entries\":[],\"lastPage\":true}".to_string()));
    assert_eq!(data_of(200, &b"{\"data\": null}".to_vec()), Ok("null".to_string()));
    assert_eq!(
        data_of(500, &body),
        Err(MiError::Api("Request failed with status: 500".to_string()))
    );
    assert_eq!(
        data_of(200, &b"{\"code\":0}".to_vec()),
        Err(MiError::Api("no data in response".to_string()))
    );
    assert_eq!(
        data_of(200, &b"[1,2]".to_vec()),
        Err(MiError::Api("no data in response".to_string()))
    );
    assert!(matches!(data_of(200, &b"<html>".to_vec()), Err(MiError::Parse(_))));
    assert!(matches!(data_of(200, &Vec::new()), Err(MiError::Parse(_))));
}

#[test]
fn answers_are_interpreted_status_first() {
    assert_eq!(interpret_answer(204, Ok(Some("1".to_string()))), Ok("1".to_string()));
    assert_eq!(
        interpret_answer(404, Ok(Some("1".to_string()))),
        Err(MiError::Api("Request failed with status: 404".to_string()))
    );
    assert_eq!(
        interpret_answer(404, Err("bad".to_string())),
        Err(MiError::Api("Request failed with status: 404".to_string()))
    );
    assert_eq!(interpret_answer(200, Err("bad".to_string())), Err(MiError::Parse("bad".to_string())));
    assert_eq!(
        interpret_answer(200, Ok(None)),
        Err(MiError::Api("no data in response".to_string()))
    );
}

#[test]
fn wrapped_reading_is_preferred_to_direct_reading() {
    assert_eq!(prefer(Some(1), Some(2)), Some(1));
    assert_eq!(prefer(None, Some(2)), Some(2));
    assert_eq!(prefer(Some(1), None), Some(1));
    assert_eq!(prefer::<u8>(None, None), None);
}

#[test]
fn stand_in_notes_and_folders_echo_the_request() {
    let created = Note::created("7", "Subject");
    assert_eq!(
        created,
        Note {
            id: "synthetic".to_string(),
            folder_id: Some("7".to_string()),
            subject: "Subject".to_string(),
            ..Note::default()
        }
    );
    let updated = Note::updated("9", None, "S", "t1");
    assert_eq!(
        updated,
        Note { id: "9".to_string(), subject: "S".to_string(), tag: "t1".to_string(), ..Note::default() }
    );
    assert_eq!(Note::updated("9", Some("3"), "S", "t1").folder_id, Some("3".to_string()));
    assert_eq!(
        Folder::created("Work"),
        Folder { id: "synthetic".to_string(), subject: "Work".to_string(), ..Folder::default() }
    );
    assert_eq!(
        Folder::updated("8", "Home", "t"),
        Folder {
            id: "8".to_string(),
            subject: "Home".to_string(),
            tag: "t".to_string(),
            ..Folder::default()
        }
    );
}

#[test]
fn entry_members_are_written_in_ascending_order_of_name() {
    let request = update_note("i", "t", "s", "c", Some("f"), "TOKEN").unwrap();
    let entry = &fields(&request)[1].1;
    let names = ["\"content\"", "\"folderId\"", "\"id\"", "\"subject\"", "\"tag\""];
    let places: Vec<usize> = names.iter().map(|n| entry.find(n).unwrap()).collect();
    assert!(places.windows(2).all(|w| w[0] < w[1]));
    let same = update_note("x", "x", "x", "x", Some("x"), "x").unwrap();
    assert_eq!(
        fields(&same)[1].1,
        "{\"content\":\"x\",\"folderId\":\"x\",\"id\":\"x\",\"subject\":\"x\",\"tag\":\"x\"}"
    );
    let odd = create_note("", "\u{1}\\", "\u{10000}é", "").unwrap();
    assert_eq!(
        fields(&odd),
        vec![
            pair("folder_id", ""),
            pair("entry", "{\"content\":\"\u{10000}é\",\"subject\":\"\\u0001\\\\\"}"),
            pair("serviceToken", ""),
        ]
    );
}
