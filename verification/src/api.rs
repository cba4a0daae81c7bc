//! The requests of the note service, and what its answers mean.
//!
//! Every request goes through the request executor. An answer is a JSON
//! envelope with a member `data`; a status outside the success range, or an
//! envelope without `data`, is a failure.

use vstd::prelude::*;
use crate::error::{Fault, MiError};
use crate::executor::Method;
use crate::jar::keys_ascend;
use crate::json::{
    json_member, json_object_text, member_views, read_member, write_object, written_view,
};
use crate::models::{Folder, Note};
use crate::sts::is_success;
use crate::text::{
    append, chars_of, decimal, decimal_chars, precedes, signed_decimal, signed_decimal_chars,
    string_of, Text,
};

verus! {

/// A field of a form.
#[derive(Clone, Debug, PartialEq, Eq)]
pub struct FormField {
    pub name: String,
    pub value: String,
}

impl View for FormField {
    type V = (Text, Text);

    open spec fn view(&self) -> (Text, Text) {
        (self.name@, self.value@)
    }
}

/// The name and value of each field, in order.
pub open spec fn field_views(fields: Seq<FormField>) -> Seq<(Text, Text)> {
    fields.map_values(|f: FormField| f@)
}

/// A request to the note service.
#[derive(Clone, Debug, PartialEq, Eq)]
pub struct ApiRequest {
    pub method: Method,
    pub url: String,
    /// The fields of the form that is the body, where the request has one.
    pub form: Option<Vec<FormField>>,
}

/// A request, with texts as character sequences.
pub struct ApiRequestView {
    pub method: Method,
    pub url: Text,
    pub form: Option<Seq<(Text, Text)>>,
}

impl View for ApiRequest {
    type V = ApiRequestView;

    open spec fn view(&self) -> ApiRequestView {
        ApiRequestView {
            method: self.method,
            url: self.url@,
            form: match self.form {
                Some(fields) => Some(field_views(fields@)),
                None => None,
            },
        }
    }
}

/// A `GET` request without a body.
pub open spec fn get_of(url: Text) -> ApiRequestView {
    ApiRequestView { method: Method::Get, url, form: None }
}

/// A `POST` request with a form.
pub open spec fn post_of(url: Text, form: Seq<(Text, Text)>) -> ApiRequestView {
    ApiRequestView { method: Method::Post, url, form: Some(form) }
}

/// What the body of an answer holds: the JSON text of the member `data` of
/// the envelope, `None` where the envelope has no such member, or the
/// message of the parser where the body is no JSON text.
pub open spec fn envelope_data(body: Seq<u8>) -> Result<Option<Text>, Text> {
    match json_member(body, "data"@) {
        Ok(Some(member)) => Ok(Some(member.0)),
        Ok(None) => Ok(None),
        Err(message) => Err(message),
    }
}

/// The text of the JSON object with the given fields as members, which
/// stand in ascending order of name.
fn json_object(fields: &Vec<FormField>) -> (r: Result<String, String>)
    requires
        keys_ascend(field_views(fields@)),
    ensures
        written_view(r) == json_object_text(field_views(fields@)),
{
    let mut members: Vec<(String, String)> = Vec::new();
    let mut i: usize = 0;
    while i < fields.len()
        invariant
            i <= fields.len(),
            member_views(members@) == field_views(fields@).take(i as int),
        decreases fields.len() - i,
    {
        let ghost before = members@;
        members.push((fields[i].name.clone(), fields[i].value.clone()));
        assert(member_views(members@) =~= member_views(before).push(fields@[i as int]@));
        assert(field_views(fields@).take(i + 1) =~= field_views(fields@).take(i as int).push(
            fields@[i as int]@,
        ));
        i += 1;
    }
    assert(field_views(fields@).take(i as int) == field_views(fields@));
    write_object(&members)
}

/// A text precedes another where its first character precedes the first
/// character of the other.
proof fn lemma_precedes_by_first(a: Text, b: Text)
    requires
        a.len() > 0,
        b.len() > 0,
        (a[0] as int) < (b[0] as int),
    ensures
        precedes(a, b),
{
}

/// The names of the members of an entry ascend in the order `content`,
/// `folderId`, `id`, `subject`, `tag`.
proof fn lemma_entry_names_ascend()
    ensures
        precedes("content"@, "folderId"@),
        precedes("content"@, "id"@),
        precedes("content"@, "subject"@),
        precedes("content"@, "tag"@),
        precedes("folderId"@, "id"@),
        precedes("folderId"@, "subject"@),
        precedes("folderId"@, "tag"@),
        precedes("id"@, "subject"@),
        precedes("id"@, "tag"@),
        precedes("subject"@, "tag"@),
{
    reveal_strlit("content");
    reveal_strlit("folderId");
    reveal_strlit("id");
    reveal_strlit("subject");
    reveal_strlit("tag");
    lemma_precedes_by_first("content"@, "folderId"@);
    lemma_precedes_by_first("content"@, "id"@);
    lemma_precedes_by_first("content"@, "subject"@);
    lemma_precedes_by_first("content"@, "tag"@);
    lemma_precedes_by_first("folderId"@, "id"@);
    lemma_precedes_by_first("folderId"@, "subject"@);
    lemma_precedes_by_first("folderId"@, "tag"@);
    lemma_precedes_by_first("id"@, "subject"@);
    lemma_precedes_by_first("id"@, "tag"@);
    lemma_precedes_by_first("subject"@, "tag"@);
}

/// The view of a request that may have failed to be made.
pub open spec fn request_view(r: Result<ApiRequest, MiError>) -> Result<ApiRequestView, Fault> {
    match r {
        Ok(request) => Ok(request@),
        Err(e) => Err(e@),
    }
}

/// The request that posts an entry: a form of the field `first`, the entry
/// as the text of a JSON object, and the service token. Where the entry
/// cannot be written, the failure is that of the writer.
pub open spec fn entry_request(
    url: Text,
    first: (Text, Text),
    entry: Seq<(Text, Text)>,
    service_token: Text,
) -> Result<ApiRequestView, Fault> {
    match json_object_text(entry) {
        Ok(text) => Ok(post_of(url, seq![first, ("entry"@, text), ("serviceToken"@, service_token)])),
        Err(message) => Err(Fault::Parse(message)),
    }
}

/// Makes the request that posts `entry`, whose members stand in ascending
/// order of name.
fn post_entry(url: String, first: FormField, entry: &Vec<FormField>, service_token: &str) -> (r:
    Result<ApiRequest, MiError>)
    requires
        keys_ascend(field_views(entry@)),
    ensures
        request_view(r) == entry_request(url@, first@, field_views(entry@), service_token@),
{
    match json_object(entry) {
        Ok(text) => {
            let mut form: Vec<FormField> = Vec::new();
            form.push(first);
            form.push(field("entry", text.as_str()));
            form.push(field("serviceToken", service_token));
            assert(field_views(form@) =~= seq![
                first@,
                ("entry"@, text@),
                ("serviceToken"@, service_token@),
            ]);
            Ok(ApiRequest { method: Method::Post, url, form: Some(form) })
        },
        Err(message) => Err(MiError::Parse(message)),
    }
}

/// A field with the given name and value.
fn field(name: &str, value: &str) -> (f: FormField)
    ensures
        f@ == (name@, value@),
{
    FormField { name: name.to_owned(), value: value.to_owned() }
}

/// The concatenation of three texts.
fn concat3(a: &str, b: &Vec<char>, c: &str) -> (r: String)
    ensures
        r@ == a@ + b@ + c@,
{
    let mut r = chars_of(a);
    append(&mut r, b);
    let tail = chars_of(c);
    append(&mut r, &tail);
    string_of(&r)
}

/// The address of a page of notes.
pub open spec fn list_notes_url(limit: int, now_ms: nat) -> Text {
    "https://i.mi.com/note/full/page/?limit="@ + signed_decimal(limit) + "&ts="@ + decimal(now_ms)
}

/// The address of one note, for reading it.
pub open spec fn get_note_url(id: Text, now_ms: nat) -> Text {
    "https://i.mi.com/note/note/"@ + id + "?ts="@ + decimal(now_ms)
}

/// The request for a page of at most `limit` notes, at the time `now_ms` in
/// milliseconds.
pub fn list_notes(limit: i32, now_ms: u128) -> (request: ApiRequest)
    ensures
        request@ == get_of(list_notes_url(limit as int, now_ms as nat)),
{
    let mut url = chars_of("https://i.mi.com/note/full/page/?limit=");
    let count = signed_decimal_chars(limit as i64);
    append(&mut url, &count);
    let stamp = chars_of("&ts=");
    append(&mut url, &stamp);
    let digits = decimal_chars(now_ms);
    append(&mut url, &digits);
    ApiRequest { method: Method::Get, url: string_of(&url), form: None }
}

/// The request for the note `id`, at the time `now_ms` in milliseconds.
pub fn get_note(id: &str, now_ms: u128) -> (request: ApiRequest)
    ensures
        request@ == get_of(get_note_url(id@, now_ms as nat)),
{
    let mut url = chars_of("https://i.mi.com/note/note/");
    let name = chars_of(id);
    append(&mut url, &name);
    let stamp = chars_of("?ts=");
    append(&mut url, &stamp);
    let digits = decimal_chars(now_ms);
    append(&mut url, &digits);
    ApiRequest { method: Method::Get, url: string_of(&url), form: None }
}

/// The members of the entry that creates a note, in the order in which
/// they are written: ascending by name.
pub open spec fn create_note_entry(subject: Text, content: Text) -> Seq<(Text, Text)> {
    seq![("content"@, content), ("subject"@, subject)]
}

/// The request that creates a note in the folder `folder_id`: a form of the
/// folder, the entry as the text of a JSON object, and the service token.
pub fn create_note(folder_id: &str, subject: &str, content: &str, service_token: &str) -> (r:
    Result<ApiRequest, MiError>)
    ensures
        request_view(r) == entry_request(
            "https://i.mi.com/note/full/post"@,
            ("folder_id"@, folder_id@),
            create_note_entry(subject@, content@),
            service_token@,
        ),
{
    let mut entry: Vec<FormField> = Vec::new();
    entry.push(field("content", content));
    entry.push(field("subject", subject));
    proof {
        assert(field_views(entry@) =~= create_note_entry(subject@, content@));
        lemma_entry_names_ascend();
    }
    post_entry(
        "https://i.mi.com/note/full/post".to_owned(),
        field("folder_id", folder_id),
        &entry,
        service_token,
    )
}

/// The members of the entry that updates a note, in the order in which they
/// are written: ascending by name, the folder only where one is given.
pub open spec fn update_note_entry(
    id: Text,
    tag: Text,
    subject: Text,
    content: Text,
    folder_id: Option<Text>,
) -> Seq<(Text, Text)> {
    match folder_id {
        Some(folder) => seq![
            ("content"@, content),
            ("folderId"@, folder),
            ("id"@, id),
            ("subject"@, subject),
            ("tag"@, tag),
        ],
        None => seq![("content"@, content), ("id"@, id), ("subject"@, subject), ("tag"@, tag)],
    }
}

/// The request that updates the note `id`: a form of the tag, the entry as
/// the text of a JSON object, and the service token.
pub fn update_note(
    id: &str,
    tag: &str,
    subject: &str,
    content: &str,
    folder_id: Option<&str>,
    service_token: &str,
) -> (r: Result<ApiRequest, MiError>)
    ensures
        request_view(r) == entry_request(
            "https://i.mi.com/note/note/"@ + id@,
            ("tag"@, tag@),
            update_note_entry(
                id@,
                tag@,
                subject@,
                content@,
                match folder_id {
                    Some(folder) => Some(folder@),
                    None => None,
                },
            ),
            service_token@,
        ),
{
    let mut entry: Vec<FormField> = Vec::new();
    entry.push(field("content", content));
    if let Some(folder) = folder_id {
        entry.push(field("folderId", folder));
    }
    entry.push(field("id", id));
    entry.push(field("subject", subject));
    entry.push(field("tag", tag));
    proof {
        assert(field_views(entry@) =~= update_note_entry(
            id@,
            tag@,
            subject@,
            content@,
            match folder_id {
                Some(folder) => Some(folder@),
                None => None,
            },
        ));
        lemma_entry_names_ascend();
    }
    let url = concat3("https://i.mi.com/note/note/", &chars_of(id), "");
    proof {
        reveal_strlit("");
        assert("https://i.mi.com/note/note/"@ + id@ + ""@ =~= "https://i.mi.com/note/note/"@ + id@);
    }
    post_entry(url, field("tag", tag), &entry, service_token)
}

/// The text of a truth value.
pub open spec fn bool_text(b: bool) -> Text {
    if b {
        "true"@
    } else {
        "false"@
    }
}

/// The request that deletes the note `id`, for good where `purge` is set.
pub fn delete_note(id: &str, tag: &str, purge: bool, service_token: &str) -> (request: ApiRequest)
    ensures
        request@ == post_of(
            "https://i.mi.com/note/full/"@ + id@ + "/delete"@,
            seq![("tag"@, tag@), ("purge"@, bool_text(purge)), ("serviceToken"@, service_token@)],
        ),
{
    let mut form: Vec<FormField> = Vec::new();
    form.push(field("tag", tag));
    form.push(field("purge", if purge { "true" } else { "false" }));
    form.push(field("serviceToken", service_token));
    assert(field_views(form@) =~= seq![
        ("tag"@, tag@),
        ("purge"@, bool_text(purge)),
        ("serviceToken"@, service_token@),
    ]);
    let url = concat3("https://i.mi.com/note/full/", &chars_of(id), "/delete");
    ApiRequest { method: Method::Post, url, form: Some(form) }
}

/// The request that creates a folder named `subject`.
pub fn create_folder(subject: &str, service_token: &str) -> (request: ApiRequest)
    ensures
        request@ == post_of(
            "https://i.mi.com/note/folder/post"@,
            seq![("subject"@, subject@), ("serviceToken"@, service_token@)],
        ),
{
    let mut form: Vec<FormField> = Vec::new();
    form.push(field("subject", subject));
    form.push(field("serviceToken", service_token));
    assert(field_views(form@) =~= seq![("subject"@, subject@), ("serviceToken"@, service_token@)]);
    ApiRequest {
        method: Method::Post,
        url: "https://i.mi.com/note/folder/post".to_owned(),
        form: Some(form),
    }
}

/// The request that deletes the folder `id`.
pub fn delete_folder(id: &str, tag: &str, service_token: &str) -> (request: ApiRequest)
    ensures
        request@ == post_of(
            "https://i.mi.com/note/folder/"@ + id@ + "/delete"@,
            seq![("tag"@, tag@), ("serviceToken"@, service_token@)],
        ),
{
    let mut form: Vec<FormField> = Vec::new();
    form.push(field("tag", tag));
    form.push(field("serviceToken", service_token));
    assert(field_views(form@) =~= seq![("tag"@, tag@), ("serviceToken"@, service_token@)]);
    let url = concat3("https://i.mi.com/note/folder/", &chars_of(id), "/delete");
    ApiRequest { method: Method::Post, url, form: Some(form) }
}

/// The request that renames the folder `id` to `subject`.
pub fn update_folder(id: &str, tag: &str, subject: &str, service_token: &str) -> (request:
    ApiRequest)
    ensures
        request@ == post_of(
            "https://i.mi.com/note/folder/"@ + id@,
            seq![("tag"@, tag@), ("subject"@, subject@), ("serviceToken"@, service_token@)],
        ),
{
    let mut form: Vec<FormField> = Vec::new();
    form.push(field("tag", tag));
    form.push(field("subject", subject));
    form.push(field("serviceToken", service_token));
    assert(field_views(form@) =~= seq![
        ("tag"@, tag@),
        ("subject"@, subject@),
        ("serviceToken"@, service_token@),
    ]);
    let url = concat3("https://i.mi.com/note/folder/", &chars_of(id), "");
    proof {
        reveal_strlit("");
        assert("https://i.mi.com/note/folder/"@ + id@ + ""@ =~= "https://i.mi.com/note/folder/"@
            + id@);
    }
    ApiRequest { method: Method::Post, url, form: Some(form) }
}

/// The message of the failure when an answer has the status `status`:
/// `what`, the words ` failed with status: ` and the status.
pub open spec fn status_message(what: Text, status: u16) -> Text {
    what + " failed with status: "@ + decimal(status as nat)
}

/// Accepts an answer by its status: a status in the success range passes,
/// any other is a failure that names `what` was asked for.
pub fn check_status(what: &str, status: u16) -> (r: Result<(), MiError>)
    ensures
        is_success(status) ==> r is Ok,
        !is_success(status) ==> r is Err && r->Err_0@ == Fault::Api(status_message(what@, status)),
{
    if 200 <= status && status < 300 {
        Ok(())
    } else {
        let digits = decimal_chars(status as u128);
        let mut message = chars_of(what);
        let words = chars_of(" failed with status: ");
        append(&mut message, &words);
        append(&mut message, &digits);
        Err(MiError::Api(string_of(&message)))
    }
}

/// What an answer with this status means, given what its body holds: the
/// JSON text of its data, or the failure.
pub open spec fn answer_of(status: u16, held: Result<Option<Text>, Text>) -> Result<Text, Fault> {
    if !is_success(status) {
        Err(Fault::Api(status_message("Request"@, status)))
    } else {
        match held {
            Err(message) => Err(Fault::Parse(message)),
            Ok(None) => Err(Fault::Api("no data in response"@)),
            Ok(Some(data)) => Ok(data),
        }
    }
}

/// Interprets an answer, given what its body holds.
pub fn interpret_answer(status: u16, held: Result<Option<String>, String>) -> (r: Result<
    String,
    MiError,
>)
    ensures
        match r {
            Ok(data) => answer_of(
                status,
                match held {
                    Ok(Some(d)) => Ok(Some(d@)),
                    Ok(None) => Ok(None),
                    Err(m) => Err(m@),
                },
            ) == Ok::<Text, Fault>(data@),
            Err(e) => answer_of(
                status,
                match held {
                    Ok(Some(d)) => Ok(Some(d@)),
                    Ok(None) => Ok(None),
                    Err(m) => Err(m@),
                },
            ) == Err::<Text, Fault>(e@),
        },
{
    match check_status("Request", status) {
        Err(e) => Err(e),
        Ok(()) => match held {
            Err(message) => Err(MiError::Parse(message)),
            Ok(None) => Err(MiError::Api("no data in response".to_owned())),
            Ok(Some(data)) => Ok(data),
        },
    }
}

/// The data of an answer: the JSON text of the member `data` of the
/// envelope in the body. A status outside the success range is a failure
/// whatever the body holds; then a body that is no JSON text; then an
/// envelope without `data`.
pub fn data_of(status: u16, body: &Vec<u8>) -> (r: Result<String, MiError>)
    ensures
        match r {
            Ok(data) => answer_of(status, envelope_data(body@)) == Ok::<Text, Fault>(data@),
            Err(e) => answer_of(status, envelope_data(body@)) == Err::<Text, Fault>(e@),
        },
{
    let held = match read_member(body, "data") {
        Ok(Some(member)) => Ok(Some(member.0)),
        Ok(None) => Ok(None),
        Err(message) => Err(message),
    };
    interpret_answer(status, held)
}

/// The first of two readings of an answer that succeeded.
pub fn prefer<T>(wrapped: Option<T>, direct: Option<T>) -> (r: Option<T>)
    ensures
        r == match wrapped {
            Some(value) => Some(value),
            None => direct,
        },
{
    match wrapped {
        Some(value) => Some(value),
        None => direct,
    }
}

impl Note {
    /// The note to report when the service accepted a new note without
    /// describing it: named `synthetic`, in the given folder, with the given
    /// subject, and otherwise as the default note.
    pub fn created(folder_id: &str, subject: &str) -> (note: Note)
        ensures
            note.id@ == "synthetic"@,
            note.folder_id is Some && note.folder_id->0@ == folder_id@,
            note.subject@ == subject@,
            note.snippet@.len() == 0 && note.tag@.len() == 0 && note.status@.len() == 0,
            note.color_id == 0 && note.create_date == 0 && note.modify_date == 0,
            note.title is None && note.content is None && note.extra_info is None
                && note.setting is None,
    {
        let mut note = Note::default();
        note.id = "synthetic".to_owned();
        note.folder_id = Some(folder_id.to_owned());
        note.subject = subject.to_owned();
        note
    }

    /// The note to report when the service accepted an update without
    /// describing the note: with the given name, folder, subject and tag,
    /// and otherwise as the default note.
    pub fn updated(id: &str, folder_id: Option<&str>, subject: &str, tag: &str) -> (note: Note)
        ensures
            note.id@ == id@,
            match folder_id {
                Some(folder) => note.folder_id is Some && note.folder_id->0@ == folder@,
                None => note.folder_id is None,
            },
            note.subject@ == subject@,
            note.tag@ == tag@,
            note.snippet@.len() == 0 && note.status@.len() == 0,
            note.color_id == 0 && note.create_date == 0 && note.modify_date == 0,
            note.title is None && note.content is None && note.extra_info is None
                && note.setting is None,
    {
        let mut note = Note::default();
        note.id = id.to_owned();
        note.folder_id = match folder_id {
            Some(folder) => Some(folder.to_owned()),
            None => None,
        };
        note.subject = subject.to_owned();
        note.tag = tag.to_owned();
        note
    }
}

impl Folder {
    /// The folder to report when the service accepted a new folder without
    /// describing it: named `synthetic`, with the given subject, and
    /// otherwise as the default folder.
    pub fn created(subject: &str) -> (folder: Folder)
        ensures
            folder.id@ == "synthetic"@,
            folder.subject@ == subject@,
            folder.tag@.len() == 0,
            folder.folder_id is None && folder.create_date == 0 && folder.modify_date == 0,
    {
        let mut folder = Folder::default();
        folder.id = "synthetic".to_owned();
        folder.subject = subject.to_owned();
        folder
    }

    /// The folder to report when the service accepted an update without
    /// describing the folder: with the given name, subject and tag, and
    /// otherwise as the default folder.
    pub fn updated(id: &str, subject: &str, tag: &str) -> (folder: Folder)
        ensures
            folder.id@ == id@,
            folder.subject@ == subject@,
            folder.tag@ == tag@,
            folder.folder_id is None && folder.create_date == 0 && folder.modify_date == 0,
    {
        let mut folder = Folder::default();
        folder.id = id.to_owned();
        folder.subject = subject.to_owned();
        folder.tag = tag.to_owned();
        folder
    }
}

} // verus!
