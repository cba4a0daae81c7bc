//! Notes and folders as the service reports them, and the plain text of a
//! note.

use vstd::prelude::*;
use vstd::string::{StrSliceExecFns, StringSliceAdditionalSpecFns};
use vstd::utf8::encode_utf8;
use crate::json::{json_member, read_member, Member, MemberView};
use crate::text::{
    chars_of, free_of, is_trimmed, lemma_replaced_keeps_free, lemma_replaced_removes,
    lemma_trim_leaves, replace, replaced, same_text, string_of, text_view, trim, trimmed, Text,
};

verus! {

/// The view settings of a note.
#[derive(Clone, Debug, PartialEq, Eq)]
pub struct Setting {
    /// The data of the setting, as JSON text.
    pub data: Option<String>,
    pub theme_id: i32,
    pub version: i32,
    pub sticky_time: i64,
}

/// A note.
#[derive(Clone, Debug, PartialEq, Eq)]
pub struct Note {
    pub id: String,
    pub folder_id: Option<String>,
    pub color_id: i32,
    pub create_date: i64,
    pub modify_date: i64,
    pub subject: String,
    pub title: Option<String>,
    pub snippet: String,
    pub content: Option<String>,
    pub extra_info: Option<String>,
    pub tag: String,
    pub status: String,
    pub setting: Option<Setting>,
}

/// A folder of notes.
#[derive(Clone, Debug, PartialEq, Eq)]
pub struct Folder {
    pub id: String,
    pub folder_id: Option<String>,
    pub create_date: i64,
    pub modify_date: i64,
    pub subject: String,
    pub tag: String,
}

/// A file attached to a note.
#[derive(Clone, Debug, PartialEq, Eq)]
pub struct FileData {
    pub digest: String,
    pub file_id: String,
    pub mime_type: String,
}

/// A page of notes.
#[derive(Debug, PartialEq, Eq)]
pub struct NotesResponse {
    pub entries: Vec<Note>,
    pub folders: Option<Vec<Folder>>,
    pub last_page: bool,
    pub sync_tag: Option<String>,
}

/// An answer that holds one note.
#[derive(Debug, PartialEq, Eq)]
pub struct EntryResponse {
    pub entry: Note,
}

/// An answer that holds one folder.
#[derive(Debug, PartialEq, Eq)]
pub struct FolderResponse {
    pub folder: Folder,
}

/// The text of an identifier that the service gave as the JSON value
/// `member`: the string itself where the value is a string, else the value
/// as JSON text, so that a number is its numeral.
pub open spec fn id_of(member: MemberView) -> Text {
    match member.1 {
        Some(string) => string,
        None => member.0,
    }
}

/// The text of an optional identifier: none where the JSON value is `null`,
/// else the text of the identifier.
pub open spec fn optional_id_of(member: MemberView) -> Option<Text> {
    if member.1 is None && member.0 == "null"@ {
        None
    } else {
        Some(id_of(member))
    }
}

/// The view of a member.
pub open spec fn member_view(member: Member) -> MemberView {
    (member.0@, text_view(member.1))
}

/// The text of an identifier that the service gave as a JSON value, a
/// string or a number as it pleases.
pub fn id_text(member: Member) -> (id: String)
    ensures
        id@ == id_of(member_view(member)),
{
    match member.1 {
        Some(string) => string,
        None => member.0,
    }
}

/// The text of an optional identifier that the service gave as a JSON
/// value: `None` for `null`.
pub fn optional_id_text(member: Member) -> (id: Option<String>)
    ensures
        text_view(id) == optional_id_of(member_view(member)),
{
    match member.1 {
        Some(string) => Some(string),
        None => {
            if same_text(&chars_of(member.0.as_str()), &chars_of("null")) {
                None
            } else {
                Some(member.0)
            }
        },
    }
}

impl Default for Setting {
    fn default() -> (r: Self)
        ensures
            r.data is None,
            r.theme_id == 0,
            r.version == 0,
            r.sticky_time == 0,
    {
        Setting { data: None, theme_id: 0, version: 0, sticky_time: 0 }
    }
}

impl Default for Note {
    /// The note whose texts are empty, whose numbers are zero and whose
    /// optional fields are absent.
    fn default() -> (r: Self)
        ensures
            r.id@.len() == 0,
            r.folder_id is None,
            r.color_id == 0,
            r.create_date == 0,
            r.modify_date == 0,
            r.subject@.len() == 0,
            r.title is None,
            r.snippet@.len() == 0,
            r.content is None,
            r.extra_info is None,
            r.tag@.len() == 0,
            r.status@.len() == 0,
            r.setting is None,
    {
        Note {
            id: String::new(),
            folder_id: None,
            color_id: 0,
            create_date: 0,
            modify_date: 0,
            subject: String::new(),
            title: None,
            snippet: String::new(),
            content: None,
            extra_info: None,
            tag: String::new(),
            status: String::new(),
            setting: None,
        }
    }
}

impl Default for Folder {
    /// The folder whose texts are empty, whose numbers are zero and which
    /// lies in no folder.
    fn default() -> (r: Self)
        ensures
            r.id@.len() == 0,
            r.folder_id is None,
            r.create_date == 0,
            r.modify_date == 0,
            r.subject@.len() == 0,
            r.tag@.len() == 0,
    {
        Folder {
            id: String::new(),
            folder_id: None,
            create_date: 0,
            modify_date: 0,
            subject: String::new(),
            tag: String::new(),
        }
    }
}

/// `s` with the six character entities decoded, one after the other:
/// `&nbsp;`, `&lt;`, `&gt;`, `&amp;`, `&quot;`, `&apos;`.
pub open spec fn decoded(s: Text) -> Text {
    let s1 = replaced(s, "&nbsp;"@, " "@);
    let s2 = replaced(s1, "&lt;"@, "<"@);
    let s3 = replaced(s2, "&gt;"@, ">"@);
    let s4 = replaced(s3, "&amp;"@, "&"@);
    let s5 = replaced(s4, "&quot;"@, "\""@);
    replaced(s5, "&apos;"@, "'"@)
}

/// The characters of `s` that stand outside tags. A tag begins at `<` and
/// ends at the next `>`; `in_tag` says whether `s` begins inside one. The
/// characters `<` and `>` never remain.
pub open spec fn outside_tags(s: Text, in_tag: bool) -> Text
    decreases s.len(),
{
    if s.len() == 0 {
        s
    } else if s[0] == '<' {
        outside_tags(s.skip(1), true)
    } else if s[0] == '>' {
        outside_tags(s.skip(1), false)
    } else if in_tag {
        outside_tags(s.skip(1), true)
    } else {
        seq![s[0]] + outside_tags(s.skip(1), false)
    }
}

/// The text of `s` with entities decoded and tags removed, line breaks
/// kept.
pub open spec fn plain_lines(s: Text) -> Text {
    outside_tags(decoded(s), false)
}

/// The text of `s` on one line: entities decoded, tags removed, every line
/// feed and carriage return replaced by a blank, and the whole trimmed.
pub open spec fn plain_line(s: Text) -> Text {
    trim(replaced(replaced(plain_lines(s), "\n"@, " "@), "\r"@, " "@))
}

/// Decodes entities and removes tags, as characters.
fn strip_chars(text: &str) -> (r: Vec<char>)
    ensures
        r@ == plain_lines(text@),
{
    let v = chars_of(text);
    let v = replace(&v, &chars_of("&nbsp;"), &chars_of(" "));
    let v = replace(&v, &chars_of("&lt;"), &chars_of("<"));
    let v = replace(&v, &chars_of("&gt;"), &chars_of(">"));
    let v = replace(&v, &chars_of("&amp;"), &chars_of("&"));
    let v = replace(&v, &chars_of("&quot;"), &chars_of("\""));
    let v = replace(&v, &chars_of("&apos;"), &chars_of("'"));
    let mut r: Vec<char> = Vec::new();
    let mut in_tag = false;
    let mut i: usize = 0;
    proof {
        assert(v@.skip(0) == v@);
    }
    while i < v.len()
        invariant
            i <= v.len(),
            r@ + outside_tags(v@.skip(i as int), in_tag) == outside_tags(v@, false),
        decreases v.len() - i,
    {
        let c = v[i];
        let ghost rest = v@.skip(i as int);
        let ghost before = r@;
        proof {
            assert(rest[0] == c);
            assert(rest.skip(1) == v@.skip(i + 1));
        }
        if c == '<' {
            in_tag = true;
        } else if c == '>' {
            in_tag = false;
        } else if !in_tag {
            r.push(c);
            proof {
                let tail = outside_tags(v@.skip(i + 1), false);
                assert(before + (seq![c] + tail) == before.push(c) + tail);
            }
        }
        i += 1;
    }
    proof {
        let nothing = v@.skip(i as int);
        assert(outside_tags(nothing, in_tag) == nothing);
        assert(r@ + nothing == r@);
    }
    r
}

/// The text of a note body with entities decoded and tags removed. Line
/// breaks stay.
pub fn strip_tags_multiline(text: &str) -> (plain: String)
    ensures
        plain@ == plain_lines(text@),
{
    string_of(&strip_chars(text))
}

/// The text of a note body on one line: entities decoded, tags removed, line
/// breaks turned into blanks, trimmed.
pub fn strip_tags(text: &str) -> (plain: String)
    ensures
        plain@ == plain_line(text@),
{
    let v = strip_chars(text);
    let v = replace(&v, &chars_of("\n"), &chars_of(" "));
    let v = replace(&v, &chars_of("\r"), &chars_of(" "));
    let v = trimmed(&v, 0, v.len());
    proof {
        let flat = replaced(replaced(plain_lines(text@), "\n"@, " "@), "\r"@, " "@);
        assert(flat.subrange(0, flat.len() as int) == flat);
    }
    string_of(&v)
}

/// The title that the extra information of a note names: the member `title`
/// of the JSON object that the text is, where the text is one and the
/// member is a string.
pub open spec fn json_title(extra_info: Text) -> Option<Text> {
    match json_member(encode_utf8(extra_info), "title"@) {
        Ok(Some((_, Some(title)))) => Some(title),
        _ => None,
    }
}

/// The title that extra information names.
fn extra_title(extra_info: &str) -> (title: Option<String>)
    ensures
        text_view(title) == json_title(extra_info@),
{
    let body = extra_info.as_bytes_vec();
    match read_member(&body, "title") {
        Ok(Some((_, Some(title)))) => Some(title),
        _ => None,
    }
}

/// The first of these that is not empty: the plain line of the title, of
/// the subject, of the title in the extra information, of the snippet; and
/// `[No Title]` where all are empty. A plain line is its own first line.
pub open spec fn title_text(
    title: Option<Text>,
    subject: Text,
    extra_title: Option<Text>,
    snippet: Text,
) -> Text {
    if title is Some && plain_line(title->0).len() > 0 {
        plain_line(title->0)
    } else if plain_line(subject).len() > 0 {
        plain_line(subject)
    } else if extra_title is Some && plain_line(extra_title->0).len() > 0 {
        plain_line(extra_title->0)
    } else if plain_line(snippet).len() > 0 {
        plain_line(snippet)
    } else {
        "[No Title]"@
    }
}

/// No tag bracket is left outside tags.
pub proof fn lemma_outside_tags_has_no_bracket(s: Text, in_tag: bool)
    ensures
        free_of(outside_tags(s, in_tag), set!['<', '>']),
    decreases s.len(),
{
    if s.len() > 0 {
        let rest = s.skip(1);
        lemma_outside_tags_has_no_bracket(rest, true);
        lemma_outside_tags_has_no_bracket(rest, false);
        if s[0] != '<' && s[0] != '>' && !in_tag {
            let tail = outside_tags(rest, false);
            let all = seq![s[0]] + tail;
            assert forall|i: int| 0 <= i < all.len() implies !set!['<', '>'].contains(
                #[trigger] all[i],
            ) by {
                if i > 0 {
                    assert(all[i] == tail[i - 1]);
                }
            }
        }
    }
}

/// A plain line is one line, trimmed, without tag brackets: no line feed,
/// no carriage return, no `<` and no `>` is left in it, and it neither
/// begins nor ends with white space.
pub proof fn lemma_plain_line_is_plain(s: Text)
    ensures
        free_of(plain_line(s), set!['\n', '\r']),
        free_of(plain_line(s), set!['<', '>']),
        is_trimmed(plain_line(s)),
{
    reveal_strlit("\n");
    reveal_strlit("\r");
    reveal_strlit(" ");
    let a = plain_lines(s);
    let b = replaced(a, "\n"@, " "@);
    let c = replaced(b, "\r"@, " "@);
    assert("\n"@ =~= seq!['\n']);
    assert("\r"@ =~= seq!['\r']);
    assert(" "@ =~= seq![' ']);
    lemma_replaced_removes(a, '\n', " "@);
    lemma_replaced_keeps_free(b, "\r"@, " "@, set!['\n']);
    lemma_replaced_removes(b, '\r', " "@);
    assert(free_of(c, set!['\n', '\r']));
    lemma_trim_leaves(c, set!['\n', '\r']);
    lemma_outside_tags_has_no_bracket(decoded(s), false);
    lemma_replaced_keeps_free(a, "\n"@, " "@, set!['<', '>']);
    lemma_replaced_keeps_free(b, "\r"@, " "@, set!['<', '>']);
    lemma_trim_leaves(c, set!['<', '>']);
}

/// The title to show for a note, given the title that its extra information
/// names.
pub fn pick_title(
    title: Option<&str>,
    subject: &str,
    extra_title: Option<&str>,
    snippet: &str,
) -> (shown: String)
    ensures
        shown@ == title_text(
            match title {
                Some(t) => Some(t@),
                None => None,
            },
            subject@,
            match extra_title {
                Some(t) => Some(t@),
                None => None,
            },
            snippet@,
        ),
{
    if let Some(t) = title {
        let s = strip_tags(t);
        if !s.as_str().is_empty() {
            return s;
        }
    }
    let s = strip_tags(subject);
    if !s.as_str().is_empty() {
        return s;
    }
    if let Some(t) = extra_title {
        let s = strip_tags(t);
        if !s.as_str().is_empty() {
            return s;
        }
    }
    let s = strip_tags(snippet);
    if !s.as_str().is_empty() {
        return s;
    }
    "[No Title]".to_owned()
}

impl Note {
    /// The title to show for this note: the first that is not empty of its
    /// title, its subject, the title in its extra information and its
    /// snippet, each as a plain line; `[No Title]` where all are empty.
    pub fn display_title(&self) -> (shown: String)
        ensures
            shown@ == title_text(
                text_view(self.title),
                self.subject@,
                match self.extra_info {
                    Some(extra) => json_title(extra@),
                    None => None,
                },
                self.snippet@,
            ),
    {
        let named = match &self.extra_info {
            Some(extra) => extra_title(extra.as_str()),
            None => None,
        };
        let title: Option<&str> = match &self.title {
            Some(t) => Some(t.as_str()),
            None => None,
        };
        let named_ref: Option<&str> = match &named {
            Some(t) => Some(t.as_str()),
            None => None,
        };
        pick_title(title, self.subject.as_str(), named_ref, self.snippet.as_str())
    }

    /// The snippet of this note as a plain line.
    pub fn clean_snippet(&self) -> (plain: String)
        ensures
            plain@ == plain_line(self.snippet@),
    {
        strip_tags(self.snippet.as_str())
    }

    /// The text of this note to hand out: its content, or its snippet where
    /// it has no content, with entities decoded and tags removed.
    pub fn plain_content(&self) -> (plain: String)
        ensures
            plain@ == plain_lines(
                match self.content {
                    Some(content) => content@,
                    None => self.snippet@,
                },
            ),
    {
        match &self.content {
            Some(content) => strip_tags_multiline(content.as_str()),
            None => strip_tags_multiline(self.snippet.as_str()),
        }
    }
}

} // verus!
