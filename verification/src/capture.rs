//! Capturing the account cookie from the cookies of the embedded browser.
//!
//! The cookies are usable once the four identity cookies have a value: the
//! service token, the user id and the two tokens of the site.

use vstd::prelude::*;
use crate::jar::pair_text;
use crate::text::{
    append, chars_of, contains, contains_text, copy_range, joined, same_text, string_of, Text,
};

verus! {

/// A cookie of the embedded browser.
#[derive(Clone, Debug, PartialEq, Eq)]
pub struct BrowserCookie {
    pub name: String,
    pub value: String,
    pub domain: String,
}

/// Whether one of the cookies is named `name` and has a value.
pub open spec fn has_identity(cookies: Seq<BrowserCookie>, name: Text) -> bool {
    exists|i: int|
        0 <= i < cookies.len() && (#[trigger] cookies[i]).name@ == name && cookies[i].value@.len()
            > 0
}

/// Whether the cookies hold all that identifies a session.
pub open spec fn is_usable(cookies: Seq<BrowserCookie>) -> bool {
    &&& has_identity(cookies, "serviceToken"@)
    &&& has_identity(cookies, "userId"@)
    &&& has_identity(cookies, "i.mi.com_slh"@)
    &&& has_identity(cookies, "i.mi.com_ph"@)
}

/// Whether a cookie belongs to the service: its domain contains `mi.com`.
pub open spec fn of_service(cookie: BrowserCookie) -> bool {
    contains_text(cookie.domain@, "mi.com"@)
}

/// The cookies of the service among `cookies`, each on the wire as
/// `name=value`, in order.
pub open spec fn service_pairs(cookies: Seq<BrowserCookie>) -> Seq<Text>
    decreases cookies.len(),
{
    if cookies.len() == 0 {
        Seq::empty()
    } else if of_service(cookies.last()) {
        service_pairs(cookies.drop_last()).push(
            pair_text((cookies.last().name@, cookies.last().value@)),
        )
    } else {
        service_pairs(cookies.drop_last())
    }
}

/// The cookies of the service on the wire, in order, joined by `"; "`.
pub open spec fn captured_text(cookies: Seq<BrowserCookie>) -> Text {
    joined(service_pairs(cookies), "; "@)
}

/// Whether one of the cookies is named `name` and has a value.
fn identifies(cookies: &Vec<BrowserCookie>, name: &str) -> (r: bool)
    ensures
        r == has_identity(cookies@, name@),
{
    let wanted = chars_of(name);
    let mut i: usize = 0;
    while i < cookies.len()
        invariant
            i <= cookies.len(),
            wanted@ == name@,
            forall|j: int|
                0 <= j < i ==> !((#[trigger] cookies@[j]).name@ == name@ && cookies@[j].value@.len()
                    > 0),
        decreases cookies.len() - i,
    {
        if same_text(&chars_of(cookies[i].name.as_str()), &wanted)
            && !cookies[i].value.as_str().is_empty() {
            return true;
        }
        i += 1;
    }
    false
}

/// The cookie string to keep as the account cookie: the cookies of the
/// service, once the four identity cookies have a value; `None` before.
pub fn capture(cookies: &Vec<BrowserCookie>) -> (captured: Option<String>)
    ensures
        is_usable(cookies@) ==> captured is Some && captured->0@ == captured_text(cookies@),
        !is_usable(cookies@) ==> captured is None,
{
    if !(identifies(cookies, "serviceToken") && identifies(cookies, "userId") && identifies(
        cookies,
        "i.mi.com_slh",
    ) && identifies(cookies, "i.mi.com_ph")) {
        return None;
    }
    let marker = chars_of("mi.com");
    let separator = chars_of("; ");
    let mut out: Vec<char> = Vec::new();
    let mut any = false;
    let mut i: usize = 0;
    assert(cookies@.take(0) == Seq::<BrowserCookie>::empty());
    while i < cookies.len()
        invariant
            i <= cookies.len(),
            marker@ == "mi.com"@,
            separator@ == "; "@,
            out@ == captured_text(cookies@.take(i as int)),
            any == (service_pairs(cookies@.take(i as int)).len() > 0),
        decreases cookies.len() - i,
    {
        let ghost seen = cookies@.take(i + 1);
        let ghost pairs = service_pairs(cookies@.take(i as int));
        proof {
            assert(seen.drop_last() == cookies@.take(i as int));
            assert(seen.last() == cookies@[i as int]);
        }
        let cookie = &cookies[i];
        if contains(&chars_of(cookie.domain.as_str()), &marker) {
            let ghost before = out@;
            if any {
                append(&mut out, &separator);
            }
            let name = chars_of(cookie.name.as_str());
            append(&mut out, &name);
            out.push('=');
            let value = chars_of(cookie.value.as_str());
            append(&mut out, &value);
            proof {
                let text = pair_text((cookie.name@, cookie.value@));
                assert(pairs.push(text).drop_last() == pairs);
                if any {
                    assert(out@ == before + "; "@ + text);
                } else {
                    assert(before + text == out@);
                }
            }
            any = true;
        }
        i += 1;
    }
    assert(cookies@.take(i as int) == cookies@);
    Some(string_of(&out))
}

/// `s` without the quotation marks at its two ends.
pub open spec fn unquoted(s: Text) -> Text
    decreases s.len(),
{
    if s.len() > 0 && s[0] == '"' {
        unquoted(s.drop_first())
    } else if s.len() > 0 && s.last() == '"' {
        unquoted(s.drop_last())
    } else {
        s
    }
}

/// The user agent that the browser reported, without the quotation marks
/// that the report puts round it.
pub fn unquote(reported: &str) -> (agent: String)
    ensures
        agent@ == unquoted(reported@),
{
    let v = chars_of(reported);
    let mut a: usize = 0;
    let mut b: usize = v.len();
    assert(v@.subrange(0, v.len() as int) == v@);
    while a < b && v[a] == '"'
        invariant
            a <= b <= v.len(),
            b == v.len(),
            unquoted(v@.subrange(a as int, b as int)) == unquoted(v@),
        decreases b - a,
    {
        assert(v@.subrange(a as int, b as int).drop_first() == v@.subrange(a + 1, b as int));
        a += 1;
    }
    while a < b && v[b - 1] == '"'
        invariant
            a <= b <= v.len(),
            a < v.len() ==> v@[a as int] != '"',
            unquoted(v@.subrange(a as int, b as int)) == unquoted(v@),
        decreases b - a,
    {
        assert(v@.subrange(a as int, b as int).drop_last() == v@.subrange(a as int, b - 1));
        assert(v@.subrange(a as int, b as int)[0] == v@[a as int]);
        b -= 1;
    }
    proof {
        let rest = v@.subrange(a as int, b as int);
        if rest.len() > 0 {
            assert(rest[0] == v@[a as int]);
            assert(rest.last() == v@[b - 1]);
        }
    }
    string_of(&copy_range(&v, a, b))
}

} // verus!
