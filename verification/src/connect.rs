//! Emby Connect account links: matching a link to a Connect user id and
//! checking the access key of an exchange.

use vstd::prelude::*;
use crate::ids::{hyphenated_form, simple_form};
use crate::json::{field, first_field, JsonDoc, JsonFields, JsonScalar};
use crate::text::{
    ascii_upper_seq, is_blank, owned, push_char, starts_with, starts_with_seq, str_eq,
    to_ascii_uppercase, trim, trim_seq,
};

verus! {

pub open spec fn is_brace(c: char) -> bool {
    c == '{' || c == '}'
}

pub open spec fn strip_start_braces(s: Seq<char>) -> Seq<char>
    decreases s.len(),
{
    if s.len() > 0 && is_brace(s[0]) {
        strip_start_braces(s.drop_first())
    } else {
        s
    }
}

pub open spec fn strip_end_braces(s: Seq<char>) -> Seq<char>
    decreases s.len(),
{
    if s.len() > 0 && is_brace(s.last()) {
        strip_end_braces(s.drop_last())
    } else {
        s
    }
}

/// The text without `c`.
pub open spec fn remove_char_seq(s: Seq<char>, c: char) -> Seq<char>
    decreases s.len(),
{
    if s.len() == 0 {
        s
    } else if s.last() == c {
        remove_char_seq(s.drop_last(), c)
    } else {
        remove_char_seq(s.drop_last(), c).push(s.last())
    }
}

/// A Connect user id in comparable form: trimmed, without surrounding
/// braces, without hyphens, in upper case.
pub open spec fn connect_guid(raw: Seq<char>) -> Seq<char> {
    ascii_upper_seq(remove_char_seq(strip_end_braces(strip_start_braces(trim_seq(raw))), '-'))
}

/// `s` without leading and trailing braces (`trim_matches`).
fn strip_braces(s: &str) -> (r: &str)
    ensures
        r@ == strip_end_braces(strip_start_braces(s@)),
{
    let n = s.unicode_len();
    let mut i: usize = 0;
    assert(s@.subrange(0, n as int) =~= s@);
    loop
        invariant
            i <= n,
            n == s@.len(),
            strip_start_braces(s@) == strip_start_braces(s@.subrange(i as int, n as int)),
        ensures
            i <= n,
            strip_start_braces(s@) == s@.subrange(i as int, n as int),
        decreases n - i,
    {
        if i == n {
            break;
        }
        let c = s.get_char(i);
        if !(c == '{' || c == '}') {
            break;
        }
        assert(s@.subrange(i as int, n as int).drop_first() =~= s@.subrange(i + 1, n as int));
        i = i + 1;
    }
    let mut j: usize = n;
    loop
        invariant
            i <= j <= n,
            n == s@.len(),
            strip_start_braces(s@) == s@.subrange(i as int, n as int),
            strip_end_braces(strip_start_braces(s@)) == strip_end_braces(s@.subrange(i as int, j as int)),
        ensures
            i <= j <= n,
            strip_end_braces(strip_start_braces(s@)) == s@.subrange(i as int, j as int),
        decreases j,
    {
        if j == i {
            break;
        }
        let c = s.get_char(j - 1);
        if !(c == '{' || c == '}') {
            break;
        }
        assert(s@.subrange(i as int, j as int).drop_last() =~= s@.subrange(i as int, j - 1));
        j = j - 1;
    }
    s.substring_char(i, j)
}

/// A copy of the text without `c`.
fn remove_char(s: &str, c: char) -> (r: String)
    ensures
        r@ == remove_char_seq(s@, c),
{
    let n = s.unicode_len();
    let mut out = String::new();
    let mut i: usize = 0;
    assert(s@.take(0) =~= Seq::<char>::empty());
    while i < n
        invariant
            i <= n,
            n == s@.len(),
            out@ == remove_char_seq(s@.take(i as int), c),
        decreases n - i,
    {
        let d = s.get_char(i);
        assert(s@.take(i + 1).drop_last() =~= s@.take(i as int));
        if d != c {
            push_char(&mut out, d);
        }
        i = i + 1;
    }
    assert(s@.take(n as int) =~= s@);
    out
}

/// A Connect user id in comparable form, as `connect_guid` states.
pub fn normalize_connect_guid_str(raw: &str) -> (r: String)
    ensures
        r@ == connect_guid(raw@),
{
    let stripped = strip_braces(trim(raw));
    let plain = remove_char(stripped, '-');
    to_ascii_uppercase(plain.as_str())
}

/// The keys of a link that may hold the Connect user id, in the order they
/// are tried.
pub open spec fn link_keys() -> Seq<Seq<char>> {
    seq!["ConnectUserId"@, "connectUserId"@, "UserId"@, "userId"@, "Id"@, "id"@]
}

/// Whether a stored link names the (normalised) Connect user `target`: a
/// string link is that id, an object link holds it under one of `link_keys`.
pub open spec fn link_matches(payload: JsonDoc, target: Seq<char>) -> bool {
    if target.len() == 0 {
        false
    } else {
        match payload {
            JsonDoc::Object(f) => exists|k: int|
                0 <= k < link_keys().len() && (match #[trigger] field(f.entries@, link_keys()[k]) {
                    Some(JsonScalar::Str(s)) => connect_guid(s@) == target,
                    _ => false,
                }),
            JsonDoc::Str(s) => connect_guid(s@) == target,
            JsonDoc::Other => false,
        }
    }
}

fn str_matches(v: &Option<JsonScalar>, target: &str) -> (r: bool)
    ensures
        r == (match *v {
            Some(JsonScalar::Str(s)) => connect_guid(s@) == target@,
            _ => false,
        }),
{
    match v {
        Some(JsonScalar::Str(s)) => {
            let g = normalize_connect_guid_str(s.as_str());
            str_eq(g.as_str(), target)
        },
        _ => false,
    }
}

/// Whether a stored link names the Connect user `target`, as `link_matches`
/// states.
pub fn connect_link_payload_matches_target(payload: &JsonDoc, target: &str) -> (r: bool)
    ensures
        r == link_matches(*payload, target@),
{
    if target.unicode_len() == 0 {
        return false;
    }
    match payload {
        JsonDoc::Object(f) => {
            let keys = ["ConnectUserId", "connectUserId", "UserId", "userId", "Id", "id"];
            assert(keys@.map_values(|k: &str| k@) =~= link_keys());
            let mut i: usize = 0;
            while i < 6
                invariant
                    i <= 6,
                    target@.len() > 0,
                    *payload == JsonDoc::Object(*f),
                    keys@.map_values(|k: &str| k@) == link_keys(),
                    forall|k: int| 0 <= k < i ==> !(match #[trigger] field(f.entries@, link_keys()[k]) {
                        Some(JsonScalar::Str(s)) => connect_guid(s@) == target@,
                        _ => false,
                    }),
                decreases 6 - i,
            {
                let v = f.get(keys[i]);
                assert(keys@[i as int]@ == link_keys()[i as int]);
                if str_matches(&v, target) {
                    assert(match field(f.entries@, link_keys()[i as int]) {
                        Some(JsonScalar::Str(s)) => connect_guid(s@) == target@,
                        _ => false,
                    });
                    assert(link_keys().len() == 6);
                    assert(exists|k: int|
                        0 <= k < link_keys().len() && (match #[trigger] field(f.entries@, link_keys()[k]) {
                            Some(JsonScalar::Str(s)) => connect_guid(s@) == target@,
                            _ => false,
                        }));
                    assert(*payload == JsonDoc::Object(*f));
                    return true;
                }
                i = i + 1;
            }
            false
        },
        JsonDoc::Str(s) => {
            let g = normalize_connect_guid_str(s.as_str());
            str_eq(g.as_str(), target)
        },
        JsonDoc::Other => false,
    }
}

/// A stored access key: a string that is not blank, trimmed.
pub open spec fn stored_key(v: Option<JsonScalar>) -> Option<Seq<char>> {
    match v {
        Some(JsonScalar::Str(s)) => if trim_seq(s@).len() == 0 {
            None
        } else {
            Some(trim_seq(s@))
        },
        _ => None,
    }
}

/// The access key a link expects: the first of `ExchangeToken`,
/// `ConnectAccessKey` and `AccessKey` that stores one.
pub open spec fn expected_access_key(f: JsonFields) -> Option<Seq<char>> {
    match stored_key(field(f.entries@, "ExchangeToken"@)) {
        Some(k) => Some(k),
        None => match stored_key(field(f.entries@, "ConnectAccessKey"@)) {
            Some(k) => Some(k),
            None => stored_key(field(f.entries@, "AccessKey"@)),
        },
    }
}

/// The access key stored under `key`, as `stored_key` states.
fn stored_key_of(f: &JsonFields, key: &str) -> (r: Option<String>)
    ensures
        match r {
            Some(k) => stored_key(field(f.entries@, key@)) == Some(k@),
            None => stored_key(field(f.entries@, key@)) is None,
        },
{
    match f.get(key) {
        Some(JsonScalar::Str(s)) => {
            let t = trim(s.as_str());
            if t.unicode_len() == 0 {
                None
            } else {
                Some(owned(t))
            }
        },
        _ => None,
    }
}

/// Whether an exchange with `access_key` is allowed for a link: the key
/// must not be blank; a link that stores an expected key must match it
/// (after trimming both); any other link accepts any key.
pub open spec fn access_key_allowed(payload: JsonDoc, access_key: Seq<char>) -> bool {
    let key = trim_seq(access_key);
    if key.len() == 0 {
        false
    } else {
        match payload {
            JsonDoc::Object(f) => match expected_access_key(f) {
                Some(exp) => exp == key,
                None => true,
            },
            _ => true,
        }
    }
}

/// Whether an exchange with `access_key` is allowed for a link, as
/// `access_key_allowed` states.
pub fn connect_exchange_access_key_allowed(payload: &JsonDoc, access_key: &str) -> (r: bool)
    ensures
        r == access_key_allowed(*payload, access_key@),
{
    let key = trim(access_key);
    if key.unicode_len() == 0 {
        return false;
    }
    match payload {
        JsonDoc::Object(f) => {
            let mut expected = stored_key_of(f, "ExchangeToken");
            if expected.is_none() {
                expected = stored_key_of(f, "ConnectAccessKey");
            }
            if expected.is_none() {
                expected = stored_key_of(f, "AccessKey");
            }
            match expected {
                Some(exp) => str_eq(exp.as_str(), key),
                None => true,
            }
        },
        _ => true,
    }
}

/// What `Uuid::parse_str` returns for a text, as a 128-bit value.
pub uninterp spec fn uuid_parse(s: Seq<char>) -> Option<u128>;

/// Calls `Uuid::parse_str` (simple, hyphenated, braced and URN forms) and
/// gives the id as a 128-bit value; the result is named `uuid_parse` of the
/// text (the accepted grammar is not restated here). As its documentation
/// says, the 32-digit and the hyphenated forms it writes parse back to the
/// same id.
#[verifier::external_body]
pub(crate) fn parse_uuid(s: &str) -> (r: Option<u128>)
    ensures
        r == uuid_parse(s@),
        forall|id: u128| #[trigger] simple_form(id) == s@ ==> r == Some(id),
        forall|id: u128| #[trigger] hyphenated_form(id) == s@ ==> r == Some(id),
{
    uuid::Uuid::parse_str(s).ok().map(|u| u.as_u128())
}

/// The text after `prefix`, or the empty text when `s` does not start with it.
pub open spec fn after_prefix(s: Seq<char>, prefix: Seq<char>) -> Seq<char> {
    if starts_with_seq(s, prefix) {
        s.subrange(prefix.len() as int, s.len() as int)
    } else {
        Seq::empty()
    }
}

/// The user whose stored link (key, payload) matches: a row qualifies when
/// its payload names the Connect user and its key, after
/// `user_connect_link:`, is a valid id.
pub open spec fn link_row_user(connect: Seq<char>, key: Seq<char>, payload: JsonDoc) -> Option<u128> {
    if link_matches(payload, connect) {
        uuid_parse(after_prefix(key, "user_connect_link:"@))
    } else {
        None
    }
}

/// Finds the local user linked to a Connect user id among stored
/// `(key, link)` rows: the first qualifying row gives `(user id, row index)`;
/// `None` when the normalised id is empty or no row qualifies.
pub fn find_connect_link(connect_user_id: &str, rows: &Vec<(String, JsonDoc)>) -> (r: Option<(u128, usize)>)
    ensures
        match r {
            Some((user, i)) => connect_guid(connect_user_id@).len() > 0 && i < rows@.len()
                && link_row_user(connect_guid(connect_user_id@), rows@[i as int].0@, rows@[i as int].1)
                == Some(user) && forall|k: int| 0 <= k < i ==> link_row_user(
                connect_guid(connect_user_id@),
                rows@[k].0@,
                rows@[k].1,
            ) is None,
            None => connect_guid(connect_user_id@).len() == 0 || forall|k: int|
                0 <= k < rows@.len() ==> link_row_user(connect_guid(connect_user_id@), rows@[k].0@, rows@[k].1) is None,
        },
{
    let target = normalize_connect_guid_str(connect_user_id);
    if target.unicode_len() == 0 {
        return None;
    }
    let n = rows.len();
    let mut i: usize = 0;
    while i < n
        invariant
            i <= n,
            n == rows@.len(),
            target@ == connect_guid(connect_user_id@),
            target@.len() > 0,
            forall|k: int| 0 <= k < i ==> link_row_user(target@, rows@[k].0@, rows@[k].1) is None,
        decreases n - i,
    {
        if connect_link_payload_matches_target(&rows[i].1, target.as_str()) {
            let key = rows[i].0.as_str();
            let prefix = "user_connect_link:";
            let rest = if starts_with(key, prefix) {
                key.substring_char(prefix.unicode_len(), key.unicode_len())
            } else {
                ""
            };
            proof {
                reveal_strlit("");
            }
            assert(rest@ == after_prefix(rows@[i as int].0@, "user_connect_link:"@));
            let parsed = parse_uuid(rest);
            assert(parsed == link_row_user(target@, rows@[i as int].0@, rows@[i as int].1));
            if let Some(user) = parsed {
                return Some((user, i));
            }
        }
        i = i + 1;
    }
    None
}

/// The query of a Connect exchange request.
pub struct ConnectExchangeQuery {
    pub connect_user_id: Option<String>,
}

impl ConnectExchangeQuery {
    /// The Connect user id the request names: trimmed, and only when not
    /// blank (a request without one is refused as a bad request).
    pub fn given_user_id(&self) -> (r: Option<String>)
        ensures
            match r {
                Some(id) => self.connect_user_id is Some && trim_seq(self.connect_user_id->0@).len() > 0 && id@
                    == trim_seq(self.connect_user_id->0@),
                None => self.connect_user_id is None || trim_seq(self.connect_user_id->0@).len() == 0,
            },
    {
        match &self.connect_user_id {
            Some(v) => {
                let t = trim(v.as_str());
                if t.unicode_len() == 0 {
                    None
                } else {
                    Some(owned(t))
                }
            },
            None => None,
        }
    }
}

/// Who a Connect exchange signs in: the linked local user, when a link was
/// found and the request's access key is allowed for it; nobody (the
/// request is unauthorised) otherwise.
pub fn exchange_user(link: Option<(u128, &JsonDoc)>, access_key: &str) -> (r: Option<u128>)
    ensures
        match link {
            Some((user, payload)) => if access_key_allowed(*payload, access_key@) {
                r == Some(user)
            } else {
                r is None
            },
            None => r is None,
        },
{
    match link {
        Some((user, payload)) => if connect_exchange_access_key_allowed(payload, access_key) {
            Some(user)
        } else {
            None
        },
        None => None,
    }
}

} // verus!
