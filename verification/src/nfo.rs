//! Provider ids recorded in NFO metadata files (XML written by media
//! managers) and in file paths.

use vstd::prelude::*;
use crate::identity::{lemma_provider_push, merge_provider_ids, merged_providers, provider, ProviderIds};
use crate::pathnames::{file_stem, file_stem_of, join_path, joined_path_of, parent_path, parent_path_of};
use crate::text::{
    ascii_lower_seq, is_ws, is_ws_char, lower_char, lower_char_exec, owned, push_char, str_eq, to_ascii_lowercase, trim,
    trim_seq, views,
};

verus! {

/// The index of the first `>` in a text.
pub open spec fn first_gt(s: Seq<char>) -> Option<int>
    decreases s.len(),
{
    if s.len() == 0 {
        None
    } else if s[0] == '>' {
        Some(0)
    } else {
        match first_gt(s.drop_first()) {
            Some(k) => Some(k + 1),
            None => None,
        }
    }
}

/// A text with every tag removed: each `<`, followed by at least one
/// character up to the next `>`, and that `>` (the matches of `<[^>]+>`,
/// found left to right).
pub open spec fn strip_tags(s: Seq<char>) -> Seq<char>
    decreases s.len(),
{
    if s.len() == 0 {
        Seq::empty()
    } else if s[0] == '<' && first_gt(s) is Some && first_gt(s)->0 >= 2 {
        let j = first_gt(s)->0;
        proof {
            lemma_first_gt_bound(s);
        }
        strip_tags(s.subrange(j + 1, s.len() as int))
    } else {
        seq![s[0]] + strip_tags(s.subrange(1, s.len() as int))
    }
}

pub proof fn lemma_first_gt_bound(s: Seq<char>)
    ensures
        first_gt(s) is Some ==> 0 <= first_gt(s)->0 < s.len() && s[first_gt(s)->0] == '>',
    decreases s.len(),
{
    if s.len() > 0 {
        lemma_first_gt_bound(s.drop_first());
    }
}

proof fn lemma_first_gt_at(s: Seq<char>, p: int)
    requires
        0 <= p < s.len(),
        s[p] == '>',
        forall|m: int| 0 <= m < p ==> s[m] != '>',
    ensures
        first_gt(s) == Some(p),
    decreases p,
{
    if p > 0 {
        lemma_first_gt_at(s.drop_first(), p - 1);
    }
}

proof fn lemma_first_gt_none(s: Seq<char>)
    requires
        forall|m: int| 0 <= m < s.len() ==> s[m] != '>',
    ensures
        first_gt(s) is None,
    decreases s.len(),
{
    if s.len() > 0 {
        lemma_first_gt_none(s.drop_first());
    }
}

/// A text with its tags removed, as `strip_tags` states.
pub fn strip_xml_tags(value: &str) -> (r: String)
    ensures
        r@ == strip_tags(value@),
{
    let n = value.unicode_len();
    let mut out = String::new();
    let mut i: usize = 0;
    assert(value@.subrange(0, n as int) =~= value@);
    while i < n
        invariant
            i <= n,
            n == value@.len(),
            out@ + strip_tags(value@.subrange(i as int, n as int)) == strip_tags(value@),
        decreases n - i,
    {
        let ghost rest = value@.subrange(i as int, n as int);
        let c = value.get_char(i);
        if c == '<' {
            let mut k: usize = i + 1;
            while k < n && value.get_char(k) != '>'
                invariant
                    i < k <= n,
                    n == value@.len(),
                    value@[i as int] == '<',
                    forall|m: int| i <= m < k ==> value@[m] != '>',
                decreases n - k,
            {
                k = k + 1;
            }
            if k < n && k - i >= 2 {
                proof {
                    lemma_first_gt_at(rest, k - i);
                    assert(rest.subrange(k - i + 1, rest.len() as int) =~= value@.subrange(k + 1, n as int));
                }
                i = k + 1;
                continue;
            }
            proof {
                if k < n {
                    lemma_first_gt_at(rest, k - i);
                } else {
                    lemma_first_gt_none(rest);
                }
            }
        }
        proof {
            assert(rest.subrange(1, rest.len() as int) =~= value@.subrange(i + 1, n as int));
            assert(out@.push(c) + strip_tags(value@.subrange(i + 1, n as int)) =~= out@ + strip_tags(rest));
        }
        push_char(&mut out, c);
        i = i + 1;
    }
    assert(out@ + strip_tags(value@.subrange(n as int, n as int)) =~= out@);
    out
}

/// Whether `c` is a word character as regular expressions read `\w` and
/// `\b` over Unicode text.
pub uninterp spec fn regex_word_char(c: char) -> bool;

/// Asks the `regex` crate whether its Unicode class `\w` (letters, marks,
/// decimal digits, connector punctuation and joiners) holds `c`
/// (`Regex::is_match` on the character); the result is named
/// `regex_word_char` of it, and of an ASCII character the crate's
/// documentation gives it: a letter, a digit or `_`.
#[verifier::external_body]
fn is_word_char(c: char) -> (r: bool)
    ensures
        r == regex_word_char(c),
        (c as u32) < 128 ==> r == (('a' <= c && c <= 'z') || ('A' <= c && c <= 'Z') || ('0' <= c && c <= '9')
            || c == '_'),
{
    let mut buf = [0u8; 4];
    match regex::Regex::new(r"\w") {
        Ok(re) => re.is_match(c.encode_utf8(&mut buf)),
        Err(_) => false,
    }
}

/// Whether the text character `x` matches the ASCII pattern character `p`
/// ignoring case: the same letter in either case, and also KELVIN SIGN for
/// `k` and LONG S for `s` (the simple case folding of ASCII letters).
pub open spec fn fold_eq(p: char, x: char) -> bool {
    lower_char(x) == lower_char(p) || (lower_char(p) == 'k' && x == '\u{212A}') || (lower_char(p) == 's' && x
        == '\u{17F}')
}

/// Whether `pat` occurs, ignoring case, at position `i` of `s`.
pub open spec fn ci_at(s: Seq<char>, i: int, pat: Seq<char>) -> bool {
    &&& 0 <= i
    &&& i + pat.len() <= s.len()
    &&& forall|j: int| 0 <= j < pat.len() ==> fold_eq(#[trigger] pat[j], s[i + j])
}

/// The first position at or after `from` that holds `c`.
pub open spec fn find_from(s: Seq<char>, from: int, c: char) -> Option<int>
    decreases s.len() - from,
{
    if from < 0 || from >= s.len() {
        None
    } else if s[from] == c {
        Some(from)
    } else {
        find_from(s, from + 1, c)
    }
}

/// Whether the closing tag `</name>` (any case) starts at `q`.
pub open spec fn close_at(s: Seq<char>, q: int, name: Seq<char>) -> bool {
    &&& 0 <= q
    &&& q + 2 + name.len() < s.len()
    &&& s[q] == '<'
    &&& s[q + 1] == '/'
    &&& ci_at(s, q + 2, name)
    &&& s[q + 2 + name.len()] == '>'
}

/// The first position at or after `from` where `</name>` starts.
pub open spec fn find_close(s: Seq<char>, from: int, name: Seq<char>) -> Option<int>
    decreases s.len() - from,
{
    if from < 0 || from >= s.len() {
        None
    } else if close_at(s, from, name) {
        Some(from)
    } else {
        find_close(s, from + 1, name)
    }
}

/// Whether an opening tag `<name` (any case) starts at `p`, its name ended
/// by a word boundary.
pub open spec fn open_at(s: Seq<char>, p: int, name: Seq<char>) -> bool {
    &&& 0 <= p
    &&& p + 1 + name.len() < s.len()
    &&& s[p] == '<'
    &&& ci_at(s, p + 1, name)
    &&& regex_word_char(s[p + name.len()]) != regex_word_char(s[p + 1 + name.len()])
}

/// The element `name` that starts at `p`: the position of the `>` that
/// ends its opening tag (the first after the name) and of the `</name>`
/// that ends it (the first after that).
pub open spec fn element_at(s: Seq<char>, p: int, name: Seq<char>) -> Option<(int, int)> {
    if open_at(s, p, name) {
        match find_from(s, p + 1 + name.len(), '>') {
            Some(g) => match find_close(s, g + 1, name) {
                Some(q) => Some((g, q)),
                None => None,
            },
            None => None,
        }
    } else {
        None
    }
}

/// The first element `name` that starts at or after `from`: its start,
/// the end of its opening tag and the start of its closing tag (the
/// leftmost match of `(?is)<name\b[^>]*>(.*?)</name>`).
pub open spec fn first_element(s: Seq<char>, from: int, name: Seq<char>) -> Option<(int, int, int)>
    decreases s.len() - from,
{
    if from < 0 || from >= s.len() {
        None
    } else {
        match element_at(s, from, name) {
            Some((g, q)) => Some((from, g, q)),
            None => first_element(s, from + 1, name),
        }
    }
}

/// The content of the first element `name` of a text.
pub open spec fn tag_inner_of(xml: Seq<char>, name: Seq<char>) -> Option<Seq<char>> {
    match first_element(xml, 0, name) {
        Some((p, g, q)) => Some(xml.subrange(g + 1, q)),
        None => None,
    }
}

/// The attributes and content of each `uniqueid` element from `from` on,
/// each search going on after the element before.
pub open spec fn uniqueid_from(s: Seq<char>, from: int) -> Seq<(Seq<char>, Seq<char>)>
    decreases s.len() - from,
{
    if from < 0 || from > s.len() {
        Seq::empty()
    } else {
        match first_element(s, from, "uniqueid"@) {
            Some((p, g, q)) => if from < q + 11 <= s.len() {
                seq![(s.subrange(p + 9, g), s.subrange(g + 1, q))] + uniqueid_from(s, q + 11)
            } else {
                Seq::empty()
            },
            None => Seq::empty(),
        }
    }
}

/// The attributes and content of each `uniqueid` element of a text, in order.
pub open spec fn uniqueid_matches_of(xml: Seq<char>) -> Seq<(Seq<char>, Seq<char>)> {
    uniqueid_from(xml, 0)
}

/// The first position at or after `i` that is not white space.
pub open spec fn skip_ws(s: Seq<char>, i: int) -> int
    decreases s.len() - i,
{
    if 0 <= i < s.len() && is_ws(s[i]) {
        skip_ws(s, i + 1)
    } else {
        i
    }
}

pub open spec fn is_quote(c: char) -> bool {
    c == '"' || c == '\''
}

/// The first quote (either kind) at or after `from`.
pub open spec fn find_quote(s: Seq<char>, from: int) -> Option<int>
    decreases s.len() - from,
{
    if from < 0 || from >= s.len() {
        None
    } else if is_quote(s[from]) {
        Some(from)
    } else {
        find_quote(s, from + 1)
    }
}

/// The end of the attribute name `type` or `provider` (any case) at `p`,
/// `type` tried first.
pub open spec fn attr_name_end(s: Seq<char>, p: int) -> Option<int> {
    if ci_at(s, p, "type"@) {
        Some(p + "type"@.len())
    } else if ci_at(s, p, "provider"@) {
        Some(p + "provider"@.len())
    } else {
        None
    }
}

/// The quoted value of a `type` or `provider` attribute whose name starts
/// at `p` after a word boundary: white space may stand around the `=`;
/// the value runs from the opening quote to the next quote of either kind
/// and is not empty. Gives the value's start and end.
pub open spec fn attr_at(s: Seq<char>, p: int) -> Option<(int, int)> {
    if !(0 <= p < s.len()) {
        None
    } else if (p > 0 && regex_word_char(s[p - 1])) == regex_word_char(s[p]) {
        None
    } else {
        match attr_name_end(s, p) {
            None => None,
            Some(k) => {
                let a = skip_ws(s, k);
                if !(0 <= a < s.len() && s[a] == '=') {
                    None
                } else {
                    let b = skip_ws(s, a + 1);
                    if !(0 <= b < s.len() && is_quote(s[b])) {
                        None
                    } else {
                        match find_quote(s, b + 1) {
                            Some(c) => if c > b + 1 {
                                Some((b + 1, c))
                            } else {
                                None
                            },
                            None => None,
                        }
                    }
                }
            },
        }
    }
}

/// The first `type`/`provider` attribute value at or after `from` (the
/// leftmost match of `(?i)\b(?:type|provider)\s*=\s*["']([^"']+)["']`).
pub open spec fn first_attr(s: Seq<char>, from: int) -> Option<(int, int)>
    decreases s.len() - from,
{
    if from < 0 || from >= s.len() {
        None
    } else {
        match attr_at(s, from) {
            Some(v) => Some(v),
            None => first_attr(s, from + 1),
        }
    }
}

/// The value of the first `type` or `provider` attribute in attribute text.
pub open spec fn provider_attr_of(attrs: Seq<char>) -> Option<Seq<char>> {
    match first_attr(attrs, 0) {
        Some((a, b)) => Some(attrs.subrange(a, b)),
        None => None,
    }
}

proof fn lemma_find_from(s: Seq<char>, from: int, c: char)
    ensures
        find_from(s, from, c) matches Some(k) ==> from <= k < s.len() && s[k] == c,
    decreases s.len() - from,
{
    if 0 <= from < s.len() && s[from] != c {
        lemma_find_from(s, from + 1, c);
    }
}

proof fn lemma_find_close(s: Seq<char>, from: int, name: Seq<char>)
    ensures
        find_close(s, from, name) matches Some(q) ==> from <= q && close_at(s, q, name),
    decreases s.len() - from,
{
    if 0 <= from < s.len() && !close_at(s, from, name) {
        lemma_find_close(s, from + 1, name);
    }
}

proof fn lemma_find_quote(s: Seq<char>, from: int)
    ensures
        find_quote(s, from) matches Some(k) ==> from <= k < s.len(),
    decreases s.len() - from,
{
    if 0 <= from < s.len() && !is_quote(s[from]) {
        lemma_find_quote(s, from + 1);
    }
}

proof fn lemma_skip_ws(s: Seq<char>, i: int)
    ensures
        i >= 0 ==> i <= skip_ws(s, i),
        0 <= i <= s.len() ==> skip_ws(s, i) <= s.len(),
    decreases s.len() - i,
{
    if 0 <= i < s.len() && is_ws(s[i]) {
        lemma_skip_ws(s, i + 1);
    }
}

proof fn lemma_element_at(s: Seq<char>, p: int, name: Seq<char>)
    ensures
        element_at(s, p, name) matches Some((g, q)) ==> 0 <= p && p + 1 + name.len() <= g && g + 1 <= q && q + 2
            + name.len() < s.len(),
{
    lemma_find_from(s, p + 1 + name.len(), '>');
    if let Some(g) = find_from(s, p + 1 + name.len(), '>') {
        lemma_find_close(s, g + 1, name);
    }
}

proof fn lemma_first_element(s: Seq<char>, from: int, name: Seq<char>)
    ensures
        first_element(s, from, name) matches Some((p, g, q)) ==> from <= p && p + 1 + name.len() <= g && g + 1
            <= q && q + 2 + name.len() < s.len(),
    decreases s.len() - from,
{
    if 0 <= from < s.len() {
        lemma_element_at(s, from, name);
        if element_at(s, from, name) is None {
            lemma_first_element(s, from + 1, name);
        }
    }
}

/// Whether `pat` occurs at `i`, as `ci_at` states.
fn ci_at_exec(s: &str, i: usize, pat: &str) -> (r: bool)
    ensures
        r == ci_at(s@, i as int, pat@),
{
    let n = s.unicode_len();
    let m = pat.unicode_len();
    if i > n || m > n - i {
        return false;
    }
    let mut j: usize = 0;
    while j < m
        invariant
            j <= m,
            m == pat@.len(),
            n == s@.len(),
            i + m <= n,
            forall|t: int| 0 <= t < j ==> fold_eq(#[trigger] pat@[t], s@[i + t]),
        decreases m - j,
    {
        let pc = pat.get_char(j);
        let x = s.get_char(i + j);
        let lp = lower_char_exec(pc);
        if !(lower_char_exec(x) == lp || (lp == 'k' && x == '\u{212A}') || (lp == 's' && x == '\u{17F}')) {
            return false;
        }
        j = j + 1;
    }
    true
}

/// The first position at or after `from` that holds `c`, as `find_from` states.
fn find_from_exec(s: &str, from: usize, c: char) -> (r: Option<usize>)
    ensures
        match r {
            Some(k) => find_from(s@, from as int, c) == Some(k as int),
            None => find_from(s@, from as int, c) is None,
        },
{
    let n = s.unicode_len();
    let mut i = from;
    while i < n
        invariant
            from <= i,
            n == s@.len(),
            find_from(s@, from as int, c) == find_from(s@, i as int, c),
        decreases n - i,
    {
        if s.get_char(i) == c {
            return Some(i);
        }
        i = i + 1;
    }
    None
}

/// Whether `</name>` starts at `q`, as `close_at` states.
fn close_at_exec(s: &str, q: usize, name: &str) -> (r: bool)
    ensures
        r == close_at(s@, q as int, name@),
{
    let n = s.unicode_len();
    let m = name.unicode_len();
    if q >= n || m >= n - q || n - q - m <= 2 {
        return false;
    }
    s.get_char(q) == '<' && s.get_char(q + 1) == '/' && ci_at_exec(s, q + 2, name) && s.get_char(q + 2 + m) == '>'
}

/// The first `</name>` at or after `from`, as `find_close` states.
fn find_close_exec(s: &str, from: usize, name: &str) -> (r: Option<usize>)
    ensures
        match r {
            Some(k) => find_close(s@, from as int, name@) == Some(k as int),
            None => find_close(s@, from as int, name@) is None,
        },
{
    let n = s.unicode_len();
    let mut i = from;
    while i < n
        invariant
            from <= i,
            n == s@.len(),
            find_close(s@, from as int, name@) == find_close(s@, i as int, name@),
        decreases n - i,
    {
        if close_at_exec(s, i, name) {
            return Some(i);
        }
        i = i + 1;
    }
    None
}

/// Whether an opening tag `<name` starts at `p`, as `open_at` states.
fn open_at_exec(s: &str, p: usize, name: &str) -> (r: bool)
    ensures
        r == open_at(s@, p as int, name@),
{
    let n = s.unicode_len();
    let m = name.unicode_len();
    if p >= n || m >= n - p - 1 {
        return false;
    }
    s.get_char(p) == '<' && ci_at_exec(s, p + 1, name) && is_word_char(s.get_char(p + m)) != is_word_char(
        s.get_char(p + 1 + m),
    )
}

/// The first element `name` at or after `from`, as `first_element` states.
fn first_element_exec(s: &str, from: usize, name: &str) -> (r: Option<(usize, usize, usize)>)
    ensures
        match r {
            Some((p, g, q)) => first_element(s@, from as int, name@) == Some((p as int, g as int, q as int)),
            None => first_element(s@, from as int, name@) is None,
        },
{
    let n = s.unicode_len();
    let m = name.unicode_len();
    let mut p = from;
    while p < n
        invariant
            from <= p,
            n == s@.len(),
            m == name@.len(),
            first_element(s@, from as int, name@) == first_element(s@, p as int, name@),
        decreases n - p,
    {
        if open_at_exec(s, p, name) {
            match find_from_exec(s, p + 1 + m, '>') {
                Some(g) => {
                    proof {
                        lemma_find_from(s@, p + 1 + m, '>');
                    }
                    match find_close_exec(s, g + 1, name) {
                        Some(q) => {
                            return Some((p, g, q));
                        },
                        None => {},
                    }
                },
                None => {},
            }
        }
        p = p + 1;
    }
    None
}

/// The content of the first element `name`, as `tag_inner_of` states.
fn tag_inner(xml: &str, name: &str) -> (r: Option<String>)
    ensures
        opt_view(r) == tag_inner_of(xml@, name@),
{
    match first_element_exec(xml, 0, name) {
        Some((p, g, q)) => {
            proof {
                lemma_first_element(xml@, 0, name@);
            }
            Some(owned(xml.substring_char(g + 1, q)))
        },
        None => None,
    }
}

/// The attributes and content of each `uniqueid` element, as
/// `uniqueid_matches_of` states.
fn uniqueid_matches(xml: &str) -> (r: Vec<(String, String)>)
    ensures
        pair_views(r@) == uniqueid_matches_of(xml@),
{
    proof {
        reveal_strlit("uniqueid");
    }
    let n = xml.unicode_len();
    let mut out: Vec<(String, String)> = Vec::new();
    let mut from: usize = 0;
    while from <= n
        invariant
            from <= n + 1,
            n == xml@.len(),
            "uniqueid"@.len() == 8,
            from <= n ==> pair_views(out@) + uniqueid_from(xml@, from as int) == uniqueid_from(xml@, 0),
            from > n ==> pair_views(out@) == uniqueid_from(xml@, 0),
        decreases n + 1 - from,
    {
        match first_element_exec(xml, from, "uniqueid") {
            Some((p, g, q)) => {
                proof {
                    lemma_first_element(xml@, from as int, "uniqueid"@);
                }
                let attrs = owned(xml.substring_char(p + 9, g));
                let content = owned(xml.substring_char(g + 1, q));
                let ghost before = out@;
                out.push((attrs, content));
                proof {
                    assert(pair_views(out@) =~= pair_views(before).push((xml@.subrange(p + 9, g as int), xml@.subrange(
                        g + 1,
                        q as int,
                    ))));
                    assert(pair_views(out@) + uniqueid_from(xml@, q + 11) =~= pair_views(before) + uniqueid_from(
                        xml@,
                        from as int,
                    ));
                }
                from = q + 11;
            },
            None => {
                assert(pair_views(out@) =~= pair_views(out@) + uniqueid_from(xml@, from as int));
                return out;
            },
        }
    }
    out
}

/// The first position at or after `i` that is not white space, as
/// `skip_ws` states.
fn skip_ws_exec(s: &str, i: usize) -> (r: usize)
    requires
        i <= s@.len(),
    ensures
        r as int == skip_ws(s@, i as int),
{
    let n = s.unicode_len();
    let mut k = i;
    while k < n && is_ws_char(s.get_char(k))
        invariant
            i <= k <= n,
            n == s@.len(),
            skip_ws(s@, i as int) == skip_ws(s@, k as int),
        decreases n - k,
    {
        k = k + 1;
    }
    k
}

/// The first quote at or after `from`, as `find_quote` states.
fn find_quote_exec(s: &str, from: usize) -> (r: Option<usize>)
    ensures
        match r {
            Some(k) => find_quote(s@, from as int) == Some(k as int),
            None => find_quote(s@, from as int) is None,
        },
{
    let n = s.unicode_len();
    let mut i = from;
    while i < n
        invariant
            from <= i,
            n == s@.len(),
            find_quote(s@, from as int) == find_quote(s@, i as int),
        decreases n - i,
    {
        let c = s.get_char(i);
        if c == '"' || c == '\'' {
            return Some(i);
        }
        i = i + 1;
    }
    None
}

/// The attribute value whose name starts at `p`, as `attr_at` states.
fn attr_at_exec(s: &str, p: usize) -> (r: Option<(usize, usize)>)
    ensures
        match r {
            Some((a, b)) => attr_at(s@, p as int) == Some((a as int, b as int)),
            None => attr_at(s@, p as int) is None,
        },
{
    proof {
        reveal_strlit("type");
        reveal_strlit("provider");
    }
    let n = s.unicode_len();
    if p >= n {
        return None;
    }
    let before = p > 0 && is_word_char(s.get_char(p - 1));
    if before == is_word_char(s.get_char(p)) {
        return None;
    }
    let k = if ci_at_exec(s, p, "type") {
        p + 4
    } else if ci_at_exec(s, p, "provider") {
        p + 8
    } else {
        return None;
    };
    let a = skip_ws_exec(s, k);
    proof {
        lemma_skip_ws(s@, k as int);
    }
    if !(a < n && s.get_char(a) == '=') {
        return None;
    }
    let b = skip_ws_exec(s, a + 1);
    proof {
        lemma_skip_ws(s@, a + 1);
    }
    if !(b < n && (s.get_char(b) == '"' || s.get_char(b) == '\'')) {
        return None;
    }
    match find_quote_exec(s, b + 1) {
        Some(c) => if c > b + 1 {
            Some((b + 1, c))
        } else {
            None
        },
        None => None,
    }
}

/// The value of the first `type` or `provider` attribute, as
/// `provider_attr_of` states.
fn provider_attr(attrs: &str) -> (r: Option<String>)
    ensures
        opt_view(r) == provider_attr_of(attrs@),
{
    let n = attrs.unicode_len();
    let mut p: usize = 0;
    while p < n
        invariant
            n == attrs@.len(),
            first_attr(attrs@, 0) == first_attr(attrs@, p as int),
        decreases n - p,
    {
        match attr_at_exec(attrs, p) {
            Some((a, b)) => {
                proof {
                    lemma_find_quote(attrs@, a as int);
                }
                return Some(owned(attrs.substring_char(a, b)));
            },
            None => {},
        }
        p = p + 1;
    }
    None
}

/// The text of an optional string.
pub open spec fn opt_view(v: Option<String>) -> Option<Seq<char>> {
    match v {
        Some(s) => Some(s@),
        None => None,
    }
}

/// Pairs of texts.
pub open spec fn pair_views(v: Seq<(String, String)>) -> Seq<(Seq<char>, Seq<char>)> {
    v.map_values(|p: (String, String)| (p.0@, p.1@))
}

/// The value of the first `<name>` element of a text: its content with
/// tags removed and trimmed; nothing when that is empty.
pub open spec fn tag_value(xml: Seq<char>, name: Seq<char>) -> Option<Seq<char>> {
    match tag_inner_of(xml, name) {
        Some(raw) => {
            let v = trim_seq(strip_tags(raw));
            if v.len() == 0 {
                None
            } else {
                Some(v)
            }
        },
        None => None,
    }
}

/// The value of the first of the named elements that has one.
pub open spec fn first_tag(xml: Seq<char>, names: Seq<Seq<char>>) -> Option<Seq<char>>
    decreases names.len(),
{
    if names.len() == 0 {
        None
    } else {
        match tag_value(xml, names[0]) {
            Some(v) => Some(v),
            None => first_tag(xml, names.drop_first()),
        }
    }
}

fn tag_value_exec(xml: &str, name: &str) -> (r: Option<String>)
    ensures
        opt_view(r) == tag_value(xml@, name@),
{
    match tag_inner(xml, name) {
        Some(raw) => {
            let stripped = strip_xml_tags(raw.as_str());
            let v = trim(stripped.as_str());
            if v.unicode_len() == 0 {
                None
            } else {
                Some(owned(v))
            }
        },
        None => None,
    }
}

/// The value of the first of the named elements that has one, as
/// `first_tag` states. Element names are ASCII (`fold_eq` is the case
/// folding of ASCII pattern characters).
pub fn first_tag_value(xml: &str, names: &[&str]) -> (r: Option<String>)
    requires
        forall|i: int, j: int| 0 <= i < names@.len() && 0 <= j < names@[i]@.len() ==> (#[trigger] names@[i]@[j] as u32) < 128,
    ensures
        opt_view(r) == first_tag(xml@, names@.map_values(|n: &str| n@)),
{
    let ghost nv = names@.map_values(|n: &str| n@);
    let n = names.len();
    let mut i: usize = 0;
    assert(nv.subrange(0, n as int) =~= nv);
    while i < n
        invariant
            i <= n,
            n == names@.len(),
            nv == names@.map_values(|n: &str| n@),
            first_tag(xml@, nv) == first_tag(xml@, nv.subrange(i as int, n as int)),
        decreases n - i,
    {
        assert(nv.subrange(i as int, n as int).drop_first() =~= nv.subrange(i + 1, n as int));
        let v = tag_value_exec(xml, names[i]);
        if v.is_some() {
            return v;
        }
        i = i + 1;
    }
    None
}

/// The provider named by a `uniqueid` element's attributes: its `type` or
/// `provider` attribute, trimmed and in ASCII lower case, with IMDb, TMDb
/// (`themoviedb`), TVDB (`thetvdb`) and Trakt given their usual names.
pub open spec fn unique_provider(attrs: Seq<char>) -> Option<Seq<char>> {
    match provider_attr_of(attrs) {
        None => None,
        Some(a) => {
            let raw = ascii_lower_seq(trim_seq(a));
            if raw == "imdb"@ {
                Some("Imdb"@)
            } else if raw == "tmdb"@ || raw == "themoviedb"@ {
                Some("Tmdb"@)
            } else if raw == "tvdb"@ || raw == "thetvdb"@ {
                Some("Tvdb"@)
            } else if raw == "trakt"@ {
                Some("Trakt"@)
            } else if raw.len() > 0 {
                Some(raw)
            } else {
                None
            }
        },
    }
}

/// The provider named by a `uniqueid` element's attributes, as
/// `unique_provider` states.
pub fn uniqueid_provider_name(attrs: &str) -> (r: Option<String>)
    ensures
        opt_view(r) == unique_provider(attrs@),
{
    let a = match provider_attr(attrs) {
        Some(a) => a,
        None => return None,
    };
    let raw = to_ascii_lowercase(trim(a.as_str()));
    let t = raw.as_str();
    if str_eq(t, "imdb") {
        Some(owned("Imdb"))
    } else if str_eq(t, "tmdb") || str_eq(t, "themoviedb") {
        Some(owned("Tmdb"))
    } else if str_eq(t, "tvdb") || str_eq(t, "thetvdb") {
        Some(owned("Tvdb"))
    } else if str_eq(t, "trakt") {
        Some(owned("Trakt"))
    } else if t.unicode_len() > 0 {
        Some(raw)
    } else {
        None
    }
}

/// The provider id that a `uniqueid` match (attributes, content) records
/// for provider `k`: its content with tags removed and trimmed, when that
/// is not empty and the match names `k` (`Unknown` when it names none).
pub open spec fn unique_value(m: (Seq<char>, Seq<char>), k: Seq<char>) -> Option<Seq<char>> {
    let v = trim_seq(strip_tags(m.1));
    let name = match unique_provider(m.0) {
        Some(p) => p,
        None => "Unknown"@,
    };
    if v.len() > 0 && name == k {
        Some(v)
    } else {
        None
    }
}

/// The id the first qualifying `uniqueid` match records for provider `k`.
pub open spec fn unique_first(ms: Seq<(Seq<char>, Seq<char>)>, k: Seq<char>) -> Option<Seq<char>>
    decreases ms.len(),
{
    if ms.len() == 0 {
        None
    } else {
        match unique_first(ms.drop_last(), k) {
            Some(v) => Some(v),
            None => unique_value(ms.last(), k),
        }
    }
}

/// The id an NFO text gives provider `k` by a dedicated element:
/// `imdbid`, `tmdbid`, `tvdbid` or `traktid`.
pub open spec fn dedicated_value(xml: Seq<char>, k: Seq<char>) -> Option<Seq<char>> {
    if k == "Imdb"@ {
        tag_value(xml, "imdbid"@)
    } else if k == "Tmdb"@ {
        tag_value(xml, "tmdbid"@)
    } else if k == "Tvdb"@ {
        tag_value(xml, "tvdbid"@)
    } else if k == "Trakt"@ {
        tag_value(xml, "traktid"@)
    } else {
        None
    }
}

/// The id an NFO text gives provider `k`: by its dedicated element, else
/// by the first `uniqueid` element naming it.
pub open spec fn nfo_provider(xml: Seq<char>, k: Seq<char>) -> Option<Seq<char>> {
    match dedicated_value(xml, k) {
        Some(v) => Some(v),
        None => unique_first(uniqueid_matches_of(xml), k),
    }
}

pub proof fn lemma_provider_names()
    ensures
        "Imdb"@ != "Tmdb"@,
        "Imdb"@ != "Tvdb"@,
        "Imdb"@ != "Trakt"@,
        "Tmdb"@ != "Tvdb"@,
        "Tmdb"@ != "Trakt"@,
        "Tvdb"@ != "Trakt"@,
{
    reveal_strlit("Imdb");
    reveal_strlit("Tmdb");
    reveal_strlit("Tvdb");
    reveal_strlit("Trakt");
    assert("Imdb"@[0] != "Tmdb"@[0]);
    assert("Imdb"@[0] != "Tvdb"@[0]);
    assert("Imdb"@.len() != "Trakt"@.len());
    assert("Tmdb"@[1] != "Tvdb"@[1]);
    assert("Tmdb"@.len() != "Trakt"@.len());
    assert("Tvdb"@.len() != "Trakt"@.len());
}

fn push_dedicated(entries: &mut Vec<(String, String)>, xml: &str, tag: &str, key: &str, Ghost(keys): Ghost<Seq<Seq<char>>>)
    requires
        forall|k: Seq<char>| #[trigger] provider(old(entries)@, k) == (if keys.contains(k) {
            dedicated_value(xml@, k)
        } else {
            None
        }),
        dedicated_value(xml@, key@) == tag_value(xml@, tag@),
        !keys.contains(key@),
    ensures
        forall|k: Seq<char>| #[trigger] provider(final(entries)@, k) == (if keys.push(key@).contains(k) {
            dedicated_value(xml@, k)
        } else {
            None
        }),
{
    let ghost before = entries@;
    let v = tag_value_exec(xml, tag);
    if let Some(value) = v {
        entries.push((owned(key), value));
    }
    assert forall|k: Seq<char>| #[trigger] provider(entries@, k) == (if keys.push(key@).contains(k) {
        dedicated_value(xml@, k)
    } else {
        None
    }) by {
        crate::identity::lemma_push_contains(keys, key@, k);
        if entries@.len() != before.len() {
            lemma_provider_push(before, entries@.last(), k);
            assert(entries@ =~= before.push(entries@.last()));
        } else {
            assert(entries@ =~= before);
        }
    }
}

/// The same, before the ids are made a map.
fn provider_ids_from_nfo_text_any(xml: &str) -> (r: ProviderIds)
    ensures
        forall|k: Seq<char>| #[trigger] provider(r.entries@, k) == nfo_provider(xml@, k),
{
    let mut entries: Vec<(String, String)> = Vec::new();
    let ghost k0 = Seq::<Seq<char>>::empty();
    proof {
        reveal_strlit("Imdb");
        reveal_strlit("Tmdb");
        reveal_strlit("Tvdb");
        reveal_strlit("Trakt");
        assert forall|k: Seq<char>| #[trigger] provider(entries@, k) == (if k0.contains(k) {
            dedicated_value(xml@, k)
        } else {
            None
        }) by {}
    }
    proof {
        lemma_provider_names();
    }
    push_dedicated(&mut entries, xml, "imdbid", "Imdb", Ghost(k0));
    let ghost k1 = k0.push("Imdb"@);
    assert(!k1.contains("Tmdb"@)) by {
        assert(k1[0] != "Tmdb"@);
    }
    push_dedicated(&mut entries, xml, "tmdbid", "Tmdb", Ghost(k1));
    let ghost k2 = k1.push("Tmdb"@);
    assert(!k2.contains("Tvdb"@)) by {
        assert(k2[0] != "Tvdb"@ && k2[1] != "Tvdb"@);
    }
    push_dedicated(&mut entries, xml, "tvdbid", "Tvdb", Ghost(k2));
    let ghost k3 = k2.push("Tvdb"@);
    assert(!k3.contains("Trakt"@)) by {
        assert(k3[0] != "Trakt"@ && k3[1] != "Trakt"@ && k3[2] != "Trakt"@);
    }
    push_dedicated(&mut entries, xml, "traktid", "Trakt", Ghost(k3));
    let ghost k4 = k3.push("Trakt"@);
    assert forall|k: Seq<char>| #[trigger] provider(entries@, k) == dedicated_value(xml@, k) by {
        if !k4.contains(k) {
            if k == "Imdb"@ { assert(k4[0] == k); }
            if k == "Tmdb"@ { assert(k4[1] == k); }
            if k == "Tvdb"@ { assert(k4[2] == k); }
            if k == "Trakt"@ { assert(k4[3] == k); }
        }
    }
    let mut out = ProviderIds { entries };

    let matches = uniqueid_matches(xml);
    let ghost ms = pair_views(matches@);
    let n = matches.len();
    let mut i: usize = 0;
    while i < n
        invariant
            i <= n,
            n == matches@.len(),
            ms == pair_views(matches@),
            ms == uniqueid_matches_of(xml@),
            forall|k: Seq<char>| #[trigger] provider(out.entries@, k) == match dedicated_value(xml@, k) {
                Some(v) => Some(v),
                None => unique_first(ms.take(i as int), k),
            },
        decreases n - i,
    {
        let ghost before = out.entries@;
        assert(ms.take(i + 1).drop_last() =~= ms.take(i as int));
        assert(ms.take(i + 1).last() == (matches@[i as int].0@, matches@[i as int].1@));
        let stripped = strip_xml_tags(matches[i].1.as_str());
        let value = trim(stripped.as_str());
        if value.unicode_len() > 0 {
            let name = match uniqueid_provider_name(matches[i].0.as_str()) {
                Some(p) => p,
                None => owned("Unknown"),
            };
            if !out.contains(name.as_str()) {
                out.entries.push((name, owned(value)));
            }
            proof {
                assert forall|k: Seq<char>| #[trigger] provider(out.entries@, k) == match dedicated_value(xml@, k) {
                    Some(v) => Some(v),
                    None => unique_first(ms.take(i + 1), k),
                } by {
                    if out.entries@.len() != before.len() {
                        lemma_provider_push(before, out.entries@.last(), k);
                        assert(out.entries@ =~= before.push(out.entries@.last()));
                    }
                }
            }
        } else {
            proof {
                assert forall|k: Seq<char>| #[trigger] provider(out.entries@, k) == match dedicated_value(xml@, k) {
                    Some(v) => Some(v),
                    None => unique_first(ms.take(i + 1), k),
                } by {
                    assert(unique_value(ms.take(i + 1).last(), k) is None);
                }
            }
        }
        i = i + 1;
    }
    assert(ms.take(n as int) =~= ms);
    out
}

/// The provider ids an NFO text records, as `nfo_provider` states for each
/// provider.
/// The result is a map: each provider once, in name order (see
/// `ProviderIds::normalized`).
pub fn provider_ids_from_nfo_text(xml: &str) -> (r: ProviderIds)
    ensures
        forall|k: Seq<char>| #[trigger] provider(r.entries@, k) == nfo_provider(xml@, k),
        r.wf(),
{
    provider_ids_from_nfo_text_any(xml).normalized()
}

/// `<stem>.nfo` beside a media file, when the file has a stem.
pub open spec fn stem_nfo(dir: Seq<char>, path: Seq<char>) -> Seq<Seq<char>> {
    match file_stem_of(path) {
        Some(st) => seq![joined_path_of(dir, st + ".nfo"@)],
        None => Seq::empty(),
    }
}

/// `tvshow.nfo` and `series.nfo` in a folder and in up to `levels - 1` of
/// the folders above it.
pub open spec fn series_nfos_upward(dir: Seq<char>, levels: nat) -> Seq<Seq<char>>
    decreases levels,
{
    if levels == 0 {
        Seq::empty()
    } else {
        seq![joined_path_of(dir, "tvshow.nfo"@), joined_path_of(dir, "series.nfo"@)] + match parent_path_of(dir) {
            Some(p) => series_nfos_upward(p, (levels - 1) as nat),
            None => Seq::empty(),
        }
    }
}

/// The NFO files that may describe an item, in the order they are tried:
/// for movies, trailers and videos `<stem>.nfo` and `movie.nfo` beside the
/// file; for a series `tvshow.nfo` and `series.nfo` in its folder and the
/// folder above; for a season `season.nfo` too; for an episode
/// `<stem>.nfo`, `episodedetails.nfo`, `episode.nfo` and `season.nfo`
/// beside it, then the series files of its folder and of up to 47 folders
/// above; for other items `<stem>.nfo`.
pub open spec fn nfo_candidates(item_type: Seq<char>, path: Seq<char>) -> Seq<Seq<char>> {
    let parent = parent_path_of(path);
    let parent_series = match parent {
        Some(p) => seq![joined_path_of(p, "tvshow.nfo"@), joined_path_of(p, "series.nfo"@)],
        None => Seq::empty(),
    };
    if item_type == "Movie"@ || item_type == "Trailer"@ || item_type == "Video"@ {
        match parent {
            Some(p) => stem_nfo(p, path) + seq![joined_path_of(p, "movie.nfo"@)],
            None => Seq::empty(),
        }
    } else if item_type == "Series"@ {
        seq![joined_path_of(path, "tvshow.nfo"@), joined_path_of(path, "series.nfo"@)] + parent_series
    } else if item_type == "Season"@ {
        seq![joined_path_of(path, "season.nfo"@), joined_path_of(path, "tvshow.nfo"@), joined_path_of(path, "series.nfo"@)]
            + parent_series
    } else if item_type == "Episode"@ {
        match parent {
            Some(dir) => stem_nfo(dir, path) + seq![
                joined_path_of(dir, "episodedetails.nfo"@),
                joined_path_of(dir, "episode.nfo"@),
                joined_path_of(dir, "season.nfo"@),
            ] + series_nfos_upward(dir, 48),
            None => Seq::empty(),
        }
    } else {
        match parent {
            Some(p) => stem_nfo(p, path),
            None => Seq::empty(),
        }
    }
}

fn push_join(out: &mut Vec<String>, dir: &str, part: &str)
    ensures
        views(final(out)@) == views(old(out)@).push(joined_path_of(dir@, part@)),
{
    let ghost before = out@;
    out.push(join_path(dir, part));
    assert(views(out@) =~= views(before).push(joined_path_of(dir@, part@)));
}

fn push_stem_nfo(out: &mut Vec<String>, dir: &str, path: &str)
    ensures
        views(final(out)@) == views(old(out)@) + stem_nfo(dir@, path@),
{
    let ghost before = out@;
    if let Some(stem) = file_stem(path) {
        let mut name = stem;
        name.append(".nfo");
        push_join(out, dir, name.as_str());
    }
    assert(views(out@) =~= views(before) + stem_nfo(dir@, path@));
}

/// The NFO files that may describe an item, as `nfo_candidates` states.
pub fn nfo_candidates_for_item(item_type: &str, path: &str) -> (r: Vec<String>)
    ensures
        views(r@) == nfo_candidates(item_type@, path@),
{
    let mut out: Vec<String> = Vec::new();
    let parent = parent_path(path);
    if str_eq(item_type, "Movie") || str_eq(item_type, "Trailer") || str_eq(item_type, "Video") {
        if let Some(p) = &parent {
            push_stem_nfo(&mut out, p.as_str(), path);
            push_join(&mut out, p.as_str(), "movie.nfo");
        }
        assert(views(out@) =~= nfo_candidates(item_type@, path@));
    } else if str_eq(item_type, "Series") {
        push_join(&mut out, path, "tvshow.nfo");
        push_join(&mut out, path, "series.nfo");
        let ghost first = views(out@);
        assert(first =~= seq![joined_path_of(path@, "tvshow.nfo"@), joined_path_of(path@, "series.nfo"@)]);
        if let Some(p) = &parent {
            push_join(&mut out, p.as_str(), "tvshow.nfo");
            push_join(&mut out, p.as_str(), "series.nfo");
        }
        assert(views(out@) =~= nfo_candidates(item_type@, path@));
    } else if str_eq(item_type, "Season") {
        push_join(&mut out, path, "season.nfo");
        push_join(&mut out, path, "tvshow.nfo");
        push_join(&mut out, path, "series.nfo");
        let ghost first = views(out@);
        assert(first =~= seq![
            joined_path_of(path@, "season.nfo"@),
            joined_path_of(path@, "tvshow.nfo"@),
            joined_path_of(path@, "series.nfo"@),
        ]);
        if let Some(p) = &parent {
            push_join(&mut out, p.as_str(), "tvshow.nfo");
            push_join(&mut out, p.as_str(), "series.nfo");
        }
        assert(views(out@) =~= nfo_candidates(item_type@, path@));
    } else if str_eq(item_type, "Episode") {
        if let Some(p) = &parent {
            push_stem_nfo(&mut out, p.as_str(), path);
            push_join(&mut out, p.as_str(), "episodedetails.nfo");
            push_join(&mut out, p.as_str(), "episode.nfo");
            push_join(&mut out, p.as_str(), "season.nfo");
            let ghost start = views(out@);
            assert(start =~= stem_nfo(p@, path@) + seq![
                joined_path_of(p@, "episodedetails.nfo"@),
                joined_path_of(p@, "episode.nfo"@),
                joined_path_of(p@, "season.nfo"@),
            ]);
            assert(nfo_candidates(item_type@, path@) =~= start + series_nfos_upward(p@, 48));
            let mut dir = p.clone();
            let mut level: usize = 0;
            while level < 48
                invariant
                    level <= 48,
                    nfo_candidates(item_type@, path@) == start + series_nfos_upward(p@, 48),
                    views(out@) + series_nfos_upward(dir@, (48 - level) as nat) == start + series_nfos_upward(p@, 48),
                decreases 48 - level,
            {
                let ghost before = views(out@);
                let ghost d = dir@;
                push_join(&mut out, dir.as_str(), "tvshow.nfo");
                push_join(&mut out, dir.as_str(), "series.nfo");
                match parent_path(dir.as_str()) {
                    Some(up) => {
                        assert(views(out@) + series_nfos_upward(up@, (48 - level - 1) as nat) =~= before
                            + series_nfos_upward(d, (48 - level) as nat));
                        dir = up;
                    },
                    None => {
                        assert(views(out@) =~= before + series_nfos_upward(d, (48 - level) as nat));
                        assert(views(out@) =~= start + series_nfos_upward(p@, 48));
                        assert(views(out@) =~= nfo_candidates(item_type@, path@));
                        return out;
                    },
                }
                level = level + 1;
            }
            assert(views(out@) =~= start + series_nfos_upward(p@, 48));
        }
        assert(views(out@) =~= nfo_candidates(item_type@, path@));
    } else {
        if let Some(p) = &parent {
            push_stem_nfo(&mut out, p.as_str(), path);
        }
        assert(views(out@) =~= nfo_candidates(item_type@, path@));
    }
    out
}

/// The same, before the ids are made a map.
fn merge_nfo_text_any(found: ProviderIds, xml: &str) -> (r: ProviderIds)
    ensures
        forall|k: Seq<char>| #[trigger] provider(r.entries@, k) == match provider(found.entries@, k) {
            Some(v) => Some(v),
            None => nfo_provider(xml@, k),
        },
{
    let ghost base = found.entries@;
    let from_file = provider_ids_from_nfo_text(xml);
    let r = merge_provider_ids(found, &from_file);
    assert forall|k: Seq<char>| #[trigger] provider(r.entries@, k) == match provider(base, k) {
        Some(v) => Some(v),
        None => nfo_provider(xml@, k),
    } by {
        assert(merged_providers(base, from_file.entries@, r.entries@));
        assert(provider(r.entries@, k) == match provider(base, k) {
            Some(v) => Some(v),
            None => provider(from_file.entries@, k),
        });
    }
    r
}

/// The provider ids after reading one more NFO file: those already found,
/// and for providers not yet found those the file records.
/// The result is a map: each provider once, in name order (see
/// `ProviderIds::normalized`).
pub fn merge_nfo_text(found: ProviderIds, xml: &str) -> (r: ProviderIds)
    ensures
        forall|k: Seq<char>| #[trigger] provider(r.entries@, k) == match provider(found.entries@, k) {
            Some(v) => Some(v),
            None => nfo_provider(xml@, k),
        },
        r.wf(),
{
    merge_nfo_text_any(found, xml).normalized()
}

/// The same, before the ids are made a map.
fn provider_ids_for_item_any(stored: ProviderIds, from_nfo: &ProviderIds, from_path: &ProviderIds) -> (r: ProviderIds)
    ensures
        forall|k: Seq<char>| #[trigger] provider(r.entries@, k) == match provider(stored.entries@, k) {
            Some(v) => Some(v),
            None => match provider(from_nfo.entries@, k) {
                Some(v) => Some(v),
                None => provider(from_path.entries@, k),
            },
        },
{
    let ghost base = stored.entries@;
    let with_nfo = merge_provider_ids(stored, from_nfo);
    let ghost mid = with_nfo.entries@;
    let r = merge_provider_ids(with_nfo, from_path);
    assert forall|k: Seq<char>| #[trigger] provider(r.entries@, k) == match provider(base, k) {
        Some(v) => Some(v),
        None => match provider(from_nfo.entries@, k) {
            Some(v) => Some(v),
            None => provider(from_path.entries@, k),
        },
    } by {
        assert(merged_providers(base, from_nfo.entries@, mid));
        assert(merged_providers(mid, from_path.entries@, r.entries@));
        assert(provider(mid, k) == match provider(base, k) {
            Some(v) => Some(v),
            None => provider(from_nfo.entries@, k),
        });
        assert(provider(r.entries@, k) == match provider(mid, k) {
            Some(v) => Some(v),
            None => provider(from_path.entries@, k),
        });
    }
    r
}

/// The provider ids of an item: those stored with it, then for providers
/// still missing those of its NFO files, then those its path records.
/// The result is a map: each provider once, in name order (see
/// `ProviderIds::normalized`).
pub fn provider_ids_for_item(stored: ProviderIds, from_nfo: &ProviderIds, from_path: &ProviderIds) -> (r: ProviderIds)
    ensures
        forall|k: Seq<char>| #[trigger] provider(r.entries@, k) == match provider(stored.entries@, k) {
            Some(v) => Some(v),
            None => match provider(from_nfo.entries@, k) {
                Some(v) => Some(v),
                None => provider(from_path.entries@, k),
            },
        },
        r.wf(),
{
    provider_ids_for_item_any(stored, from_nfo, from_path).normalized()
}

} // verus!
