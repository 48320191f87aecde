//! Provider ids written into file paths as `{tmdbid=...}`, `{imdbid=...}`,
//! `{tvdbid=...}` and `{traktid=...}` markers.

use vstd::prelude::*;
use vstd::string::StringSliceAdditionalSpecFns;
use vstd::utf8::{decode_utf8, encode_utf8, is_char_boundary, is_continuation_byte, valid_utf8};
use crate::identity::{lemma_provider_push, provider, ProviderIds};
use crate::nfo::lemma_provider_names;
use crate::text::{owned, to_lowercase, trim, trim_seq, unicode_lower};

verus! {

broadcast use vstd::utf8::encode_utf8_valid_utf8, vstd::utf8::encode_utf8_decode_utf8;

/// The first position at or after `i` where `pat` occurs in `hay`.
pub open spec fn first_match_from(hay: Seq<u8>, pat: Seq<u8>, i: nat) -> Option<int>
    decreases hay.len() - i,
{
    if i + pat.len() > hay.len() {
        None
    } else if hay.subrange(i as int, (i + pat.len()) as int) == pat {
        Some(i as int)
    } else {
        proof {
            if pat.len() == 0 {
                assert(hay.subrange(i as int, i as int) =~= pat);
            }
        }
        first_match_from(hay, pat, i + 1)
    }
}

/// A match found by `first_match_from` is an occurrence of the pattern.
pub proof fn lemma_first_match(hay: Seq<u8>, pat: Seq<u8>, i: nat)
    ensures
        match first_match_from(hay, pat, i) {
            Some(j) => i <= j && j + pat.len() <= hay.len() && hay.subrange(j, j + pat.len()) == pat,
            None => true,
        },
    decreases hay.len() - i,
{
    if i + pat.len() <= hay.len() && hay.subrange(i as int, (i + pat.len()) as int) != pat {
        if pat.len() == 0 {
            assert(hay.subrange(i as int, i as int) =~= pat);
        }
        lemma_first_match(hay, pat, i + 1);
    }
}

/// Where the value after a marker starts, in bytes of the path: the marker
/// is searched in the path in lower case (Unicode), and the value starts
/// that many bytes into the path itself.
pub open spec fn marker_start(path: Seq<char>, marker: Seq<char>) -> Option<int> {
    match first_match_from(encode_utf8(unicode_lower(path)), encode_utf8(marker), 0) {
        Some(st) => Some(st + encode_utf8(marker).len()),
        None => None,
    }
}

/// Whether the value position of a marker can be read from the path: it
/// lies within the path and at a character boundary.
pub open spec fn marker_sliceable(path: Seq<char>, marker: Seq<char>) -> bool {
    match marker_start(path, marker) {
        Some(vs) => vs <= encode_utf8(path).len() && is_char_boundary(encode_utf8(path), vs),
        None => true,
    }
}

/// The value a marker gives: the text from its value position up to the
/// next `}`, trimmed; nothing when the marker or the `}` is missing or the
/// value is blank.
pub open spec fn marker_value(path: Seq<char>, marker: Seq<char>) -> Option<Seq<char>> {
    match marker_start(path, marker) {
        None => None,
        Some(vs) => {
            let pb = encode_utf8(path);
            let rest = pb.subrange(vs, pb.len() as int);
            match first_match_from(rest, seq![125u8], 0) {
                None => None,
                Some(rel) => {
                    let v = trim_seq(decode_utf8(rest.subrange(0, rel)));
                    if v.len() == 0 {
                        None
                    } else {
                        Some(v)
                    }
                },
            }
        },
    }
}

/// Whether every marker's value position can be read from the path.
pub open spec fn path_sliceable(path: Seq<char>) -> bool {
    &&& marker_sliceable(path, "{tmdbid="@)
    &&& marker_sliceable(path, "{imdbid="@)
    &&& marker_sliceable(path, "{tvdbid="@)
    &&& marker_sliceable(path, "{traktid="@)
}

/// The id a path gives provider `k` by its marker.
pub open spec fn path_provider(path: Seq<char>, k: Seq<char>) -> Option<Seq<char>> {
    if k == "Tmdb"@ {
        marker_value(path, "{tmdbid="@)
    } else if k == "Imdb"@ {
        marker_value(path, "{imdbid="@)
    } else if k == "Tvdb"@ {
        marker_value(path, "{tvdbid="@)
    } else if k == "Trakt"@ {
        marker_value(path, "{traktid="@)
    } else {
        None
    }
}

/// The first position of `pat` in `hay`, as `first_match_from` states.
fn find_bytes(hay: &[u8], pat: &[u8]) -> (r: Option<usize>)
    ensures
        match r {
            Some(i) => first_match_from(hay@, pat@, 0) == Some(i as int) && i + pat@.len() <= hay@.len()
                && hay@.len() <= usize::MAX,
            None => first_match_from(hay@, pat@, 0) is None,
        },
{
    let n = hay.len();
    let m = pat.len();
    let mut i: usize = 0;
    while i <= n && m <= n - i
        invariant
            n == hay@.len(),
            m == pat@.len(),
            i <= n + 1,
            first_match_from(hay@, pat@, 0) == first_match_from(hay@, pat@, i as nat),
        decreases n + 1 - i,
    {
        let mut j: usize = 0;
        let mut same = true;
        while j < m
            invariant
                n == hay@.len(),
                m == pat@.len(),
                i + m <= n,
                j <= m,
                same == (forall|k: int| 0 <= k < j ==> hay@[i + k] == pat@[k]),
            decreases m - j,
        {
            if hay[i + j] != pat[j] {
                same = false;
            }
            j = j + 1;
        }
        if same {
            assert(hay@.subrange(i as int, i + m) =~= pat@);
            return Some(i);
        }
        assert(hay@.subrange(i as int, i + m) != pat@) by {
            let k = choose|k: int| 0 <= k < m && hay@[i + k] != pat@[k];
            assert(hay@.subrange(i as int, i + m)[k] == hay@[i + k]);
        }
        i = i + 1;
    }
    None
}

/// The value a marker gives, as `marker_value` states.
fn marker_value_exec(path: &str, lower: &str, marker: &str) -> (r: Option<String>)
    requires
        lower@ == unicode_lower(path@),
        marker_sliceable(path@, marker@),
    ensures
        match r {
            Some(s) => marker_value(path@, marker@) == Some(s@),
            None => marker_value(path@, marker@) is None,
        },
{
    let lb = lower.as_bytes();
    let mb = marker.as_bytes();
    let st = match find_bytes(lb, mb) {
        Some(st) => st,
        None => return None,
    };
    let vs = st + mb.len();
    let (_, rest) = path.split_at(vs);
    let rb = rest.as_bytes();
    let close: [u8; 1] = [125];
    assert(close@ =~= seq![125u8]);
    let rel = match find_bytes(rb, &close) {
        Some(rel) => rel,
        None => return None,
    };
    proof {
        lemma_first_match(rb@, close@, 0);
        assert(rb@.subrange(rel as int, rel + 1)[0] == 125u8);
        assert(rb@[rel as int] == 125u8);
        assert(valid_utf8(rb@));
        vstd::utf8::is_char_boundary_iff_not_is_continuation_byte(rb@, rel as int);
        assert(!is_continuation_byte(rb@[rel as int]));
    }
    let (v, _) = rest.split_at(rel);
    proof {
        assert(v.spec_bytes() == encode_utf8(v@));
        assert(decode_utf8(encode_utf8(v@)) == v@);
    }
    let t = trim(v);
    if t.unicode_len() == 0 {
        None
    } else {
        Some(owned(t))
    }
}

fn push_marker(
    entries: &mut Vec<(String, String)>,
    path: &str,
    lower: &str,
    marker: &str,
    key: &str,
    Ghost(keys): Ghost<Seq<Seq<char>>>,
)
    requires
        lower@ == unicode_lower(path@),
        marker_sliceable(path@, marker@),
        forall|k: Seq<char>| #[trigger] provider(old(entries)@, k) == (if keys.contains(k) {
            path_provider(path@, k)
        } else {
            None
        }),
        path_provider(path@, key@) == marker_value(path@, marker@),
        !keys.contains(key@),
    ensures
        forall|k: Seq<char>| #[trigger] provider(final(entries)@, k) == (if keys.push(key@).contains(k) {
            path_provider(path@, k)
        } else {
            None
        }),
{
    let ghost before = entries@;
    if let Some(value) = marker_value_exec(path, lower, marker) {
        entries.push((owned(key), value));
    }
    assert forall|k: Seq<char>| #[trigger] provider(entries@, k) == (if keys.push(key@).contains(k) {
        path_provider(path@, k)
    } else {
        None
    }) by {
        crate::identity::lemma_push_contains(keys, key@, k);
        if entries@.len() != before.len() {
            lemma_provider_push(before, entries@.last(), k);
            assert(entries@ =~= before.push(entries@.last()));
        } else {
            assert(entries@ =~= before);
        }
    }
}

/// The same, before the ids are made a map.
fn provider_ids_from_path_text_any(path: &str) -> (r: ProviderIds)
    requires
        path_sliceable(path@),
    ensures
        forall|k: Seq<char>| #[trigger] provider(r.entries@, k) == path_provider(path@, k),
{
    let lower = to_lowercase(path);
    let mut entries: Vec<(String, String)> = Vec::new();
    let ghost k0 = Seq::<Seq<char>>::empty();
    proof {
        lemma_provider_names();
    }
    push_marker(&mut entries, path, lower.as_str(), "{tmdbid=", "Tmdb", Ghost(k0));
    let ghost k1 = k0.push("Tmdb"@);
    assert(!k1.contains("Imdb"@)) by {
        assert(k1[0] != "Imdb"@);
    }
    push_marker(&mut entries, path, lower.as_str(), "{imdbid=", "Imdb", Ghost(k1));
    let ghost k2 = k1.push("Imdb"@);
    assert(!k2.contains("Tvdb"@)) by {
        assert(k2[0] != "Tvdb"@ && k2[1] != "Tvdb"@);
    }
    push_marker(&mut entries, path, lower.as_str(), "{tvdbid=", "Tvdb", Ghost(k2));
    let ghost k3 = k2.push("Tvdb"@);
    assert(!k3.contains("Trakt"@)) by {
        assert(k3[0] != "Trakt"@ && k3[1] != "Trakt"@ && k3[2] != "Trakt"@);
    }
    push_marker(&mut entries, path, lower.as_str(), "{traktid=", "Trakt", Ghost(k3));
    let ghost k4 = k3.push("Trakt"@);
    assert forall|k: Seq<char>| #[trigger] provider(entries@, k) == path_provider(path@, k) by {
        if !k4.contains(k) {
            if k == "Tmdb"@ { assert(k4[0] == k); }
            if k == "Imdb"@ { assert(k4[1] == k); }
            if k == "Tvdb"@ { assert(k4[2] == k); }
            if k == "Trakt"@ { assert(k4[3] == k); }
        }
    }
    ProviderIds { entries }
}

/// The provider ids a path records by markers, as `path_provider` states
/// for each provider. The markers are found in the path in lower case and
/// their values read at the same byte positions of the path; `requires`
/// leaves out the paths where such a position falls inside a character
/// or beyond the path (the slicing would panic).
/// The result is a map: each provider once, in name order (see
/// `ProviderIds::normalized`).
pub fn provider_ids_from_path_text(path: &str) -> (r: ProviderIds)
    requires
        path_sliceable(path@),
    ensures
        forall|k: Seq<char>| #[trigger] provider(r.entries@, k) == path_provider(path@, k),
        r.wf(),
{
    provider_ids_from_path_text_any(path).normalized()
}

/// Whether a marker's value position can be read from the path, as
/// `marker_sliceable` states.
fn marker_sliceable_exec(path: &str, lower: &str, marker: &str) -> (r: bool)
    requires
        lower@ == unicode_lower(path@),
    ensures
        r == marker_sliceable(path@, marker@),
{
    match find_bytes(lower.as_bytes(), marker.as_bytes()) {
        Some(st) => {
            let vs = st + marker.as_bytes().len();
            vs <= path.as_bytes().len() && path.is_char_boundary(vs)
        },
        None => true,
    }
}

/// The provider ids a path records by markers, as
/// `provider_ids_from_path_text` gives them; `None` for a path where a
/// marker's value position cannot be read.
pub fn provider_ids_in_path(path: &str) -> (r: Option<ProviderIds>)
    ensures
        match r {
            Some(p) => path_sliceable(path@) && forall|k: Seq<char>| #[trigger] provider(p.entries@, k) == path_provider(path@, k),
            None => !path_sliceable(path@),
        },
{
    let lower = to_lowercase(path);
    let l = lower.as_str();
    if marker_sliceable_exec(path, l, "{tmdbid=") && marker_sliceable_exec(path, l, "{imdbid=")
        && marker_sliceable_exec(path, l, "{tvdbid=") && marker_sliceable_exec(path, l, "{traktid=") {
        Some(provider_ids_from_path_text(path))
    } else {
        None
    }
}

} // verus!
