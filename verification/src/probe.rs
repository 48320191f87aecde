//! What is stored of the streams a media analysis reports: which streams
//! get a row, and the numbers and texts read from their tags.

use vstd::prelude::*;
use crate::json::{first_field, key_views, JsonFields, JsonScalar};
use crate::media::{db_stream_type, normalize_stream_type_for_media_streams_db};
use crate::text::str_eq;

verus! {

/// Whether every character is an ASCII digit.
pub open spec fn all_digits(s: Seq<char>) -> bool {
    forall|i: int| 0 <= i < s.len() ==> '0' <= #[trigger] s[i] <= '9'
}

/// The number a run of decimal digits writes.
pub open spec fn digits_value(s: Seq<char>) -> int
    decreases s.len(),
{
    if s.len() == 0 {
        0
    } else {
        digits_value(s.drop_last()) * 10 + (s.last() as int - '0' as int)
    }
}

/// What `str::parse::<i32>` gives: an optional `+` or `-` and at least one
/// digit, nothing else, within the range of `i32`.
pub open spec fn decimal_i32(s: Seq<char>) -> Option<i32> {
    let neg = s.len() > 0 && s[0] == '-';
    let body = if s.len() > 0 && (s[0] == '-' || s[0] == '+') {
        s.drop_first()
    } else {
        s
    };
    if body.len() == 0 || !all_digits(body) {
        None
    } else {
        let v = if neg {
            -digits_value(body)
        } else {
            digits_value(body)
        };
        if i32::MIN <= v <= i32::MAX {
            Some(v as i32)
        } else {
            None
        }
    }
}

proof fn lemma_digits_step(s: Seq<char>, k: int)
    requires
        0 <= k < s.len(),
        all_digits(s),
    ensures
        digits_value(s.take(k + 1)) == digits_value(s.take(k)) * 10 + (s[k] as int - '0' as int),
        digits_value(s.take(k)) >= 0,
    decreases k,
{
    assert(s.take(k + 1).drop_last() =~= s.take(k));
    if k > 0 {
        lemma_digits_step(s, k - 1);
    }
}

proof fn lemma_digits_grow(s: Seq<char>, j: int, k: int)
    requires
        0 <= j <= k <= s.len(),
        all_digits(s),
    ensures
        digits_value(s.take(j)) <= digits_value(s.take(k)),
    decreases k - j,
{
    if j < k {
        lemma_digits_step(s, k - 1);
        lemma_digits_grow(s, j, k - 1);
    }
}

/// A text read as an `i32`, as `decimal_i32` states.
pub fn parse_i32(s: &str) -> (r: Option<i32>)
    ensures
        r == decimal_i32(s@),
{
    let n = s.unicode_len();
    if n == 0 {
        return None;
    }
    let first = s.get_char(0);
    let neg = first == '-';
    let start: usize = if first == '-' || first == '+' {
        1
    } else {
        0
    };
    let ghost body = if first == '-' || first == '+' {
        s@.drop_first()
    } else {
        s@
    };
    if start == n {
        assert(body.len() == 0);
        return None;
    }
    let mut acc: i64 = 0;
    let mut i: usize = start;
    while i < n
        invariant
            start <= i <= n,
            n == s@.len(),
            start == 0 || start == 1,
            body == s@.subrange(start as int, n as int),
            body == (if s@.len() > 0 && (s@[0] == '-' || s@[0] == '+') {
                s@.drop_first()
            } else {
                s@
            }),
            neg == (s@.len() > 0 && s@[0] == '-'),
            all_digits(body.take(i - start)),
            acc == digits_value(body.take(i - start)),
            0 <= acc <= 2147483648,
        decreases n - i,
    {
        let c = s.get_char(i);
        if c < '0' || c > '9' {
            assert(body[i - start] == c);
            assert(!all_digits(body));
            return None;
        }
        let ghost k = (i - start) as int;
        assert(all_digits(body.take(k + 1)));
        proof {
            lemma_digits_step(body.take(k + 1), k);
            assert(body.take(k + 1).take(k) =~= body.take(k));
            assert(body.take(k + 1).take(k + 1) =~= body.take(k + 1));
        }
        let next: i64 = acc * 10 + ((c as u32) - 48) as i64;
        if next > 2147483648 {
            proof {
                if all_digits(body) {
                    lemma_digits_grow(body, k + 1, body.len() as int);
                    assert(body.take(body.len() as int) =~= body);
                }
            }
            return None;
        }
        acc = next;
        i = i + 1;
    }
    assert(body.take(n - start) =~= body);
    if neg {
        Some((0 - acc) as i32)
    } else if acc > 2147483647 {
        None
    } else {
        Some(acc as i32)
    }
}

/// The text a tag holds, if it is a string.
pub open spec fn tag_text_of(tags: Option<JsonFields>, keys: Seq<Seq<char>>) -> Option<Seq<char>> {
    match tags {
        Some(t) => match first_field(t.entries@, keys) {
            Some(JsonScalar::Str(s)) => Some(s@),
            _ => None,
        },
        None => None,
    }
}

/// The number a tag holds, if it is a string `str::parse::<i32>` accepts.
pub open spec fn tag_i32_of(tags: Option<JsonFields>, keys: Seq<Seq<char>>) -> Option<i32> {
    match tag_text_of(tags, keys) {
        Some(s) => decimal_i32(s),
        None => None,
    }
}

/// The text of the first of `keys` present in the tags, if it is a string.
pub fn tag_text(tags: &Option<JsonFields>, keys: &[&str]) -> (r: Option<String>)
    ensures
        match r {
            Some(s) => tag_text_of(*tags, key_views(keys@)) == Some(s@),
            None => tag_text_of(*tags, key_views(keys@)) is None,
        },
{
    match tags {
        Some(t) => match t.get_first(keys) {
            Some(JsonScalar::Str(s)) => Some(s),
            _ => None,
        },
        None => None,
    }
}

/// The number the first of `keys` present in the tags holds as a string.
pub fn tag_i32(tags: &Option<JsonFields>, keys: &[&str]) -> (r: Option<i32>)
    ensures
        r == tag_i32_of(*tags, key_views(keys@)),
{
    match tag_text(tags, keys) {
        Some(s) => parse_i32(s.as_str()),
        None => None,
    }
}

/// The flag a tag holds, if it is a boolean.
pub open spec fn tag_flag_of(tags: Option<JsonFields>, key: Seq<char>) -> Option<bool> {
    match tags {
        Some(t) => match first_field(t.entries@, seq![key]) {
            Some(JsonScalar::Bool(b)) => Some(b),
            _ => None,
        },
        None => None,
    }
}

/// A stream as the media analysis reports it, in the parts that are not
/// stored as they come.
pub struct ProbedStream {
    pub index: i32,
    pub codec_type: String,
    pub bit_rate: Option<String>,
    pub sample_rate: Option<String>,
    pub tags: Option<JsonFields>,
}

/// What a stored stream row reads from a reported stream.
pub struct StoredStreamFields {
    pub stream_type: &'static str,
    pub bit_rate: Option<i32>,
    pub sample_rate: Option<i32>,
    pub codec_tag: Option<String>,
    pub bit_depth: Option<i32>,
    pub rotation: Option<i32>,
    pub hdr10_plus_present_flag: Option<bool>,
    pub dv_version_major: Option<i32>,
    pub dv_version_minor: Option<i32>,
    pub dv_profile: Option<i32>,
    pub dv_level: Option<i32>,
    pub dv_bl_signal_compatibility_id: Option<i32>,
    pub comment: Option<String>,
    pub time_base: Option<String>,
    pub codec_time_base: Option<String>,
}

/// An optional text read as an `i32`.
pub open spec fn opt_i32(v: Option<String>) -> Option<i32> {
    match v {
        Some(s) => decimal_i32(s@),
        None => None,
    }
}

pub open spec fn opt_text(v: Option<String>) -> Option<Seq<char>> {
    match v {
        Some(s) => Some(s@),
        None => None,
    }
}

/// Whether `f` is what is stored of `s`: its stream type as
/// `db_stream_type` maps it; its bit and sample rates parsed; its bit depth
/// from `bits_per_raw_sample`, else `bits_per_sample`; the other numbers,
/// texts and the HDR10+ flag from the tags of their names.
pub open spec fn stores_stream(f: StoredStreamFields, s: ProbedStream) -> bool {
    &&& db_stream_type(s.codec_type@) == Some(f.stream_type@)
    &&& f.bit_rate == opt_i32(s.bit_rate)
    &&& f.sample_rate == opt_i32(s.sample_rate)
    &&& opt_text(f.codec_tag) == tag_text_of(s.tags, seq!["codec_tag_string"@])
    &&& f.bit_depth == tag_i32_of(s.tags, seq!["bits_per_raw_sample"@, "bits_per_sample"@])
    &&& f.rotation == tag_i32_of(s.tags, seq!["rotation"@])
    &&& f.hdr10_plus_present_flag == tag_flag_of(s.tags, "hdr10_plus_present_flag"@)
    &&& f.dv_version_major == tag_i32_of(s.tags, seq!["dv_version_major"@])
    &&& f.dv_version_minor == tag_i32_of(s.tags, seq!["dv_version_minor"@])
    &&& f.dv_profile == tag_i32_of(s.tags, seq!["dv_profile"@])
    &&& f.dv_level == tag_i32_of(s.tags, seq!["dv_level"@])
    &&& f.dv_bl_signal_compatibility_id == tag_i32_of(s.tags, seq!["dv_bl_signal_compatibility_id"@])
    &&& opt_text(f.comment) == tag_text_of(s.tags, seq!["comment"@])
    &&& opt_text(f.time_base) == tag_text_of(s.tags, seq!["time_base"@])
    &&& opt_text(f.codec_time_base) == tag_text_of(s.tags, seq!["codec_time_base"@])
}

fn parse_opt(v: &Option<String>) -> (r: Option<i32>)
    ensures
        r == opt_i32(*v),
{
    match v {
        Some(s) => parse_i32(s.as_str()),
        None => None,
    }
}

fn one_key(tags: &Option<JsonFields>, key: &str) -> (r: Option<i32>)
    ensures
        r == tag_i32_of(*tags, seq![key@]),
{
    let keys = [key];
    assert(key_views(keys@) =~= seq![key@]);
    tag_i32(tags, &keys)
}

fn one_text(tags: &Option<JsonFields>, key: &str) -> (r: Option<String>)
    ensures
        opt_text(r) == tag_text_of(*tags, seq![key@]),
{
    let keys = [key];
    assert(key_views(keys@) =~= seq![key@]);
    tag_text(tags, &keys)
}

fn one_flag(tags: &Option<JsonFields>, key: &str) -> (r: Option<bool>)
    ensures
        r == tag_flag_of(*tags, key@),
{
    match tags {
        Some(t) => {
            let keys = [key];
            assert(key_views(keys@) =~= seq![key@]);
            match t.get_first(&keys) {
                Some(JsonScalar::Bool(b)) => Some(b),
                _ => None,
            }
        },
        None => None,
    }
}

/// What is stored of a reported stream (see `stores_stream`); nothing for a
/// stream whose type has no stored form.
pub fn stream_row_fields(stream: &ProbedStream) -> (r: Option<StoredStreamFields>)
    ensures
        match r {
            Some(f) => stores_stream(f, *stream),
            None => db_stream_type(stream.codec_type@) is None,
        },
{
    let stream_type = match normalize_stream_type_for_media_streams_db(stream.codec_type.as_str()) {
        Some(t) => t,
        None => return None,
    };
    let tags = &stream.tags;
    let depth_keys = ["bits_per_raw_sample", "bits_per_sample"];
    assert(key_views(depth_keys@) =~= seq!["bits_per_raw_sample"@, "bits_per_sample"@]);
    Some(StoredStreamFields {
        stream_type,
        bit_rate: parse_opt(&stream.bit_rate),
        sample_rate: parse_opt(&stream.sample_rate),
        codec_tag: one_text(tags, "codec_tag_string"),
        bit_depth: tag_i32(tags, &depth_keys),
        rotation: one_key(tags, "rotation"),
        hdr10_plus_present_flag: one_flag(tags, "hdr10_plus_present_flag"),
        dv_version_major: one_key(tags, "dv_version_major"),
        dv_version_minor: one_key(tags, "dv_version_minor"),
        dv_profile: one_key(tags, "dv_profile"),
        dv_level: one_key(tags, "dv_level"),
        dv_bl_signal_compatibility_id: one_key(tags, "dv_bl_signal_compatibility_id"),
        comment: one_text(tags, "comment"),
        time_base: one_text(tags, "time_base"),
        codec_time_base: one_text(tags, "codec_time_base"),
    })
}

/// The row key of a reported stream: its index and stored type; none when
/// the type has no stored form.
pub open spec fn row_key(s: ProbedStream) -> Option<(i32, Seq<char>)> {
    match db_stream_type(s.codec_type@) {
        Some(t) => Some((s.index, t)),
        None => None,
    }
}

/// The positions of the streams that get a row, in order: a stream with a
/// stored type whose (index, type) no earlier kept stream has; later
/// streams with the same key are skipped.
pub open spec fn kept_streams(streams: Seq<ProbedStream>) -> Seq<int>
    decreases streams.len(),
{
    if streams.len() == 0 {
        Seq::empty()
    } else {
        let prev = kept_streams(streams.drop_last());
        let last = streams.len() - 1;
        match row_key(streams[last]) {
            Some(k) => if exists|j: int| 0 <= j < prev.len() && row_key(streams[prev[j]]) == Some(k) {
                prev
            } else {
                prev.push(last)
            },
            None => prev,
        }
    }
}

proof fn lemma_kept_prefix(streams: Seq<ProbedStream>, i: int)
    requires
        0 <= i < streams.len(),
    ensures
        kept_streams(streams.take(i + 1)) == ({
            let prev = kept_streams(streams.take(i));
            match row_key(streams[i]) {
                Some(k) => if exists|j: int| 0 <= j < prev.len() && row_key(streams[prev[j]]) == Some(k) {
                    prev
                } else {
                    prev.push(i)
                },
                None => prev,
            }
        }),
{
    let t = streams.take(i + 1);
    assert(t.drop_last() =~= streams.take(i));
    assert(t[i] == streams[i]);
    lemma_kept_bounded(streams.take(i));
    let prev = kept_streams(streams.take(i));
    assert forall|j: int| 0 <= j < prev.len() implies t[prev[j]] == streams[prev[j]] by {}
    if let Some(k) = row_key(streams[i]) {
        if exists|j: int| 0 <= j < prev.len() && row_key(t[prev[j]]) == Some(k) {
            let j = choose|j: int| 0 <= j < prev.len() && row_key(t[prev[j]]) == Some(k);
            assert(row_key(streams[prev[j]]) == Some(k));
        }
        if exists|j: int| 0 <= j < prev.len() && row_key(streams[prev[j]]) == Some(k) {
            let j = choose|j: int| 0 <= j < prev.len() && row_key(streams[prev[j]]) == Some(k);
            assert(row_key(t[prev[j]]) == Some(k));
        }
    }
}

proof fn lemma_kept_bounded(streams: Seq<ProbedStream>)
    ensures
        forall|j: int|
            0 <= j < kept_streams(streams).len() ==> 0 <= #[trigger] kept_streams(streams)[j] < streams.len()
                && row_key(streams[kept_streams(streams)[j]]) is Some,
    decreases streams.len(),
{
    if streams.len() > 0 {
        let init = streams.drop_last();
        lemma_kept_bounded(init);
        let prev = kept_streams(init);
        let last = streams.len() - 1;
        assert(kept_streams(streams) == prev || kept_streams(streams) == prev.push(last));
        assert forall|j: int| 0 <= j < kept_streams(streams).len() implies 0 <= #[trigger] kept_streams(streams)[j]
            < streams.len() && row_key(streams[kept_streams(streams)[j]]) is Some by {
            if j < prev.len() {
                assert(kept_streams(streams)[j] == prev[j]);
                assert(init[prev[j]] == streams[prev[j]]);
            }
        }
    }
}

fn same_key(a: (i32, &'static str), index: i32, stream_type: &'static str) -> (r: bool)
    ensures
        r == (a.0 == index && a.1@ == stream_type@),
{
    a.0 == index && str_eq(a.1, stream_type)
}

/// The positions of the streams that get a row (see `kept_streams`).
pub fn streams_to_store(streams: &Vec<ProbedStream>) -> (r: Vec<usize>)
    ensures
        r@.map_values(|p: usize| p as int) == kept_streams(streams@),
{
    let ghost s = streams@;
    let mut out: Vec<usize> = Vec::new();
    let mut keys: Vec<(i32, &'static str)> = Vec::new();
    let n = streams.len();
    let mut i: usize = 0;
    while i < n
        invariant
            i <= n,
            n == s.len(),
            s == streams@,
            out@.map_values(|p: usize| p as int) == kept_streams(s.take(i as int)),
            keys@.len() == out@.len(),
            forall|j: int| 0 <= j < out@.len() ==> out@[j] < i,
            forall|j: int|
                0 <= j < keys@.len() ==> row_key(s[out@[j] as int]) == Some(
                    (#[trigger] keys@[j].0, keys@[j].1@),
                ),
        decreases n - i,
    {
        proof {
            lemma_kept_prefix(s, i as int);
        }
        let ghost prev = kept_streams(s.take(i as int));
        assert(forall|j: int| 0 <= j < out@.len() ==> prev[j] == out@[j] as int);
        match normalize_stream_type_for_media_streams_db(streams[i].codec_type.as_str()) {
            Some(t) => {
                let index = streams[i].index;
                let mut found = false;
                let m = keys.len();
                let mut j: usize = 0;
                while j < m
                    invariant
                        j <= m,
                        m == keys@.len(),
                        found ==> exists|q: int| 0 <= q < m && keys@[q].0 == index && keys@[q].1@ == t@,
                        !found ==> forall|q: int| 0 <= q < j ==> !(keys@[q].0 == index && keys@[q].1@ == t@),
                    decreases m - j,
                {
                    if same_key(keys[j], index, t) {
                        found = true;
                    }
                    j = j + 1;
                }
                assert(row_key(s[i as int]) == Some((index, t@)));
                if found {
                    proof {
                        let q = choose|q: int| 0 <= q < m && keys@[q].0 == index && keys@[q].1@ == t@;
                        assert(row_key(s[prev[q]]) == Some((index, t@)));
                    }
                } else {
                    assert forall|q: int| 0 <= q < prev.len() implies row_key(s[prev[q]]) != Some((index, t@)) by {
                        assert(row_key(s[out@[q] as int]) == Some((keys@[q].0, keys@[q].1@)));
                    }
                    let ghost before = out@;
                    out.push(i);
                    keys.push((index, t));
                    assert(out@.map_values(|p: usize| p as int) =~= before.map_values(|p: usize| p as int).push(i as int));
                }
            },
            None => {
                assert(row_key(s[i as int]) is None);
            },
        }
        i = i + 1;
    }
    assert(s.take(n as int) =~= s);
    out
}

/// No two stored rows share a key: the streams kept have distinct
/// (index, type) pairs, each with a stored type.
pub proof fn law_stored_keys_distinct(streams: Seq<ProbedStream>)
    ensures
        forall|a: int, b: int|
            0 <= a < b < kept_streams(streams).len() ==> row_key(streams[kept_streams(streams)[a]]) is Some
                && row_key(streams[#[trigger] kept_streams(streams)[a]]) != row_key(
                streams[#[trigger] kept_streams(streams)[b]],
            ),
    decreases streams.len(),
{
    if streams.len() > 0 {
        let init = streams.drop_last();
        law_stored_keys_distinct(init);
        lemma_kept_bounded(init);
        let prev = kept_streams(init);
        let last = streams.len() - 1;
        let kept = kept_streams(streams);
        assert forall|j: int| 0 <= j < prev.len() implies init[prev[j]] == streams[prev[j]] by {}
        if kept != prev {
            assert(kept == prev.push(last));
            let k = row_key(streams[last])->0;
            assert(row_key(streams[last]) == Some(k));
            assert forall|j: int| 0 <= j < prev.len() implies row_key(streams[prev[j]]) != Some(k) by {}
            assert forall|a: int, b: int|
                0 <= a < b < kept.len() implies row_key(streams[kept[a]]) is Some
                    && row_key(streams[#[trigger] kept[a]]) != row_key(streams[#[trigger] kept[b]]) by {
                assert(kept[a] == prev[a]);
                assert(init[prev[a]] == streams[prev[a]]);
                assert(row_key(init[prev[a]]) is Some);
                if b < prev.len() {
                    assert(kept[b] == prev[b]);
                    assert(init[prev[b]] == streams[prev[b]]);
                    assert(row_key(init[prev[a]]) != row_key(init[prev[b]]));
                } else {
                    assert(kept[b] == last);
                    assert(row_key(streams[prev[a]]) != Some(k));
                }
            }
        } else {
            assert forall|a: int, b: int|
                0 <= a < b < kept.len() implies row_key(streams[kept[a]]) is Some
                    && row_key(streams[#[trigger] kept[a]]) != row_key(streams[#[trigger] kept[b]]) by {
                assert(kept[a] == prev[a] && kept[b] == prev[b]);
                assert(init[prev[a]] == streams[prev[a]] && init[prev[b]] == streams[prev[b]]);
                assert(row_key(init[prev[a]]) is Some && row_key(init[prev[a]]) != row_key(init[prev[b]]));
            }
        }
    }
}

/// A chapter as the media probe reports it.
pub struct ProbedChapter {
    pub chapter_index: i32,
    pub start_position_ticks: i64,
    pub name: Option<String>,
    pub marker_type: Option<String>,
}

/// Whether the chapter at `k` is the first with its chapter index.
pub open spec fn first_of_index(chapters: Seq<ProbedChapter>, k: int) -> bool {
    forall|j: int| 0 <= j < k ==> #[trigger] chapters[j].chapter_index != chapters[k].chapter_index
}

/// The positions, among the first `n` chapters, of those that are stored:
/// the first chapter with each chapter index (a later one with the same
/// index is skipped), in order.
pub open spec fn kept_chapters(chapters: Seq<ProbedChapter>, n: int) -> Seq<int>
    decreases n,
{
    if n <= 0 {
        Seq::empty()
    } else {
        let prev = kept_chapters(chapters, n - 1);
        if first_of_index(chapters, n - 1) {
            prev.push(n - 1)
        } else {
            prev
        }
    }
}

/// The positions of the chapters that get a row, as `kept_chapters` states.
pub fn chapters_to_store(chapters: &Vec<ProbedChapter>) -> (r: Vec<usize>)
    ensures
        r@.map_values(|p: usize| p as int) == kept_chapters(chapters@, chapters@.len() as int),
{
    let mut out: Vec<usize> = Vec::new();
    let n = chapters.len();
    let mut k: usize = 0;
    while k < n
        invariant
            k <= n,
            n == chapters@.len(),
            out@.map_values(|p: usize| p as int) == kept_chapters(chapters@, k as int),
        decreases n - k,
    {
        let mut j: usize = 0;
        let mut seen = false;
        while j < k
            invariant
                j <= k < n,
                n == chapters@.len(),
                seen <==> exists|t: int| 0 <= t < j && #[trigger] chapters@[t].chapter_index == chapters@[k as int].chapter_index,
            decreases k - j,
        {
            if chapters[j].chapter_index == chapters[k].chapter_index {
                seen = true;
            }
            j = j + 1;
        }
        let ghost before = out@;
        if !seen {
            out.push(k);
            assert(out@.map_values(|p: usize| p as int) =~= before.map_values(|p: usize| p as int).push(k as int));
        }
        k = k + 1;
    }
    out
}

} // verus!
