//! The stream-query grammar: `decode`, `pre-filters` and `post-filters`
//! drawn out of an HTTP query string.
//!
//! The query is split on `&`; each piece splits at its first `=` into a
//! key and a value, both percent-decoded (`+` stands for a space, `%XX`
//! for the character with that code). `decode` takes exactly `0`, `1`,
//! `false` or `true`, the last occurrence winning. The filter lists take
//! the bracket-empty form `pre-filters[]=a`, which appends behind
//! everything seen so far, and the bracket-index form `pre-filters[2]=a`;
//! a filter list is ordered by index, and a repeated index is an error,
//! as are a bracketless `pre-filters=a` and an unreadable index. Unknown
//! keys are ignored. An index is read up to `u32::MAX`, and a list takes
//! fewer entries than that — far past any real query.

use vstd::prelude::*;
use vstd::assert_by_contradiction;
use vstd::string::StringSliceAdditionalSpecFns;

use crate::errors::Error;

verus! {

// ---------------------------------------------------------------------------
// splitting

/// Splits on `sep`, the pieces in order; the accumulator carries the
/// piece being read.
pub open spec fn split_run(s: Seq<char>, sep: char, cur: Seq<char>, acc: Seq<Seq<char>>) -> Seq<
    Seq<char>,
>
    decreases s.len(),
{
    if s.len() == 0 {
        acc.push(cur)
    } else if s[0] == sep {
        split_run(s.drop_first(), sep, Seq::empty(), acc.push(cur))
    } else {
        split_run(s.drop_first(), sep, cur.push(s[0]), acc)
    }
}

pub open spec fn spec_split(s: Seq<char>, sep: char) -> Seq<Seq<char>> {
    split_run(s, sep, Seq::empty(), Seq::empty())
}

/// Splits at the first `sep`: what stands before it, and what after — or
/// nothing after, when it does not occur.
pub open spec fn split_first_run(s: Seq<char>, sep: char, acc: Seq<char>) -> (Seq<char>, Option<
    Seq<char>,
>)
    decreases s.len(),
{
    if s.len() == 0 {
        (acc, None)
    } else if s[0] == sep {
        (acc, Some(s.drop_first()))
    } else {
        split_first_run(s.drop_first(), sep, acc.push(s[0]))
    }
}

pub open spec fn spec_split_first(s: Seq<char>, sep: char) -> (Seq<char>, Option<Seq<char>>) {
    split_first_run(s, sep, Seq::empty())
}

// ---------------------------------------------------------------------------
// percent decoding

/// The value of one hex digit character, if it is one.
pub open spec fn hex_val(c: char) -> Option<int> {
    if '0' <= c <= '9' {
        Some(c as int - '0' as int)
    } else if 'a' <= c <= 'f' {
        Some(c as int - 'a' as int + 10)
    } else if 'A' <= c <= 'F' {
        Some(c as int - 'A' as int + 10)
    } else {
        None
    }
}

/// Percent-decodes to bytes: `+` stands for a space, `%XX` for the byte
/// `XX`, and any other character for its own UTF-8 bytes; a `%` not
/// followed by two hex digits has no reading.
pub open spec fn pct_run(s: Seq<char>, acc: Seq<u8>) -> Option<Seq<u8>>
    decreases s.len(),
{
    if s.len() == 0 {
        Some(acc)
    } else if s[0] == '+' {
        pct_run(s.drop_first(), acc.push(32u8))
    } else if s[0] == '%' {
        if s.len() >= 3 {
            match (hex_val(s[1]), hex_val(s[2])) {
                (Some(h), Some(l)) => pct_run(s.skip(3), acc.push((h * 16 + l) as u8)),
                _ => None,
            }
        } else {
            None
        }
    } else {
        pct_run(s.drop_first(), acc + vstd::utf8::encode_utf8(seq![s[0]]))
    }
}

/// What percent-decoding yields: the decoded bytes read back as UTF-8.
/// Bytes that are not well-formed UTF-8 have no reading.
pub open spec fn spec_pct_decode(s: Seq<char>) -> Option<Seq<char>> {
    match pct_run(s, Seq::empty()) {
        None => None,
        Some(bytes) => if vstd::utf8::valid_utf8(bytes) {
            Some(vstd::utf8::decode_utf8(bytes))
        } else {
            None
        },
    }
}

// ---------------------------------------------------------------------------
// keys

/// The number a run of decimal digits names, capped at `u32::MAX`; an
/// empty or non-digit run, or one past the cap, has no reading.
pub open spec fn digits_run(s: Seq<char>, acc: int) -> Option<int>
    decreases s.len(),
{
    if s.len() == 0 {
        Some(acc)
    } else if '0' <= s[0] <= '9' && acc * 10 + (s[0] as int - '0' as int) <= 0xFFFF_FFFF {
        digits_run(s.drop_first(), acc * 10 + (s[0] as int - '0' as int))
    } else {
        None
    }
}

pub open spec fn spec_digits(s: Seq<char>) -> Option<int> {
    if s.len() == 0 {
        None
    } else {
        digits_run(s, 0)
    }
}

/// A digit run's reading never passes the cap.
pub proof fn lemma_digits_bound(s: Seq<char>, acc: int)
    requires
        0 <= acc <= 0xFFFF_FFFF,
    ensures
        digits_run(s, acc) matches Some(m) ==> 0 <= m <= 0xFFFF_FFFF,
    decreases s.len(),
{
    if s.len() > 0 && '0' <= s[0] <= '9' && acc * 10 + (s[0] as int - '0' as int) <= 0xFFFF_FFFF {
        lemma_digits_bound(s.drop_first(), acc * 10 + (s[0] as int - '0' as int));
    }
}

/// What a decoded key means.
#[derive(Clone, Copy, PartialEq, Eq, Structural, Debug)]
pub enum KeyKind {
    /// The `decode` flag.
    Decode,
    /// `pre-filters[]`: append behind everything seen so far.
    PreAppend,
    /// `pre-filters[n]`.
    PreAt(u64),
    /// `post-filters[]`.
    PostAppend,
    /// `post-filters[n]`.
    PostAt(u64),
    /// A key this query does not know; it is ignored.
    Other,
    /// A filter key without usable brackets; the query has no reading.
    Bad,
}

/// What stands between the brackets of a filter key, read as an index
/// form.
pub open spec fn bracket_kind(rest: Seq<char>, pre: bool) -> KeyKind {
    if rest.len() >= 2 && rest[0] == '[' && rest.last() == ']' {
        let mid = rest.subrange(1, rest.len() - 1);
        if mid.len() == 0 {
            if pre {
                KeyKind::PreAppend
            } else {
                KeyKind::PostAppend
            }
        } else {
            match spec_digits(mid) {
                Some(n) => if pre {
                    KeyKind::PreAt(n as u64)
                } else {
                    KeyKind::PostAt(n as u64)
                },
                None => KeyKind::Bad,
            }
        }
    } else {
        KeyKind::Bad
    }
}

/// Reads a decoded key.
pub open spec fn spec_key_kind(key: Seq<char>) -> KeyKind {
    if key == "decode"@ {
        KeyKind::Decode
    } else if key.len() >= 11 && key.subrange(0, 11) == "pre-filters"@ {
        bracket_kind(key.skip(11), true)
    } else if key.len() >= 12 && key.subrange(0, 12) == "post-filters"@ {
        bracket_kind(key.skip(12), false)
    } else {
        KeyKind::Other
    }
}

/// What a `decode` value means: `0` and `false` clear it, `1` and `true`
/// set it, anything else has no reading.
pub open spec fn spec_decode_value(v: Seq<char>) -> Option<bool> {
    if v == "0"@ || v == "false"@ {
        Some(false)
    } else if v == "1"@ || v == "true"@ {
        Some(true)
    } else {
        None
    }
}

// ---------------------------------------------------------------------------
// the running state

/// Filters gathered so far, each under its index, kept sorted by index.
pub struct QueryState {
    pub decode: bool,
    pub pre: Seq<(int, Seq<char>)>,
    pub post: Seq<(int, Seq<char>)>,
}

/// Strictly ascending indices.
pub open spec fn indexed_sorted(list: Seq<(int, Seq<char>)>) -> bool {
    forall|i: int, j: int|
        0 <= i < j < list.len() ==> (#[trigger] list[i]).0 < (#[trigger] list[j]).0
}

/// Inserts a value under an index, keeping the list sorted; a taken index
/// has no reading.
pub open spec fn insert_indexed(list: Seq<(int, Seq<char>)>, n: int, v: Seq<char>) -> Option<
    Seq<(int, Seq<char>)>,
>
    decreases list.len(),
{
    if list.len() == 0 {
        Some(seq![(n, v)])
    } else if n < list[0].0 {
        Some(list.insert(0, (n, v)))
    } else if n == list[0].0 {
        None
    } else {
        match insert_indexed(list.drop_first(), n, v) {
            Some(rest) => Some(rest.insert(0, list[0])),
            None => None,
        }
    }
}

/// The index an append-form key takes: one past the largest so far.
pub open spec fn next_index(list: Seq<(int, Seq<char>)>) -> int {
    if list.len() == 0 {
        0
    } else {
        list.last().0 + 1
    }
}

/// The length cap of a filter list.
pub open spec fn list_cap() -> int {
    0xFFFF_FFFF
}

/// Applies one key-value pair to the state.
pub open spec fn step_pair(st: QueryState, key: Seq<char>, value: Seq<char>) -> Option<QueryState> {
    match spec_key_kind(key) {
        KeyKind::Decode => match spec_decode_value(value) {
            Some(b) => Some(QueryState { decode: b, ..st }),
            None => None,
        },
        KeyKind::PreAppend => if st.pre.len() < list_cap() {
            match insert_indexed(st.pre, next_index(st.pre), value) {
                Some(l) => Some(QueryState { pre: l, ..st }),
                None => None,
            }
        } else {
            None
        },
        KeyKind::PreAt(n) => if st.pre.len() < list_cap() {
            match insert_indexed(st.pre, n as int, value) {
                Some(l) => Some(QueryState { pre: l, ..st }),
                None => None,
            }
        } else {
            None
        },
        KeyKind::PostAppend => if st.post.len() < list_cap() {
            match insert_indexed(st.post, next_index(st.post), value) {
                Some(l) => Some(QueryState { post: l, ..st }),
                None => None,
            }
        } else {
            None
        },
        KeyKind::PostAt(n) => if st.post.len() < list_cap() {
            match insert_indexed(st.post, n as int, value) {
                Some(l) => Some(QueryState { post: l, ..st }),
                None => None,
            }
        } else {
            None
        },
        KeyKind::Other => Some(st),
        KeyKind::Bad => None,
    }
}

/// Applies one raw `key=value` piece: an empty piece says nothing; key
/// and value are percent-decoded first.
pub open spec fn step_segment(st: QueryState, seg: Seq<char>) -> Option<QueryState> {
    if seg.len() == 0 {
        Some(st)
    } else {
        let (rawk, rawv) = spec_split_first(seg, '=');
        let rv = match rawv {
            Some(v) => v,
            None => Seq::empty(),
        };
        match (spec_pct_decode(rawk), spec_pct_decode(rv)) {
            (Some(k), Some(v)) => step_pair(st, k, v),
            _ => None,
        }
    }
}

/// Applies the pieces in order.
pub open spec fn segs_run(segs: Seq<Seq<char>>, st: QueryState) -> Option<QueryState>
    decreases segs.len(),
{
    if segs.len() == 0 {
        Some(st)
    } else {
        match step_segment(st, segs[0]) {
            Some(st2) => segs_run(segs.drop_first(), st2),
            None => None,
        }
    }
}

/// The filter commands a gathered list names, in index order.
pub open spec fn values_of(list: Seq<(int, Seq<char>)>) -> Seq<Seq<char>> {
    list.map_values(|p: (int, Seq<char>)| p.1)
}

/// What a whole query string means: the decode flag and the two ordered
/// filter lists, or nothing when the query has no reading.
pub open spec fn spec_parse_query(s: Seq<char>) -> Option<(bool, Seq<Seq<char>>, Seq<Seq<char>>)> {
    let init = QueryState { decode: false, pre: Seq::empty(), post: Seq::empty() };
    match segs_run(spec_split(s, '&'), init) {
        Some(st) => Some((st.decode, values_of(st.pre), values_of(st.post))),
        None => None,
    }
}

// ---------------------------------------------------------------------------
// the parsed result

/// The pairs as the specification sees them.
pub open spec fn pairs_view(pairs: Seq<(u64, String)>) -> Seq<(int, Seq<char>)> {
    pairs.map_values(|p: (u64, String)| (p.0 as int, p.1@))
}

/// Every index stays well under the machine range: at most the digit cap
/// plus one per appended entry.
pub open spec fn pairs_bounded(pairs: Seq<(u64, String)>) -> bool {
    forall|i: int|
        0 <= i < pairs.len() ==> (#[trigger] pairs[i]).0 <= 0xFFFF_FFFF + pairs.len()
}

/// What a stream request asked of the filter pipeline.
pub struct FilterSetting {
    pub decode: bool,
    pub pre_filters: Vec<String>,
    pub post_filters: Vec<String>,
}

impl FilterSetting {
    /// Reads a query string. Succeeds with the decode flag and the two
    /// filter lists exactly when the grammar above gives the query a
    /// reading; an unreadable query is a `Serialize` error, as any other
    /// undeserializable input is.
    pub fn parse(query: &str) -> (r: Result<FilterSetting, Error>)
        ensures
            match r {
                Ok(fs) => spec_parse_query(query@) == Some(
                    (
                        fs.decode,
                        fs.pre_filters@.map_values(|s: String| s@),
                        fs.post_filters@.map_values(|s: String| s@),
                    ),
                ),
                Err(e) => e == Error::Serialize && spec_parse_query(query@) is None,
            },
    {
        let segments = split_string(query, '&');
        let ghost segs = segments@.map_values(|s: String| s@);
        let ghost init = QueryState { decode: false, pre: Seq::empty(), post: Seq::empty() };
        let mut decode: bool = false;
        let mut pre: Vec<(u64, String)> = Vec::new();
        let mut post: Vec<(u64, String)> = Vec::new();
        let mut k: usize = 0;
        proof {
            assert(pairs_view(pre@) =~= Seq::<(int, Seq<char>)>::empty());
            assert(pairs_view(post@) =~= Seq::<(int, Seq<char>)>::empty());
            assert(segs.skip(0) =~= segs);
        }
        while k < segments.len()
            invariant
                0 <= k <= segments@.len(),
                segs == segments@.map_values(|s: String| s@),
                segs == spec_split(query@, '&'),
                init == (QueryState { decode: false, pre: Seq::empty(), post: Seq::empty() }),
                indexed_sorted(pairs_view(pre@)),
                indexed_sorted(pairs_view(post@)),
                pairs_bounded(pre@),
                pairs_bounded(post@),
                segs_run(segs, init) == segs_run(
                    segs.skip(k as int),
                    (QueryState { decode, pre: pairs_view(pre@), post: pairs_view(post@) }),
                ),
            decreases segments@.len() - k,
        {
            let ghost st_pre = QueryState {
                decode,
                pre: pairs_view(pre@),
                post: pairs_view(post@),
            };
            proof {
                assert(segs.skip(k as int).drop_first() =~= segs.skip(k + 1 as int));
                assert(segs.skip(k as int)[0] == segs[k as int]);
                assert(segs[k as int] == segments@[k as int]@);
                assert(segs_run(segs, init) == segs_run(segs.skip(k as int), st_pre));
            }
            let seg = &segments[k];
            let ok = apply_segment(&mut decode, &mut pre, &mut post, seg.as_str());
            if !ok {
                proof {
                    assert(step_segment(st_pre, segs[k as int]) is None);
                    assert(segs_run(segs.skip(k as int), st_pre) is None);
                    assert(segs_run(segs, init) is None);
                    assert(segs == spec_split(query@, '&'));
                    assert(spec_parse_query(query@) is None);
                }
                return Err(Error::Serialize);
            }
            proof {
                let st_post = QueryState {
                    decode,
                    pre: pairs_view(pre@),
                    post: pairs_view(post@),
                };
                assert(step_segment(st_pre, segs[k as int]) == Some(st_post));
                assert(segs_run(segs.skip(k as int), st_pre) == segs_run(
                    segs.skip(k + 1 as int),
                    st_post,
                ));
            }
            k += 1;
        }
        proof {
            assert(segs.skip(segments@.len() as int) =~= Seq::<Seq<char>>::empty());
        }
        let pre_filters = strip_indices(pre);
        let post_filters = strip_indices(post);
        Ok(FilterSetting { decode, pre_filters, post_filters })
    }
}

/// Applies one raw query piece to the running state, as `step_segment`
/// reads it; a piece with no reading leaves the state alone and reports
/// failure.
fn apply_segment(
    decode: &mut bool,
    pre: &mut Vec<(u64, String)>,
    post: &mut Vec<(u64, String)>,
    seg: &str,
) -> (ok: bool)
    requires
        indexed_sorted(pairs_view(old(pre)@)),
        indexed_sorted(pairs_view(old(post)@)),
        pairs_bounded(old(pre)@),
        pairs_bounded(old(post)@),
    ensures
        indexed_sorted(pairs_view(final(pre)@)),
        indexed_sorted(pairs_view(final(post)@)),
        pairs_bounded(final(pre)@),
        pairs_bounded(final(post)@),
        ({
            let st0 = QueryState {
                decode: *old(decode),
                pre: pairs_view(old(pre)@),
                post: pairs_view(old(post)@),
            };
            let st1 = QueryState {
                decode: *final(decode),
                pre: pairs_view(final(pre)@),
                post: pairs_view(final(post)@),
            };
            if ok {
                step_segment(st0, seg@) == Some(st1)
            } else {
                step_segment(st0, seg@) is None
            }
        }),
{
    let ghost st0 = QueryState {
        decode: *old(decode),
        pre: pairs_view(old(pre)@),
        post: pairs_view(old(post)@),
    };
    if seg.unicode_len() == 0 {
        return true;
    }
    let (rawk, rawv) = split_at_first(seg, '=');
    let key = match pct_decode(rawk.as_str()) {
        Option::Some(s) => s,
        Option::None => {
            return false;
        },
    };
    let value = match pct_decode(rawv.as_str()) {
        Option::Some(s) => s,
        Option::None => {
            return false;
        },
    };
    let kind = key_kind(&key);
    match kind {
        KeyKind::Decode => {
            if crate::strutil::string_eq_str(&value, "0") || crate::strutil::string_eq_str(
                &value,
                "false",
            ) {
                *decode = false;
                true
            } else if crate::strutil::string_eq_str(&value, "1") || crate::strutil::string_eq_str(
                &value,
                "true",
            ) {
                *decode = true;
                true
            } else {
                false
            }
        },
        KeyKind::PreAppend => {
            if pre.len() >= 0xFFFF_FFFFusize {
                return false;
            }
            let n = next_index_exec(pre);
            insert_indexed_exec(pre, n, value)
        },
        KeyKind::PreAt(n) => {
            if pre.len() >= 0xFFFF_FFFFusize {
                return false;
            }
            proof {
                lemma_key_index_bound(key@, n);
            }
            insert_indexed_exec(pre, n, value)
        },
        KeyKind::PostAppend => {
            if post.len() >= 0xFFFF_FFFFusize {
                return false;
            }
            let n = next_index_exec(post);
            insert_indexed_exec(post, n, value)
        },
        KeyKind::PostAt(n) => {
            if post.len() >= 0xFFFF_FFFFusize {
                return false;
            }
            proof {
                lemma_key_index_bound(key@, n);
            }
            insert_indexed_exec(post, n, value)
        },
        KeyKind::Other => true,
        KeyKind::Bad => false,
    }
}

/// An index a key names never passes the cap.
proof fn lemma_key_index_bound(key: Seq<char>, n: u64)
    requires
        spec_key_kind(key) == KeyKind::PreAt(n) || spec_key_kind(key) == KeyKind::PostAt(n),
    ensures
        n <= 0xFFFF_FFFF,
{
    if key.len() >= 11 && key.subrange(0, 11) == "pre-filters"@ && !(key == "decode"@) {
        let rest = key.skip(11);
        if rest.len() >= 2 && rest[0] == '[' && rest.last() == ']' {
            let mid = rest.subrange(1, rest.len() - 1);
            if mid.len() > 0 {
                lemma_digits_bound(mid, 0);
            }
        }
    }
    if key.len() >= 12 && key.subrange(0, 12) == "post-filters"@ && !(key == "decode"@) {
        let rest = key.skip(12);
        if rest.len() >= 2 && rest[0] == '[' && rest.last() == ']' {
            let mid = rest.subrange(1, rest.len() - 1);
            if mid.len() > 0 {
                lemma_digits_bound(mid, 0);
            }
        }
    }
}

/// One past the largest index so far, as a machine number.
fn next_index_exec(pairs: &Vec<(u64, String)>) -> (r: u64)
    requires
        indexed_sorted(pairs_view(pairs@)),
        pairs_bounded(pairs@),
        pairs@.len() < 0xFFFF_FFFF,
    ensures
        r == next_index(pairs_view(pairs@)),
        r <= 0xFFFF_FFFF + pairs@.len() + 1,
{
    if pairs.len() == 0 {
        0
    } else {
        let last = pairs.len() - 1;
        proof {
            assert(pairs@[last as int].0 <= 0xFFFF_FFFF + pairs@.len());
            assert(pairs_view(pairs@).last().0 == pairs@[last as int].0 as int);
        }
        pairs[last].0 + 1
    }
}

/// Inserts a value under an index, keeping the indices strictly
/// ascending; a taken index fails and changes nothing.
fn insert_indexed_exec(pairs: &mut Vec<(u64, String)>, n: u64, v: String) -> (r: bool)
    requires
        indexed_sorted(pairs_view(old(pairs)@)),
        pairs_bounded(old(pairs)@),
        n <= 0xFFFF_FFFF + old(pairs)@.len() + 1,
    ensures
        indexed_sorted(pairs_view(final(pairs)@)),
        pairs_bounded(final(pairs)@),
        r ==> insert_indexed(pairs_view(old(pairs)@), n as int, v@) == Some(
            pairs_view(final(pairs)@),
        ),
        !r ==> insert_indexed(pairs_view(old(pairs)@), n as int, v@) is None && *final(pairs)
            == *old(pairs),
{
    let mut k: usize = 0;
    while k < pairs.len() && pairs[k].0 < n
        invariant
            indexed_sorted(pairs_view(pairs@)),
            *pairs == *old(pairs),
            0 <= k <= pairs@.len(),
            forall|i: int| 0 <= i < k ==> (#[trigger] pairs@[i]).0 < n,
        decreases pairs@.len() - k,
    {
        k += 1;
    }
    if k < pairs.len() {
        let same = pairs[k].0 == n;
        if same {
            proof {
                lemma_insert_indexed_dup(pairs_view(pairs@), n as int, v@, k as int);
            }
            return false;
        }
    }
    proof {
        assert(k < old(pairs)@.len() ==> pairs_view(old(pairs)@)[k as int].0 > n);
    }
    pairs.insert(k, (n, v));
    proof {
        assert(pairs_view(pairs@) =~= pairs_view(old(pairs)@).insert(k as int, (n as int, v@)));
        lemma_insert_indexed_at(pairs_view(old(pairs)@), n as int, v@, k as int);
        assert forall|i: int, j: int|
            0 <= i < j < pairs_view(pairs@).len() implies (#[trigger] pairs_view(pairs@)[i]).0 < (
        #[trigger] pairs_view(pairs@)[j]).0 by {
            let vw = pairs_view(old(pairs)@);
            let i0 = if i < k {
                i
            } else {
                i - 1
            };
            let j0 = if j < k {
                j
            } else {
                j - 1
            };
            if i == k {
                assert(vw[j0].0 > n);
            } else if j == k {
                assert(vw[i0].0 < n);
            } else {
                assert(vw[i0].0 < vw[j0].0);
            }
        }
        assert forall|i: int|
            0 <= i < pairs@.len() implies (#[trigger] pairs@[i]).0 <= 0xFFFF_FFFF
            + pairs@.len() by {
            if i != k {
                let i0 = if i < k {
                    i
                } else {
                    i - 1
                };
                assert(pairs@[i] == old(pairs)@[i0]);
            }
        }
    }
    true
}

/// An index present in a sorted list is refused.
proof fn lemma_insert_indexed_dup(list: Seq<(int, Seq<char>)>, n: int, v: Seq<char>, k: int)
    requires
        indexed_sorted(list),
        0 <= k < list.len(),
        list[k].0 == n,
        forall|i: int| 0 <= i < k ==> (#[trigger] list[i]).0 < n,
    ensures
        insert_indexed(list, n, v) is None,
    decreases list.len(),
{
    if k > 0 {
        assert forall|i: int, j: int|
            0 <= i < j < list.drop_first().len() implies (#[trigger] list.drop_first()[i]).0 < (
        #[trigger] list.drop_first()[j]).0 by {
            assert(list.drop_first()[i] == list[i + 1]);
            assert(list.drop_first()[j] == list[j + 1]);
        }
        assert forall|i: int| 0 <= i < k - 1 implies (#[trigger] list.drop_first()[i]).0 < n by {
            assert(list.drop_first()[i] == list[i + 1]);
        }
        assert(list.drop_first()[k - 1] == list[k]);
        lemma_insert_indexed_dup(list.drop_first(), n, v, k - 1);
    }
}

/// An index absent from a sorted list lands at its sorted position.
proof fn lemma_insert_indexed_at(list: Seq<(int, Seq<char>)>, n: int, v: Seq<char>, k: int)
    requires
        indexed_sorted(list),
        0 <= k <= list.len(),
        forall|i: int| 0 <= i < k ==> (#[trigger] list[i]).0 < n,
        k < list.len() ==> list[k].0 > n,
    ensures
        insert_indexed(list, n, v) == Some(list.insert(k, (n, v))),
    decreases list.len(),
{
    if list.len() == 0 {
        assert(list.insert(0, (n, v)) =~= seq![(n, v)]);
    } else if k == 0 {
    } else {
        assert forall|i: int, j: int|
            0 <= i < j < list.drop_first().len() implies (#[trigger] list.drop_first()[i]).0 < (
        #[trigger] list.drop_first()[j]).0 by {
            assert(list.drop_first()[i] == list[i + 1]);
            assert(list.drop_first()[j] == list[j + 1]);
        }
        assert forall|i: int| 0 <= i < k - 1 implies (#[trigger] list.drop_first()[i]).0 < n by {
            assert(list.drop_first()[i] == list[i + 1]);
        }
        if k < list.len() {
            assert(list.drop_first()[k - 1] == list[k]);
        }
        lemma_insert_indexed_at(list.drop_first(), n, v, k - 1);
        assert(list.drop_first().insert(k - 1, (n, v)).insert(0, list[0]) =~= list.insert(
            k,
            (n, v),
        ));
    }
}

/// The values, with their indices stripped.
fn strip_indices(pairs: Vec<(u64, String)>) -> (r: Vec<String>)
    ensures
        r@.map_values(|s: String| s@) == values_of(pairs_view(pairs@)),
{
    let ghost all = pairs@;
    let mut out: Vec<String> = Vec::new();
    let mut k: usize = 0;
    let n = pairs.len();
    while k < n
        invariant
            0 <= k <= n,
            n == all.len(),
            pairs@ == all,
            out@.len() == k,
            forall|i: int| 0 <= i < k ==> (#[trigger] out@[i])@ == all[i].1@,
        decreases n - k,
    {
        let item = &pairs[k];
        out.push(item.1.clone());
        k += 1;
    }
    proof {
        assert(out@.map_values(|s: String| s@) =~= values_of(pairs_view(all)));
    }
    out
}

/// Splits a string on `sep`, the pieces in order.
fn split_string(s: &str, sep: char) -> (r: Vec<String>)
    ensures
        r@.map_values(|s: String| s@) == spec_split(s@, sep),
{
    let n = s.unicode_len();
    let mut out: Vec<String> = Vec::new();
    let mut cur = String::new();
    let mut i: usize = 0;
    proof {
        assert(s@.skip(0) =~= s@);
        assert(out@.map_values(|s: String| s@) =~= Seq::<Seq<char>>::empty());
    }
    while i < n
        invariant
            n == s@.len(),
            0 <= i <= n,
            split_run(s@, sep, Seq::empty(), Seq::empty()) == split_run(
                s@.skip(i as int),
                sep,
                cur@,
                out@.map_values(|s: String| s@),
            ),
        decreases n - i,
    {
        let c = s.get_char(i);
        let ghost cur0 = cur@;
        proof {
            assert(s@.skip(i as int).drop_first() =~= s@.skip(i + 1 as int));
            assert(s@.skip(i as int)[0] == c);
        }
        if c == sep {
            let ghost prev = out@.map_values(|s: String| s@);
            out.push(cur);
            cur = String::new();
            proof {
                assert(out@.map_values(|s: String| s@) =~= prev.push(cur0));
            }
        } else {
            cur.append(s.substring_char(i, i + 1));
            proof {
                assert(s@.subrange(i as int, i + 1 as int) =~= seq![c]);
                assert(cur@ =~= cur0.push(c));
            }
        }
        i += 1;
    }
    proof {
        assert(s@.skip(n as int) =~= Seq::<char>::empty());
    }
    let ghost prev = out@.map_values(|s: String| s@);
    out.push(cur);
    proof {
        assert(out@.map_values(|s: String| s@) =~= prev.push(out@.last()@));
    }
    out
}

/// Splits at the first `sep`: the part before it, and the part after or
/// an empty string where it does not occur.
fn split_at_first(s: &str, sep: char) -> (r: (String, String))
    ensures
        ({
            let (k, v) = spec_split_first(s@, sep);
            r.0@ == k && r.1@ == (match v {
                Some(rest) => rest,
                None => Seq::<char>::empty(),
            })
        }),
{
    let n = s.unicode_len();
    let mut cur = String::new();
    let mut i: usize = 0;
    proof {
        assert(s@.skip(0) =~= s@);
    }
    while i < n
        invariant
            n == s@.len(),
            0 <= i <= n,
            split_first_run(s@, sep, Seq::empty()) == split_first_run(s@.skip(i as int), sep, cur@),
        decreases n - i,
    {
        let c = s.get_char(i);
        proof {
            assert(s@.skip(i as int).drop_first() =~= s@.skip(i + 1 as int));
            assert(s@.skip(i as int)[0] == c);
        }
        if c == sep {
            let rest = s.substring_char(i + 1, n);
            proof {
                assert(s@.skip(i as int).drop_first() =~= s@.subrange(i + 1 as int, n as int));
            }
            return (cur, String::from_str(rest));
        }
        let ghost cur0 = cur@;
        cur.append(s.substring_char(i, i + 1));
        proof {
            assert(s@.subrange(i as int, i + 1 as int) =~= seq![c]);
            assert(cur@ =~= cur0.push(c));
        }
        i += 1;
    }
    proof {
        assert(s@.skip(n as int) =~= Seq::<char>::empty());
    }
    (cur, String::new())
}

/// Appends every byte of the slice.
fn append_slice_bytes(dst: &mut Vec<u8>, src: &[u8])
    ensures
        final(dst)@ == old(dst)@ + src@,
{
    let mut k: usize = 0;
    while k < src.len()
        invariant
            0 <= k <= src@.len(),
            dst@ == old(dst)@ + src@.subrange(0, k as int),
        decreases src@.len() - k,
    {
        dst.push(src[k]);
        proof {
            assert(dst@ =~= old(dst)@ + src@.subrange(0, k + 1 as int));
        }
        k += 1;
    }
    proof {
        assert(dst@ =~= old(dst)@ + src@);
    }
}

/// Percent-decodes a string by the rules above.
fn pct_decode(s: &str) -> (r: Option<String>)
    ensures
        match r {
            Some(d) => spec_pct_decode(s@) == Some(d@),
            None => spec_pct_decode(s@) is None,
        },
{
    let n = s.unicode_len();
    let mut out: Vec<u8> = Vec::new();
    let mut i: usize = 0;
    proof {
        assert(s@.skip(0) =~= s@);
    }
    while i < n
        invariant
            n == s@.len(),
            0 <= i <= n,
            pct_run(s@, Seq::empty()) == pct_run(s@.skip(i as int), out@),
        decreases n - i,
    {
        let c = s.get_char(i);
        let ghost out0 = out@;
        proof {
            assert(s@.skip(i as int).drop_first() =~= s@.skip(i + 1 as int));
            assert(s@.skip(i as int)[0] == c);
        }
        if c == '+' {
            out.push(32u8);
            i += 1;
        } else if c == '%' {
            if n - i < 3 {
                return Option::None;
            }
            let h = hex_val_exec(s.get_char(i + 1));
            let l = hex_val_exec(s.get_char(i + 2));
            match (h, l) {
                (Option::Some(hv), Option::Some(lv)) => {
                    proof {
                        assert(s@.skip(i as int)[1] == s@[i + 1]);
                        assert(s@.skip(i as int)[2] == s@[i + 2]);
                        assert(s@.skip(i as int).skip(3) =~= s@.skip(i + 3 as int));
                    }
                    let b: u8 = hv * 16 + lv;
                    out.push(b);
                    i += 3;
                },
                _ => {
                    proof {
                        assert(s@.skip(i as int)[1] == s@[i + 1]);
                        assert(s@.skip(i as int)[2] == s@[i + 2]);
                    }
                    return Option::None;
                },
            }
        } else {
            let piece = s.substring_char(i, i + 1);
            proof {
                assert(s@.subrange(i as int, i + 1 as int) =~= seq![c]);
                assert(piece.spec_bytes() == vstd::utf8::encode_utf8(seq![c]));
            }
            append_slice_bytes(&mut out, piece.as_bytes());
            i += 1;
        }
    }
    proof {
        assert(s@.skip(n as int) =~= Seq::<char>::empty());
    }
    match bytes_to_string(out) {
        Option::Some(d) => {
            proof {
                vstd::utf8::encode_utf8_decode_utf8(d@);
            }
            Option::Some(d)
        },
        Option::None => Option::None,
    }
}

/// The value of one hex digit character.
fn hex_val_exec(c: char) -> (r: Option<u8>)
    ensures
        match r {
            Some(v) => hex_val(c) == Some(v as int) && v < 16,
            None => hex_val(c) is None,
        },
{
    if '0' <= c && c <= '9' {
        Some(((c as u32) - ('0' as u32)) as u8)
    } else if 'a' <= c && c <= 'f' {
        Some((((c as u32) - ('a' as u32)) + 10) as u8)
    } else if 'A' <= c && c <= 'F' {
        Some((((c as u32) - ('A' as u32)) + 10) as u8)
    } else {
        None
    }
}

/// Relies on String::from_utf8: it succeeds exactly on well-formed UTF-8
/// and keeps the bytes, so the string's characters encode back to them.
#[verifier::external_body]
fn bytes_to_string(v: Vec<u8>) -> (r: Option<String>)
    ensures
        match r {
            Some(s) => vstd::utf8::valid_utf8(v@) && vstd::utf8::encode_utf8(s@) == v@,
            None => !vstd::utf8::valid_utf8(v@),
        },
{
    String::from_utf8(v).ok()
}

/// Reads a decoded key, deciding `spec_key_kind`.
fn key_kind(key: &String) -> (r: KeyKind)
    ensures
        r == spec_key_kind(key@),
{
    proof {
        reveal_strlit("pre-filters");
        reveal_strlit("post-filters");
    }
    let ks = key.as_str();
    if crate::strutil::str_eq(ks, "decode") {
        return KeyKind::Decode;
    }
    if has_prefix(ks, "pre-filters") {
        return bracket_kind_exec(ks, 11, true);
    }
    if has_prefix(ks, "post-filters") {
        return bracket_kind_exec(ks, 12, false);
    }
    KeyKind::Other
}

/// Whether `s` starts with `p`.
fn has_prefix(s: &str, p: &str) -> (r: bool)
    ensures
        r == (s@.len() >= p@.len() && s@.subrange(0, p@.len() as int) == p@),
{
    let np = p.unicode_len();
    let ns = s.unicode_len();
    if ns < np {
        return false;
    }
    let mut i: usize = 0;
    while i < np
        invariant
            np == p@.len(),
            ns == s@.len(),
            np <= ns,
            0 <= i <= np,
            forall|j: int| 0 <= j < i ==> s@[j] == p@[j],
        decreases np - i,
    {
        if s.get_char(i) != p.get_char(i) {
            proof {
                assert_by_contradiction!(!(s@.subrange(0, np as int) == p@), {
                    assert(s@.subrange(0, np as int)[i as int] == p@[i as int]);
                });
            }
            return false;
        }
        i += 1;
    }
    proof {
        assert(s@.subrange(0, np as int) =~= p@);
    }
    true
}

/// Reads the bracket part of a filter key, deciding `bracket_kind`.
fn bracket_kind_exec(key: &str, prefix_len: usize, pre: bool) -> (r: KeyKind)
    requires
        prefix_len <= key@.len(),
    ensures
        r == bracket_kind(key@.skip(prefix_len as int), pre),
{
    let n = key.unicode_len();
    let rest_len = n - prefix_len;
    let ghost rest = key@.skip(prefix_len as int);
    if rest_len < 2 {
        return KeyKind::Bad;
    }
    let open_ok = key.get_char(prefix_len) == '[';
    let close_ok = key.get_char(n - 1) == ']';
    proof {
        assert(rest[0] == key@[prefix_len as int]);
        assert(rest.last() == key@[n - 1]);
    }
    if !(open_ok && close_ok) {
        return KeyKind::Bad;
    }
    let ghost mid = rest.subrange(1, rest.len() - 1);
    if rest_len == 2 {
        proof {
            assert(mid.len() == 0);
        }
        if pre {
            return KeyKind::PreAppend;
        } else {
            return KeyKind::PostAppend;
        }
    }
    let mut acc: u64 = 0;
    let mut i: usize = prefix_len + 1;
    proof {
        assert(mid.skip(0) =~= mid);
    }
    while i < n - 1
        invariant
            n == key@.len(),
            prefix_len + 2 < n,
            rest == key@.skip(prefix_len as int),
            mid == rest.subrange(1, rest.len() - 1),
            prefix_len + 1 <= i <= n - 1,
            acc <= 0xFFFF_FFFF,
            digits_run(mid, 0) == digits_run(mid.skip(i - prefix_len - 1), acc as int),
        decreases n - i,
    {
        let c = key.get_char(i);
        proof {
            assert(mid.skip(i - prefix_len - 1)[0] == mid[i - prefix_len - 1]);
            assert(mid[i - prefix_len - 1] == key@[i as int]);
            assert(mid.skip(i - prefix_len - 1).drop_first() =~= mid.skip(i - prefix_len));
        }
        if '0' <= c && c <= '9' {
            let d = ((c as u32) - ('0' as u32)) as u64;
            if acc * 10 + d > 0xFFFF_FFFF {
                return KeyKind::Bad;
            }
            acc = acc * 10 + d;
        } else {
            return KeyKind::Bad;
        }
        i += 1;
    }
    proof {
        assert(mid.skip((n - 1) - prefix_len - 1) =~= Seq::<char>::empty());
        assert(spec_digits(mid) == Some(acc as int));
    }
    if pre {
        KeyKind::PreAt(acc)
    } else {
        KeyKind::PostAt(acc)
    }
}

} // verus!
