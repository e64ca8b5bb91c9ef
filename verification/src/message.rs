use vstd::prelude::*;

verus! {

// ---------------------------------------------------------------------------
// The decoded bulletin and the raw unit it is decoded from.
// ---------------------------------------------------------------------------

/// A date-time with a fixed offset from UTC, reduced to plain values.
#[derive(Debug, Clone, Copy, PartialEq, Eq)]
pub struct Timestamp {
    /// Seconds since the Unix epoch, in UTC.
    pub epoch_seconds: i64,
    /// The sub-second part, in nanoseconds.
    pub subsec_nanos: u32,
    /// The offset from UTC that the text carried, in seconds.
    pub offset_seconds: i32,
}

/// The vendor payload element of a raw broadcast unit, reduced to its text
/// content and the attributes the decoder reads.  An attribute the unit does
/// not carry is `None`; one it carries empty is `Some` of the empty string.
#[derive(Debug, Clone, PartialEq, Eq)]
pub struct OiPayload {
    /// The element's text content: the raw bulletin body.
    pub text: String,
    /// The domestic product identifier attribute.
    pub awipsid: Option<String>,
    /// The issuing-center code attribute.
    pub cccc: Option<String>,
    /// The feed-assigned identifier attribute.
    pub id: Option<String>,
    /// The issue timestamp attribute, still unparsed.
    pub issue: Option<String>,
    /// The product header attribute.
    pub ttaaii: Option<String>,
}

/// A message-type broadcast unit as the decoder sees it: its subtype, an
/// optional delay annotation, and the optional vendor payload element.
#[derive(Debug, Clone, PartialEq, Eq)]
pub struct RawMessage {
    /// Whether the unit's subtype is the room-broadcast one.  One-to-one
    /// system messages, such as banners, are not broadcasts.
    pub groupchat: bool,
    /// The delay annotation's timestamp attribute, when the unit carries one.
    pub delay_stamp: Option<String>,
    /// The vendor payload element, when the unit carries one.  Room-subject
    /// announcements and terms-of-service notices carry none.
    pub payload: Option<OiPayload>,
}

/// A decoded weather bulletin.
#[derive(Debug, Clone, PartialEq, Eq)]
pub struct Message {
    /// The six-character product header identifying bulletin type and area.
    pub ttaaii: String,
    /// The four-character code of the issuing center.
    pub cccc: String,
    /// The domestic product identifier; an empty attribute decodes to absent.
    pub awips_id: Option<String>,
    /// The time at which the bulletin was issued.
    pub issue: Timestamp,
    /// The feed-assigned identifier, in process-id.sequence form.
    pub id: String,
    /// When the unit was originally sent, if it was relayed with a delay.
    pub delay_stamp: Option<Timestamp>,
    /// The legacy distribution-sequence counter stripped off the body front.
    pub ldm_sequence_number: Option<u32>,
    /// The bulletin body text.
    pub message: String,
}

/// What an RFC 3339 date-time text parses to, if anything.  The result
/// depends on the characters alone; its value is not spelled out here.
pub uninterp spec fn rfc3339_stamp(s: Seq<char>) -> Option<Timestamp>;

/// Relies on chrono::DateTime::parse_from_rfc3339 to read an RFC 3339
/// date-time, and on the accessors timestamp, timestamp_subsec_nanos and
/// FixedOffset::local_minus_utc to take the parsed value apart.
#[verifier::external_body]
fn parse_rfc3339(s: &str) -> (r: Option<Timestamp>)
    ensures
        r == rfc3339_stamp(s@),
{
    match chrono::DateTime::parse_from_rfc3339(s) {
        Ok(dt) => Some(Timestamp {
            epoch_seconds: dt.timestamp(),
            subsec_nanos: dt.timestamp_subsec_nanos(),
            offset_seconds: dt.offset().local_minus_utc(),
        }),
        Err(_) => None,
    }
}

// ---------------------------------------------------------------------------
// Newline-doubling normalization.
//
// Some upstream feeds replace every single newline of a bulletin body with
// two.  That transformation is detected by comparing the number of newline
// characters with twice the number of non-overlapping doubled-newline
// occurrences; when they are equal, every doubled newline is collapsed back
// to a single one.  The collapse is applied exactly once, never recursively.
// ---------------------------------------------------------------------------

/// How many characters of `s` are newlines.
pub open spec fn count_nl(s: Seq<char>) -> nat
    decreases s.len(),
{
    if s.len() == 0 {
        0
    } else {
        (if s[0] == '\n' {
            1nat
        } else {
            0nat
        }) + count_nl(s.skip(1))
    }
}

/// How many non-overlapping doubled newlines `s` holds, counted left to
/// right, the way a leftmost non-overlapping match scan counts them.
pub open spec fn count_dbl(s: Seq<char>) -> nat
    decreases s.len(),
{
    if s.len() < 2 {
        0
    } else if s[0] == '\n' && s[1] == '\n' {
        1 + count_dbl(s.skip(2))
    } else {
        count_dbl(s.skip(1))
    }
}

/// `s` with every doubled newline replaced by a single one, replacing
/// leftmost non-overlapping occurrences.
pub open spec fn collapse_dbl(s: Seq<char>) -> Seq<char>
    decreases s.len(),
{
    if s.len() == 0 {
        s
    } else if s.len() >= 2 && s[0] == '\n' && s[1] == '\n' {
        seq!['\n'] + collapse_dbl(s.skip(2))
    } else {
        seq![s[0]] + collapse_dbl(s.skip(1))
    }
}

/// The normalized body: collapsed when every single newline looks doubled,
/// untouched otherwise.
pub open spec fn normalize_spec(s: Seq<char>) -> Seq<char> {
    if count_nl(s) == 2 * count_dbl(s) {
        collapse_dbl(s)
    } else {
        s
    }
}

proof fn lemma_count_dbl_bound(s: Seq<char>)
    ensures
        2 * count_dbl(s) <= s.len(),
    decreases s.len(),
{
    if s.len() < 2 {
    } else if s[0] == '\n' && s[1] == '\n' {
        lemma_count_dbl_bound(s.skip(2));
    } else {
        lemma_count_dbl_bound(s.skip(1));
    }
}

fn count_newlines(s: &str) -> (r: usize)
    ensures
        r == count_nl(s@),
{
    let n = s.unicode_len();
    let mut i: usize = 0;
    let mut cnt: usize = 0;
    proof {
        assert(s@.skip(0) =~= s@);
    }
    while i < n
        invariant
            n == s@.len(),
            i <= n,
            cnt <= i,
            cnt + count_nl(s@.skip(i as int)) == count_nl(s@),
        decreases n - i,
    {
        proof {
            assert(s@.skip(i as int).skip(1) =~= s@.skip(i as int + 1));
        }
        let c = s.get_char(i);
        if c == '\n' {
            cnt = cnt + 1;
        }
        i = i + 1;
    }
    cnt
}

fn count_doubled_newlines(s: &str) -> (r: usize)
    ensures
        r == count_dbl(s@),
{
    let n = s.unicode_len();
    let mut i: usize = 0;
    let mut cnt: usize = 0;
    proof {
        assert(s@.skip(0) =~= s@);
    }
    while i < n
        invariant
            n == s@.len(),
            i <= n,
            cnt <= i,
            cnt + count_dbl(s@.skip(i as int)) == count_dbl(s@),
        decreases n - i,
    {
        if i + 1 < n {
            let a = s.get_char(i);
            let b = s.get_char(i + 1);
            if a == '\n' && b == '\n' {
                proof {
                    assert(s@.skip(i as int).skip(2) =~= s@.skip(i as int + 2));
                }
                cnt = cnt + 1;
                i = i + 2;
            } else {
                proof {
                    assert(s@.skip(i as int).skip(1) =~= s@.skip(i as int + 1));
                }
                i = i + 1;
            }
        } else {
            proof {
                assert(s@.skip(i as int).skip(1) =~= s@.skip(i as int + 1));
            }
            i = i + 1;
        }
    }
    cnt
}

fn collapse_doubled_newlines(s: &str) -> (r: String)
    ensures
        r@ == collapse_dbl(s@),
{
    let n = s.unicode_len();
    let mut out = String::new();
    let mut i: usize = 0;
    proof {
        assert(s@.skip(0) =~= s@);
        assert(out@ + collapse_dbl(s@) =~= collapse_dbl(s@));
    }
    while i < n
        invariant
            n == s@.len(),
            i <= n,
            out@ + collapse_dbl(s@.skip(i as int)) == collapse_dbl(s@),
        decreases n - i,
    {
        let ghost prev = out@;
        if i + 1 < n && s.get_char(i) == '\n' && s.get_char(i + 1) == '\n' {
            out.append("\n");
            proof {
                reveal_strlit("\n");
                assert(s@.skip(i as int).skip(2) =~= s@.skip(i as int + 2));
                assert("\n"@ =~= seq!['\n']);
                assert(prev + (seq!['\n'] + collapse_dbl(s@.skip(i as int + 2))) =~= (prev
                    + seq!['\n']) + collapse_dbl(s@.skip(i as int + 2)));
            }
            i = i + 2;
        } else {
            let piece = s.substring_char(i, i + 1);
            out.append(piece);
            proof {
                assert(s@.skip(i as int).skip(1) =~= s@.skip(i as int + 1));
                assert(piece@ =~= seq![s@[i as int]]);
                assert(prev + (seq![s@[i as int]] + collapse_dbl(s@.skip(i as int + 1))) =~= (prev
                    + seq![s@[i as int]]) + collapse_dbl(s@.skip(i as int + 1)));
            }
            i = i + 1;
        }
    }
    proof {
        assert(s@.skip(n as int) =~= Seq::<char>::empty());
        assert(out@ + Seq::<char>::empty() =~= out@);
    }
    out
}

/// `s` with every newline replaced by a doubled one: the transformation
/// some upstream feeds apply, which normalization is meant to undo.
pub open spec fn double_nl_spec(s: Seq<char>) -> Seq<char>
    decreases s.len(),
{
    if s.len() == 0 {
        s
    } else if s[0] == '\n' {
        seq!['\n', '\n'] + double_nl_spec(s.skip(1))
    } else {
        seq![s[0]] + double_nl_spec(s.skip(1))
    }
}

proof fn lemma_count_nl_of_doubled(s: Seq<char>)
    ensures
        count_nl(double_nl_spec(s)) == 2 * count_nl(s),
    decreases s.len(),
{
    if s.len() == 0 {
    } else {
        lemma_count_nl_of_doubled(s.skip(1));
        let d = double_nl_spec(s);
        if s[0] == '\n' {
            assert(d[0] == '\n');
            assert(d.skip(1)[0] == '\n');
            assert(d.skip(1).skip(1) =~= double_nl_spec(s.skip(1)));
            assert(count_nl(d) == 1 + count_nl(d.skip(1)));
            assert(count_nl(d.skip(1)) == 1 + count_nl(d.skip(1).skip(1)));
        } else {
            assert(d[0] == s[0]);
            assert(d.skip(1) =~= double_nl_spec(s.skip(1)));
            assert(count_nl(d) == count_nl(d.skip(1)));
        }
    }
}

proof fn lemma_count_dbl_of_doubled(s: Seq<char>)
    ensures
        count_dbl(double_nl_spec(s)) == count_nl(s),
    decreases s.len(),
{
    if s.len() == 0 {
    } else {
        lemma_count_dbl_of_doubled(s.skip(1));
        let d = double_nl_spec(s);
        if s[0] == '\n' {
            assert(d[0] == '\n' && d[1] == '\n');
            assert(d.skip(2) =~= double_nl_spec(s.skip(1)));
        } else {
            assert(d[0] == s[0]);
            if d.len() < 2 {
                assert(s.skip(1).len() == 0);
            } else {
                assert(d.skip(1) =~= double_nl_spec(s.skip(1)));
            }
        }
    }
}

proof fn lemma_collapse_of_doubled(s: Seq<char>)
    ensures
        collapse_dbl(double_nl_spec(s)) == s,
    decreases s.len(),
{
    if s.len() == 0 {
    } else {
        lemma_collapse_of_doubled(s.skip(1));
        let d = double_nl_spec(s);
        if s[0] == '\n' {
            assert(d[0] == '\n' && d[1] == '\n');
            assert(d.skip(2) =~= double_nl_spec(s.skip(1)));
            assert(seq!['\n'] + s.skip(1) =~= s);
        } else {
            assert(d[0] == s[0]);
            assert(d.skip(1) =~= double_nl_spec(s.skip(1)));
            assert(seq![s[0]] + s.skip(1) =~= s);
        }
    }
}

/// Law: for any body, doubling every newline produces exactly the shape the
/// heuristic detects — the newline count equals twice the doubled-newline
/// count — and normalization collapses it back to the original body.
pub proof fn lemma_normalization_undoes_doubling(s: Seq<char>)
    ensures
        count_nl(double_nl_spec(s)) == 2 * count_dbl(double_nl_spec(s)),
        normalize_spec(double_nl_spec(s)) == s,
{
    lemma_count_nl_of_doubled(s);
    lemma_count_dbl_of_doubled(s);
    lemma_collapse_of_doubled(s);
}

// ---------------------------------------------------------------------------
// Legacy sequence extraction.
//
// A historical distribution-sequence number is prepended to many bulletin
// bodies as an empty line followed by a line holding a decimal number.  When
// the body has that shape, the number is stripped into its own field and the
// remainder becomes the final body; otherwise the body is left untouched.
// ---------------------------------------------------------------------------

/// Whether `c` is a decimal digit.
pub open spec fn is_digit(c: char) -> bool {
    48 <= c as int <= 57
}

/// The numeric value of a digit character.
pub open spec fn digit_val(c: char) -> int {
    c as int - 48
}

/// The value of `s` read as a decimal numeral, most significant digit first.
pub open spec fn digits_val(s: Seq<char>) -> int
    decreases s.len(),
{
    if s.len() == 0 {
        0
    } else {
        digits_val(s.drop_last()) * 10 + digit_val(s.last())
    }
}

/// Whether every character of `s` is a decimal digit.
pub open spec fn all_digits(s: Seq<char>) -> bool {
    forall|j: int| 0 <= j < s.len() ==> is_digit(s[j])
}

/// What parsing `s` as an unsigned 32-bit integer yields, the way the
/// standard decimal parse reads it: an optional leading plus sign, then at
/// least one digit, and a value that fits.
pub open spec fn parse_u32_spec(s: Seq<char>) -> Option<u32> {
    let t = if s.len() > 0 && s[0] == '+' {
        s.skip(1)
    } else {
        s
    };
    if t.len() > 0 && all_digits(t) && digits_val(t) <= u32::MAX {
        Some(digits_val(t) as u32)
    } else {
        None
    }
}

proof fn lemma_digits_val_nonneg(s: Seq<char>)
    requires
        all_digits(s),
    ensures
        digits_val(s) >= 0,
    decreases s.len(),
{
    if s.len() == 0 {
    } else {
        assert forall|j: int| 0 <= j < s.drop_last().len() implies is_digit(
            s.drop_last()[j],
        ) by {
            assert(s.drop_last()[j] == s[j]);
        }
        lemma_digits_val_nonneg(s.drop_last());
    }
}

proof fn lemma_digits_val_prefix_le(s: Seq<char>, k: int)
    requires
        all_digits(s),
        0 <= k <= s.len(),
    ensures
        digits_val(s.take(k)) <= digits_val(s),
    decreases s.len() - k,
{
    if k == s.len() {
        assert(s.take(k) =~= s);
    } else {
        assert(s.take(k + 1).drop_last() =~= s.take(k));
        assert(s.take(k + 1).last() == s[k]);
        assert forall|j: int| 0 <= j < s.take(k).len() implies is_digit(s.take(k)[j]) by {
            assert(s.take(k)[j] == s[j]);
        }
        lemma_digits_val_nonneg(s.take(k));
        lemma_digits_val_prefix_le(s, k + 1);
    }
}

/// Parse `s` as an unsigned 32-bit decimal integer, the way the standard
/// parse does: an optional leading plus sign, then one or more digits;
/// anything else, or a value too large, yields nothing.
pub fn parse_u32(s: &str) -> (r: Option<u32>)
    ensures
        r == parse_u32_spec(s@),
{
    let n = s.unicode_len();
    let mut start: usize = 0;
    if n > 0 && s.get_char(0) == '+' {
        start = 1;
    }
    let ghost t = s@.skip(start as int);
    proof {
        assert(s@.skip(0) =~= s@);
    }
    if start >= n {
        return None;
    }
    let mut i: usize = start;
    let mut acc: u64 = 0;
    proof {
        assert(t.take(0) =~= Seq::<char>::empty());
    }
    while i < n
        invariant
            n == s@.len(),
            start <= i <= n,
            start <= 1,
            n > start,
            t == s@.skip(start as int),
            t.len() == n - start,
            (if s@.len() > 0 && s@[0] == '+' {
                s@.skip(1)
            } else {
                s@
            }) == t,
            forall|j: int| 0 <= j < i - start ==> is_digit(t[j]),
            acc <= u32::MAX as u64,
            acc as int == digits_val(t.take(i - start)),
        decreases n - i,
    {
        let c = s.get_char(i);
        proof {
            assert(t[i - start] == s@[i as int]);
        }
        let v = c as u32;
        if v < 48 || v > 57 {
            proof {
                assert(!all_digits(t)) by {
                    assert(0 <= i - start < t.len() && !is_digit(t[i - start]));
                }
            }
            return None;
        }
        let d: u64 = (v - 48) as u64;
        let new_acc: u64 = acc * 10 + d;
        proof {
            assert(t.take(i - start + 1).drop_last() =~= t.take(i - start));
            assert(t.take(i - start + 1).last() == t[i - start]);
        }
        if new_acc > u32::MAX as u64 {
            proof {
                if all_digits(t) {
                    lemma_digits_val_prefix_le(t, i - start + 1);
                }
            }
            return None;
        }
        acc = new_acc;
        i = i + 1;
    }
    proof {
        assert(t.take(n - start) =~= t);
    }
    Some(acc as u32)
}

/// The index of the first newline of `s` at or after `i`.
pub open spec fn find_nl_from(s: Seq<char>, i: int) -> Option<int>
    decreases s.len() - i,
{
    if i < 0 || i >= s.len() {
        None
    } else if s[i] == '\n' {
        Some(i)
    } else {
        find_nl_from(s, i + 1)
    }
}

fn find_newline(s: &str, from: usize) -> (r: Option<usize>)
    requires
        from <= s@.len(),
    ensures
        r matches Some(j) ==> from <= j < s@.len() && s@[j as int] == '\n' && find_nl_from(
            s@,
            from as int,
        ) == Some(j as int),
        r is None ==> find_nl_from(s@, from as int) is None,
{
    let n = s.unicode_len();
    let mut i: usize = from;
    while i < n
        invariant
            n == s@.len(),
            from <= i <= n,
            find_nl_from(s@, from as int) == find_nl_from(s@, i as int),
        decreases n - i,
    {
        let c = s.get_char(i);
        if c == '\n' {
            return Some(i);
        }
        i = i + 1;
    }
    None
}

/// What the sequence extraction makes of a normalized body: when the body
/// starts with an empty line followed by a line that parses as an unsigned
/// integer, that integer and the remainder after the second newline;
/// otherwise no counter and the body unchanged.
pub open spec fn extract_ldm_spec(s: Seq<char>) -> (Option<u32>, Seq<char>) {
    if s.len() > 0 && s[0] == '\n' {
        match find_nl_from(s, 1) {
            Some(j) => match parse_u32_spec(s.subrange(1, j)) {
                Some(v) => (Some(v), s.skip(j + 1)),
                None => (None, s),
            },
            None => (None, s),
        }
    } else {
        (None, s)
    }
}

/// Split the legacy sequence counter off the front of a body, when the body
/// has the counter's shape; otherwise hand the body back untouched.
pub fn split_ldm_sequence(s: &str) -> (r: (Option<u32>, String))
    ensures
        r.0 == extract_ldm_spec(s@).0,
        r.1@ == extract_ldm_spec(s@).1,
{
    let n = s.unicode_len();
    if n == 0 || s.get_char(0) != '\n' {
        return (None, String::from_str(s));
    }
    match find_newline(s, 1) {
        None => (None, String::from_str(s)),
        Some(j) => {
            let digits = s.substring_char(1, j);
            match parse_u32(digits) {
                None => (None, String::from_str(s)),
                Some(v) => {
                    let rest = s.substring_char(j + 1, n);
                    proof {
                        assert(s@.subrange(j as int + 1, n as int) =~= s@.skip(j as int + 1));
                    }
                    (Some(v), String::from_str(rest))
                },
            }
        },
    }
}

proof fn lemma_find_nl_at(s: Seq<char>, from: int, j: int)
    requires
        0 <= from <= j < s.len(),
        s[j] == '\n',
        forall|k: int| from <= k < j ==> s[k] != '\n',
    ensures
        find_nl_from(s, from) == Some(j),
    decreases j - from,
{
    if from == j {
    } else {
        lemma_find_nl_at(s, from + 1, j);
    }
}

/// Law: a body made of an empty line, then a line holding only digits whose
/// value fits an unsigned 32-bit integer, then the remainder, yields exactly
/// that value as the sequence counter, with both lines stripped and exactly
/// the remainder left as the final body.
pub proof fn lemma_sequence_extraction(d: Seq<char>, rest: Seq<char>)
    requires
        d.len() > 0,
        all_digits(d),
        digits_val(d) <= u32::MAX,
    ensures
        extract_ldm_spec(seq!['\n'] + d + seq!['\n'] + rest).0 == Some(digits_val(d) as u32),
        extract_ldm_spec(seq!['\n'] + d + seq!['\n'] + rest).1 == rest,
{
    let s = seq!['\n'] + d + seq!['\n'] + rest;
    let j = 1 + d.len() as int;
    assert(s[0] == '\n');
    assert(s[j] == '\n');
    assert forall|k: int| 1 <= k < j implies s[k] != '\n' by {
        assert(s[k] == d[k - 1]);
        assert(is_digit(d[k - 1]));
    }
    lemma_find_nl_at(s, 1, j);
    assert(s.subrange(1, j) =~= d);
    assert(is_digit(d[0]));
    assert(s.skip(j + 1) =~= rest);
}

/// Undo the newline-doubling transformation when, and only when, the body
/// shows its signature: the newline count equals twice the doubled-newline
/// count.
pub fn normalize_newlines(s: &str) -> (r: String)
    ensures
        r@ == normalize_spec(s@),
{
    let n = s.unicode_len();
    let nl = count_newlines(s);
    let dbl = count_doubled_newlines(s);
    proof {
        lemma_count_dbl_bound(s@);
    }
    if nl == dbl * 2 {
        collapse_doubled_newlines(s)
    } else {
        String::from_str(s)
    }
}

// ---------------------------------------------------------------------------
// The decoder itself.
// ---------------------------------------------------------------------------

/// The legacy sequence counter that decoding strips off a raw body: the body
/// is first normalized, then split.
pub open spec fn seq_counter_spec(text: Seq<char>) -> Option<u32> {
    extract_ldm_spec(normalize_spec(text)).0
}

/// The final body that decoding makes of a raw body: the body is first
/// normalized, then the sequence counter is split off.
pub open spec fn final_body_spec(text: Seq<char>) -> Seq<char> {
    extract_ldm_spec(normalize_spec(text)).1
}

/// Whether a raw unit decodes to a bulletin: it must be a room broadcast,
/// carry the vendor payload element, carry every one of the five required
/// attributes, and its issue timestamp must parse.
pub open spec fn decode_accepts(raw: RawMessage) -> bool {
    &&& raw.groupchat
    &&& raw.payload matches Some(p)
    &&& p.awipsid is Some
    &&& p.cccc is Some
    &&& p.id is Some
    &&& p.ttaaii is Some
    &&& p.issue matches Some(issue)
    &&& rfc3339_stamp(issue@) is Some
}

/// How a decoded bulletin relates to the raw unit it came from.
pub open spec fn bulletin_matches(raw: RawMessage, m: Message) -> bool {
    raw.payload matches Some(p) && {
        &&& p.ttaaii matches Some(t) && m.ttaaii@ == t@
        &&& p.cccc matches Some(c) && m.cccc@ == c@
        &&& p.id matches Some(i) && m.id@ == i@
        &&& p.awipsid matches Some(a) && (if a@.len() == 0 {
            m.awips_id is None
        } else {
            m.awips_id matches Some(b) && b@ == a@
        })
        &&& p.issue matches Some(issue) && rfc3339_stamp(issue@) matches Some(ts) && m.issue == ts
        &&& m.delay_stamp == (match raw.delay_stamp {
            Some(d) => rfc3339_stamp(d@),
            None => None::<Timestamp>,
        })
        &&& m.ldm_sequence_number == seq_counter_spec(p.text@)
        &&& m.message@ == final_body_spec(p.text@)
    }
}

impl Message {
    /// Decode one raw broadcast unit into a bulletin, or reject it.
    /// Rejection is an expected, frequent outcome — unrelated broadcast
    /// traffic carries no vendor payload — so it carries no error detail.
    pub fn decode(raw: &RawMessage) -> (r: Option<Message>)
        ensures
            r is Some <==> decode_accepts(*raw),
            r matches Some(m) ==> bulletin_matches(*raw, m),
    {
        if !raw.groupchat {
            return None;
        }
        let payload = match &raw.payload {
            Some(p) => p,
            None => {
                return None;
            },
        };
        let delay_stamp: Option<Timestamp> = match &raw.delay_stamp {
            Some(d) => parse_rfc3339(d.as_str()),
            None => None,
        };
        let normalized = normalize_newlines(payload.text.as_str());
        let (ldm_sequence_number, body) = split_ldm_sequence(normalized.as_str());
        let awipsid = match &payload.awipsid {
            Some(a) => a,
            None => {
                return None;
            },
        };
        let cccc = match &payload.cccc {
            Some(c) => c,
            None => {
                return None;
            },
        };
        let id = match &payload.id {
            Some(v) => v,
            None => {
                return None;
            },
        };
        let issue_text = match &payload.issue {
            Some(v) => v,
            None => {
                return None;
            },
        };
        let ttaaii = match &payload.ttaaii {
            Some(v) => v,
            None => {
                return None;
            },
        };
        let issue = match parse_rfc3339(issue_text.as_str()) {
            Some(t) => t,
            None => {
                return None;
            },
        };
        let awips_id = if awipsid.as_str().unicode_len() == 0 {
            None
        } else {
            Some(awipsid.clone())
        };
        Some(
            Message {
                ttaaii: ttaaii.clone(),
                cccc: cccc.clone(),
                awips_id,
                issue,
                id: id.clone(),
                delay_stamp,
                ldm_sequence_number,
                message: body,
            },
        )
    }
}

} // verus!
