use vstd::prelude::*;
use vstd::string::StrSliceExecFns;

verus! {

// ------------------------------------------------------------------
// What an LRC document means
// ------------------------------------------------------------------
/// An ASCII decimal digit.
pub open spec fn is_digit(c: char) -> bool {
    48 <= c as int <= 57
}

/// Numeric value of one digit.
pub open spec fn digit_val(c: char) -> int {
    c as int - 48
}

/// Every character of `s` is a digit.
pub open spec fn all_digits(s: Seq<char>) -> bool {
    forall|k: int| 0 <= k < s.len() ==> is_digit(#[trigger] s[k])
}

/// Value of a digit string, most significant digit first.
pub open spec fn digits_val(s: Seq<char>) -> int
    decreases s.len(),
{
    if s.len() == 0 {
        0
    } else {
        digits_val(s.drop_last()) * 10 + digit_val(s.last())
    }
}

/// What an unsigned decimal field parses to: at least one character, digits
/// only, value within u64 range.
pub open spec fn spec_parse_u64(s: Seq<char>) -> Option<u64> {
    if s.len() >= 1 && all_digits(s) && digits_val(s) <= u64::MAX {
        Some(digits_val(s) as u64)
    } else {
        None
    }
}

/// Index of the first occurrence of `c` in `s` at or after `from`.
pub open spec fn find_char(s: Seq<char>, c: char, from: int) -> Option<int>
    decreases s.len() - from,
{
    if from < 0 || from >= s.len() {
        None
    } else if s[from] == c {
        Some(from)
    } else {
        find_char(s, c, from + 1)
    }
}

/// Whitespace trimmed from lyric text.
pub open spec fn is_space(c: char) -> bool {
    c == ' ' || c == '\t' || c == '\r' || c == '\n'
}

/// `s` with leading and trailing whitespace removed.
pub open spec fn spec_trim(s: Seq<char>) -> Seq<char>
    decreases s.len(),
{
    if s.len() > 0 && is_space(s[0]) {
        spec_trim(s.drop_first())
    } else if s.len() > 0 && is_space(s.last()) {
        spec_trim(s.drop_last())
    } else {
        s
    }
}

/// Milliseconds encoded by the fractional field after the seconds: two
/// digits are hundredths, any other length is taken as milliseconds, and a
/// field that does not parse counts as zero.
pub open spec fn spec_millis(m: Seq<char>) -> int {
    match spec_parse_u64(m) {
        None => 0,
        Some(v) => if m.len() == 2 {
            v * 10
        } else {
            v as int
        },
    }
}

/// Seconds and milliseconds encoded by the part after the colon: `SS`,
/// `SS.xx` (hundredths) or `SS.xxx` (milliseconds); anything after a second
/// dot is ignored.
pub open spec fn spec_seconds(rest: Seq<char>) -> Option<(u64, int)> {
    match find_char(rest, '.', 0) {
        None => match spec_parse_u64(rest) {
            Some(sec) => Some((sec, 0int)),
            None => None,
        },
        Some(j) => {
            let sec_s = rest.subrange(0, j);
            let frac = rest.subrange(j + 1, rest.len() as int);
            let m_s = match find_char(frac, '.', 0) {
                Some(k) => frac.subrange(0, k),
                None => frac,
            };
            match spec_parse_u64(sec_s) {
                Some(sec) => Some((sec, spec_millis(m_s))),
                None => None,
            }
        },
    }
}

/// A `MM:SS(.fraction)` timestamp in milliseconds.  The field must hold
/// exactly one colon, minutes and seconds must parse, and a total beyond
/// the u64 range is rejected.
pub open spec fn spec_parse_time(t: Seq<char>) -> Option<u64> {
    match find_char(t, ':', 0) {
        None => None,
        Some(i) => {
            let rest = t.subrange(i + 1, t.len() as int);
            if find_char(rest, ':', 0) is Some {
                None
            } else {
                match spec_parse_u64(t.subrange(0, i)) {
                    None => None,
                    Some(min) => match spec_seconds(rest) {
                        None => None,
                        Some(sm) => {
                            let total = (min * 60 + sm.0) * 1000 + sm.1;
                            if total <= u64::MAX {
                                Some(total as u64)
                            } else {
                                None
                            }
                        },
                    },
                }
            }
        },
    }
}

/// One line yields a timestamped lyric when it holds a `[`, a `]` after
/// it, a valid timestamp between them, and the text after the bracket,
/// trimmed, as the lyric.  A line whose first `]` comes before the first
/// `[` is skipped.
pub open spec fn spec_parse_line(l: Seq<char>) -> Option<(u64, Seq<char>)> {
    match find_char(l, '[', 0) {
        None => None,
        Some(start) => match find_char(l, ']', 0) {
            None => None,
            Some(end) => if end < start + 1 {
                None
            } else {
                match spec_parse_time(l.subrange(start + 1, end)) {
                    Some(ms) => Some((ms, spec_trim(l.subrange(end + 1, l.len() as int)))),
                    None => None,
                }
            },
        },
    }
}

/// A carriage return before the line break belongs to the break, not the
/// line.
pub open spec fn strip_cr(l: Seq<char>) -> Seq<char> {
    if l.len() > 0 && l.last() == '\r' {
        l.drop_last()
    } else {
        l
    }
}

/// The lines of `s`: split at `\n`, dropping a `\r` that precedes the
/// break; `cur` carries the characters of the current line read so far.
/// A final line needs no break of its own.
pub open spec fn lines_from(s: Seq<char>, cur: Seq<char>) -> Seq<Seq<char>>
    decreases s.len(),
{
    if s.len() == 0 {
        if cur.len() == 0 {
            Seq::empty()
        } else {
            seq![cur]
        }
    } else if s[0] == '\n' {
        seq![strip_cr(cur)] + lines_from(s.drop_first(), Seq::empty())
    } else {
        lines_from(s.drop_first(), cur.push(s[0]))
    }
}

/// The timestamped entries of a sequence of lines, in reading order.
pub open spec fn entries_of(ls: Seq<Seq<char>>) -> Seq<(u64, Seq<char>)>
    decreases ls.len(),
{
    if ls.len() == 0 {
        Seq::empty()
    } else {
        match spec_parse_line(ls[0]) {
            Some(e) => seq![e] + entries_of(ls.drop_first()),
            None => entries_of(ls.drop_first()),
        }
    }
}

/// Every timestamped lyric entry of an LRC document, in reading order,
/// before sorting by time.
pub open spec fn spec_parse_lrc(s: Seq<char>) -> Seq<(u64, Seq<char>)> {
    entries_of(lines_from(s, Seq::empty()))
}

/// Entries ordered by nondecreasing timestamp.
pub open spec fn sorted_by_time(s: Seq<(u64, Seq<char>)>) -> bool {
    forall|i: int, j: int| 0 <= i <= j < s.len() ==> (#[trigger] s[i]).0 <= (#[trigger] s[j]).0
}

/// `e` inserted into the time-ordered `s`, after every entry with the same
/// timestamp.
pub open spec fn insert_by_time(e: (u64, Seq<char>), s: Seq<(u64, Seq<char>)>) -> Seq<
    (u64, Seq<char>),
>
    decreases s.len(),
{
    if s.len() == 0 {
        seq![e]
    } else if s.last().0 > e.0 {
        insert_by_time(e, s.drop_last()).push(s.last())
    } else {
        s.push(e)
    }
}

/// The stable sort of `s` by timestamp: nondecreasing times, entries with
/// equal timestamps keeping their reading order.
pub open spec fn sort_entries(s: Seq<(u64, Seq<char>)>) -> Seq<(u64, Seq<char>)>
    decreases s.len(),
{
    if s.len() == 0 {
        Seq::empty()
    } else {
        insert_by_time(s.last(), sort_entries(s.drop_last()))
    }
}

/// Where the stable insertion lands: left of every entry whose timestamp is
/// strictly greater, right of everything else.
proof fn lemma_insert_by_time_at(e: (u64, Seq<char>), s: Seq<(u64, Seq<char>)>, j: int)
    requires
        0 <= j <= s.len(),
        forall|k: int| j <= k < s.len() ==> (#[trigger] s[k]).0 > e.0,
        j > 0 ==> s[j - 1].0 <= e.0,
    ensures
        insert_by_time(e, s) == s.subrange(0, j) + seq![e] + s.subrange(j, s.len() as int),
    decreases s.len(),
{
    let n = s.len() as int;
    if s.len() == 0 {
        assert(seq![e] =~= s.subrange(0, 0) + seq![e] + s.subrange(0, 0));
    } else if s.last().0 > e.0 {
        assert(j < n);
        let d = s.drop_last();
        assert forall|k: int| j <= k < d.len() implies (#[trigger] d[k]).0 > e.0 by {
            assert(d[k] == s[k]);
        }
        if j > 0 {
            assert(d[j - 1] == s[j - 1]);
        }
        lemma_insert_by_time_at(e, d, j);
        assert(d.subrange(0, j) =~= s.subrange(0, j));
        assert((d.subrange(0, j) + seq![e] + d.subrange(j, n - 1)).push(s.last()) =~= s.subrange(
            0,
            j,
        ) + seq![e] + s.subrange(j, n));
    } else {
        assert(j == n) by {
            if j < n {
                assert(s[n - 1].0 > e.0);
            }
        }
        assert(s.push(e) =~= s.subrange(0, j) + seq![e] + s.subrange(j, j));
    }
}

/// The timestamp/text view of parsed entries.
pub open spec fn entries_view(v: Seq<(u64, String)>) -> Seq<(u64, Seq<char>)> {
    v.map_values(|e: (u64, String)| (e.0, e.1@))
}

/// A digit string has a nonnegative value.
proof fn lemma_digits_val_nonneg(s: Seq<char>)
    requires
        all_digits(s),
    ensures
        digits_val(s) >= 0,
    decreases s.len(),
{
    if s.len() > 0 {
        assert forall|k: int| 0 <= k < s.drop_last().len() implies is_digit(
            #[trigger] s.drop_last()[k],
        ) by {
            assert(s.drop_last()[k] == s[k]);
        }
        lemma_digits_val_nonneg(s.drop_last());
    }
}

// ------------------------------------------------------------------
// The executable parser
// ------------------------------------------------------------------
/// Executable whitespace test matching `is_space`.
fn is_space_exec(c: char) -> (r: bool)
    ensures
        r == is_space(c),
{
    c == ' ' || c == '\t' || c == '\r' || c == '\n'
}

/// First occurrence of `c` within `cs[from..to]`, as an absolute index.
fn find_in(cs: &Vec<char>, from: usize, to: usize, c: char) -> (r: Option<usize>)
    requires
        from <= to && to <= cs.len(),
    ensures
        match r {
            Some(i) => from <= i < to && find_char(
                cs@.subrange(from as int, to as int),
                c,
                0,
            ) == Some(i - from),
            None => find_char(cs@.subrange(from as int, to as int), c, 0) is None,
        },
{
    let ghost t = cs@.subrange(from as int, to as int);
    let mut i: usize = from;
    while i < to
        invariant
            from <= i <= to <= cs.len(),
            t == cs@.subrange(from as int, to as int),
            find_char(t, c, 0) == find_char(t, c, i - from),
        decreases to - i,
    {
        proof {
            assert(t[i - from] == cs@[i as int]);
        }
        if cs[i] == c {
            return Some(i);
        }
        i = i + 1;
    }
    None
}

/// Parse `cs[a..b]` as an unsigned decimal number.
fn parse_number(cs: &Vec<char>, a: usize, b: usize) -> (r: Option<u64>)
    requires
        a <= b && b <= cs.len(),
    ensures
        r == spec_parse_u64(cs@.subrange(a as int, b as int)),
{
    let ghost t = cs@.subrange(a as int, b as int);
    if a == b {
        return None;
    }
    let mut val: u64 = 0;
    let mut overflowed = false;
    let mut i: usize = a;
    while i < b
        invariant
            a <= i <= b <= cs.len(),
            t == cs@.subrange(a as int, b as int),
            all_digits(cs@.subrange(a as int, i as int)),
            !overflowed ==> val == digits_val(cs@.subrange(a as int, i as int)),
            overflowed ==> digits_val(cs@.subrange(a as int, i as int)) > u64::MAX,
        decreases b - i,
    {
        let c = cs[i];
        if c < '0' || c > '9' {
            proof {
                assert(t[i - a] == cs@[i as int]);
                assert(!is_digit(t[i - a]));
            }
            return None;
        }
        let d = (c as u32 - 48) as u64;
        proof {
            assert(is_digit(cs@[i as int]));
            assert(d == digit_val(cs@[i as int]));
            let prev = cs@.subrange(a as int, i as int);
            let next = cs@.subrange(a as int, i as int + 1);
            assert(next.drop_last() =~= prev);
            assert(next.last() == cs@[i as int]);
            assert forall|k: int| 0 <= k < next.len() implies is_digit(#[trigger] next[k]) by {
                if k < i - a {
                    assert(next[k] == prev[k]);
                } else {
                    assert(next[k] == cs@[i as int]);
                }
            }
            assert(digits_val(next) == digits_val(prev) * 10 + digit_val(cs@[i as int]));
            if overflowed {
                lemma_digits_val_nonneg(prev);
            }
        }
        if !overflowed {
            if val > (u64::MAX - d) / 10 {
                overflowed = true;
                proof {
                    let prev = cs@.subrange(a as int, i as int);
                    let next = cs@.subrange(a as int, i as int + 1);
                    assert(val * 10 + d > u64::MAX) by (nonlinear_arith)
                        requires
                            val > (u64::MAX - d) / 10,
                            d <= 9,
                    ;
                    assert(digits_val(next) > u64::MAX);
                }
            } else {
                proof {
                    assert(val * 10 + d <= u64::MAX) by (nonlinear_arith)
                        requires
                            val <= (u64::MAX - d) / 10,
                            d <= 9,
                    ;
                }
                val = val * 10 + d;
            }
        }
        i = i + 1;
    }
    if overflowed {
        None
    } else {
        Some(val)
    }
}

/// Parse `cs[a..b]` as a `MM:SS(.fraction)` timestamp, in milliseconds.
fn parse_time(cs: &Vec<char>, a: usize, b: usize) -> (r: Option<u64>)
    requires
        a <= b && b <= cs.len(),
    ensures
        r == spec_parse_time(cs@.subrange(a as int, b as int)),
{
    let ghost t = cs@.subrange(a as int, b as int);
    let colon = match find_in(cs, a, b, ':') {
        None => {
            return None;
        },
        Some(i) => i,
    };
    proof {
        assert(t.subrange(colon - a + 1, t.len() as int) =~= cs@.subrange(
            colon as int + 1,
            b as int,
        ));
    }
    let second_colon = find_in(cs, colon + 1, b, ':');
    if second_colon.is_some() {
        return None;
    }
    proof {
        assert(t.subrange(0, colon - a) =~= cs@.subrange(a as int, colon as int));
    }
    let min = match parse_number(cs, a, colon) {
        None => {
            return None;
        },
        Some(m) => m,
    };
    let ghost rest = t.subrange(colon - a + 1, t.len() as int);
    let sec: u64;
    let millis: u64;
    match find_in(cs, colon + 1, b, '.') {
        None => {
            sec = match parse_number(cs, colon + 1, b) {
                None => {
                    return None;
                },
                Some(s) => s,
            };
            millis = 0;
        },
        Some(j) => {
            proof {
                assert(rest.subrange(0, j - (colon + 1)) =~= cs@.subrange(
                    colon as int + 1,
                    j as int,
                ));
                assert(rest.subrange(j - colon, rest.len() as int) =~= cs@.subrange(
                    j as int + 1,
                    b as int,
                ));
            }
            sec = match parse_number(cs, colon + 1, j) {
                None => {
                    return None;
                },
                Some(s) => s,
            };
            let ghost frac = rest.subrange(j - colon, rest.len() as int);
            let m_end = match find_in(cs, j + 1, b, '.') {
                Some(k) => {
                    proof {
                        assert(frac.subrange(0, k - (j + 1)) =~= cs@.subrange(
                            j as int + 1,
                            k as int,
                        ));
                    }
                    k
                },
                None => b,
            };
            let mv = parse_number(cs, j + 1, m_end);
            let m_len = m_end - (j + 1);
            millis = match mv {
                None => 0,
                Some(v) => {
                    if m_len == 2 {
                        proof {
                            let ms = cs@.subrange(j as int + 1, m_end as int);
                            assert(digits_val(Seq::<char>::empty()) == 0);
                            assert(ms.drop_last().drop_last() =~= Seq::<char>::empty());
                            assert(digits_val(ms.drop_last().drop_last()) == 0);
                            assert(ms.drop_last().last() == ms[0]);
                            assert(digits_val(ms.drop_last()) == digit_val(ms[0]));
                            assert(ms.last() == ms[1]);
                            assert(digits_val(ms) == digit_val(ms[0]) * 10 + digit_val(ms[1]));
                            assert(is_digit(ms[0]) && is_digit(ms[1]));
                            assert(v <= 99);
                        }
                        v * 10
                    } else {
                        v
                    }
                },
            };
        },
    }
    // total = (min * 60 + sec) * 1000 + millis, rejecting anything beyond
    // the u64 range as spec_parse_time does
    let ghost total = (min * 60 + sec) * 1000 + millis;
    proof {
        assert(spec_seconds(rest) == Some((sec, millis as int)));
    }
    if min > u64::MAX / 60 {
        proof {
            assert(min * 60 > u64::MAX) by (nonlinear_arith)
                requires
                    min > u64::MAX / 60,
            ;
            assert((min * 60 + sec) * 1000 + millis >= min * 60) by (nonlinear_arith);
        }
        return None;
    }
    proof {
        assert(min * 60 <= u64::MAX) by (nonlinear_arith)
            requires
                min <= u64::MAX / 60,
        ;
    }
    let m60: u64 = min * 60;
    if sec > u64::MAX - m60 {
        proof {
            assert((m60 + sec) * 1000 + millis >= m60 + sec) by (nonlinear_arith);
        }
        return None;
    }
    let s_total: u64 = m60 + sec;
    if s_total > u64::MAX / 1000 {
        proof {
            assert(s_total * 1000 > u64::MAX) by (nonlinear_arith)
                requires
                    s_total > u64::MAX / 1000,
            ;
        }
        return None;
    }
    proof {
        assert(s_total * 1000 <= u64::MAX) by (nonlinear_arith)
            requires
                s_total <= u64::MAX / 1000,
        ;
    }
    let ms_total: u64 = s_total * 1000;
    if millis > u64::MAX - ms_total {
        return None;
    }
    Some(ms_total + millis)
}

/// Parse one line of `content`; `cs` mirrors `content` character for
/// character, and the lyric text is cut from `content` directly.
fn parse_line(cs: &Vec<char>, content: &str, ls: usize, le: usize) -> (r: Option<(u64, String)>)
    requires
        cs@ == content@,
        ls <= le && le <= cs.len(),
    ensures
        match r {
            Some(e) => spec_parse_line(cs@.subrange(ls as int, le as int)) == Some((e.0, e.1@)),
            None => spec_parse_line(cs@.subrange(ls as int, le as int)) is None,
        },
{
    let ghost l = cs@.subrange(ls as int, le as int);
    let start = match find_in(cs, ls, le, '[') {
        None => {
            return None;
        },
        Some(i) => i,
    };
    let end = match find_in(cs, ls, le, ']') {
        None => {
            return None;
        },
        Some(i) => i,
    };
    if end < start + 1 {
        return None;
    }
    proof {
        assert(l.subrange(start - ls + 1, end - ls) =~= cs@.subrange(start as int + 1, end as int));
        assert(l.subrange(end - ls + 1, l.len() as int) =~= cs@.subrange(end as int + 1, le as int));
    }
    let ms = match parse_time(cs, start + 1, end) {
        None => {
            return None;
        },
        Some(m) => m,
    };
    // trim the text part in place: first from the front, then from the back
    let ghost text = cs@.subrange(end as int + 1, le as int);
    let mut tb: usize = end + 1;
    let mut te: usize = le;
    while tb < te && is_space_exec(cs[tb])
        invariant
            end + 1 <= tb <= te && te <= le && le <= cs.len(),
            te == le,
            spec_trim(text) == spec_trim(cs@.subrange(tb as int, te as int)),
            text == cs@.subrange(end as int + 1, le as int),
        decreases te - tb,
    {
        proof {
            let curr = cs@.subrange(tb as int, te as int);
            assert(curr[0] == cs@[tb as int]);
            assert(curr.drop_first() =~= cs@.subrange(tb as int + 1, te as int));
        }
        tb = tb + 1;
    }
    while te > tb && is_space_exec(cs[te - 1])
        invariant
            end + 1 <= tb <= te && te <= le && le <= cs.len(),
            tb < te ==> !is_space(cs@[tb as int]),
            spec_trim(text) == spec_trim(cs@.subrange(tb as int, te as int)),
            text == cs@.subrange(end as int + 1, le as int),
        decreases te - tb,
    {
        proof {
            let curr = cs@.subrange(tb as int, te as int);
            assert(curr[0] == cs@[tb as int]);
            assert(curr.last() == cs@[te as int - 1]);
            assert(curr.drop_last() =~= cs@.subrange(tb as int, te as int - 1));
        }
        te = te - 1;
    }
    proof {
        let curr = cs@.subrange(tb as int, te as int);
        if tb < te {
            assert(curr[0] == cs@[tb as int]);
            assert(curr.last() == cs@[te as int - 1]);
        }
        assert(spec_trim(curr) == curr);
    }
    let text_str = content.substring_char(tb, te);
    Some((ms, text_str.to_owned()))
}

/// The number of leading entries whose timestamp has been reached: the
/// scan stops at the first entry still in the future.
pub open spec fn reached_count(entries: Seq<(u64, String)>, position_ms: u64) -> int
    decreases entries.len(),
{
    if entries.len() == 0 || entries[0].0 > position_ms {
        0
    } else {
        1 + reached_count(entries.drop_first(), position_ms)
    }
}

/// Which lyric line to show at `position_ms`: the last of the leading
/// entries whose timestamp has been reached, where the scan stops at the
/// first entry still in the future (entries come time-ordered from the
/// parser, so that is the current line); `None` before the first line.
pub fn current_line(entries: &Vec<(u64, String)>, position_ms: u64) -> (r: Option<usize>)
    ensures
        ({
            let n = reached_count(entries@, position_ms);
            match r {
                Some(i) => n == i + 1,
                None => n == 0,
            }
        }),
{
    let ghost all = entries@;
    proof {
        assert(all.subrange(0, all.len() as int) =~= all);
    }
    let mut i: usize = 0;
    while i < entries.len() && entries[i].0 <= position_ms
        invariant
            i <= all.len(),
            all == entries@,
            reached_count(all, position_ms) == i + reached_count(
                all.subrange(i as int, all.len() as int),
                position_ms,
            ),
        decreases entries.len() - i,
    {
        proof {
            let rest = all.subrange(i as int, all.len() as int);
            assert(rest[0] == all[i as int]);
            assert(rest.drop_first() =~= all.subrange(i as int + 1, all.len() as int));
        }
        i = i + 1;
    }
    proof {
        let rest = all.subrange(i as int, all.len() as int);
        if i < all.len() {
            assert(rest[0] == all[i as int]);
        }
        assert(reached_count(rest, position_ms) == 0);
    }
    if i == 0 {
        None
    } else {
        Some(i - 1)
    }
}

/// Appending one line to a line sequence appends its entry, if it has one.
proof fn lemma_entries_of_cons(l: Seq<char>, rest: Seq<Seq<char>>)
    ensures
        entries_of(seq![l] + rest) == (match spec_parse_line(l) {
            Some(e) => seq![e] + entries_of(rest),
            None => entries_of(rest),
        }),
{
    let s = seq![l] + rest;
    assert(s[0] == l);
    assert(s.drop_first() =~= rest);
}

/// Parse the timestamped lyric lines of an LRC document.  Lines without a
/// well-formed `[MM:SS(.fraction)]` prefix are skipped; the entries come
/// back ordered by nondecreasing timestamp, and entries with equal
/// timestamps keep their reading order.
pub fn parse_lrc(content: &str) -> (r: Vec<(u64, String)>)
    ensures
        entries_view(r@) == sort_entries(spec_parse_lrc(content@)),
        sorted_by_time(entries_view(r@)),
{
    let n = content.unicode_len();
    let mut cs: Vec<char> = Vec::new();
    let mut k: usize = 0;
    while k < n
        invariant
            k <= n,
            n == content@.len(),
            cs@ == content@.take(k as int),
        decreases n - k,
    {
        let c = content.get_char(k);
        cs.push(c);
        proof {
            assert(content@.take(k as int + 1) =~= content@.take(k as int).push(
                content@[k as int],
            ));
        }
        k = k + 1;
    }
    proof {
        assert(content@.take(n as int) =~= content@);
    }

    let mut out: Vec<(u64, String)> = Vec::new();
    let mut ls: usize = 0;
    let mut i: usize = 0;
    proof {
        assert(cs@.subrange(0, n as int) =~= cs@);
        assert(cs@.subrange(0, 0) =~= Seq::<char>::empty());
        assert(entries_view(out@) =~= Seq::<(u64, Seq<char>)>::empty());
    }
    while i < n
        invariant
            cs@ == content@,
            n == cs.len(),
            ls <= i <= n,
            entries_view(out@) + entries_of(
                lines_from(cs@.subrange(i as int, n as int), cs@.subrange(ls as int, i as int)),
            ) == spec_parse_lrc(cs@),
        decreases n - i,
    {
        let ghost s_i = cs@.subrange(i as int, n as int);
        let ghost cur = cs@.subrange(ls as int, i as int);
        proof {
            assert(s_i[0] == cs@[i as int]);
            assert(s_i.drop_first() =~= cs@.subrange(i as int + 1, n as int));
        }
        if cs[i] == '\n' {
            let le2: usize = if i > ls && cs[i - 1] == '\r' {
                i - 1
            } else {
                i
            };
            proof {
                if i > ls && cs@[i as int - 1] == '\r' {
                    assert(cur.last() == cs@[i as int - 1]);
                    assert(cur.drop_last() =~= cs@.subrange(ls as int, i as int - 1));
                }
                assert(strip_cr(cur) =~= cs@.subrange(ls as int, le2 as int));
                lemma_entries_of_cons(
                    strip_cr(cur),
                    lines_from(cs@.subrange(i as int + 1, n as int), Seq::empty()),
                );
            }
            let ghost prev_out = out@;
            match parse_line(&cs, content, ls, le2) {
                Some(e) => {
                    let ghost en = (e.0, e.1@);
                    out.push(e);
                    proof {
                        assert(entries_view(out@) =~= entries_view(prev_out).push(en));
                        assert(entries_view(prev_out).push(en) =~= entries_view(prev_out) + seq![
                            en,
                        ]);
                        assert((entries_view(prev_out) + seq![en]) + entries_of(
                            lines_from(cs@.subrange(i as int + 1, n as int), Seq::empty()),
                        ) =~= entries_view(prev_out) + (seq![en] + entries_of(
                            lines_from(cs@.subrange(i as int + 1, n as int), Seq::empty()),
                        )));
                    }
                },
                None => {},
            }
            proof {
                assert(cs@.subrange(i as int + 1, i as int + 1) =~= Seq::<char>::empty());
            }
            ls = i + 1;
        } else {
            proof {
                assert(cur.push(cs@[i as int]) =~= cs@.subrange(ls as int, i as int + 1));
            }
        }
        i = i + 1;
    }
    proof {
        assert(cs@.subrange(n as int, n as int) =~= Seq::<char>::empty());
    }
    if ls < n {
        proof {
            let cur = cs@.subrange(ls as int, n as int);
            assert(lines_from(Seq::empty(), cur) =~= seq![cur] + Seq::<Seq<char>>::empty());
            lemma_entries_of_cons(cur, Seq::empty());
            assert(entries_of(Seq::<Seq<char>>::empty()) =~= Seq::<(u64, Seq<char>)>::empty());
        }
        let ghost prev_out = out@;
        match parse_line(&cs, content, ls, n) {
            Some(e) => {
                let ghost en = (e.0, e.1@);
                out.push(e);
                proof {
                    assert(entries_view(out@) =~= entries_view(prev_out).push(en));
                    assert(entries_view(prev_out).push(en) =~= entries_view(prev_out) + seq![en]);
                    assert(entries_view(prev_out) + Seq::<(u64, Seq<char>)>::empty()
                        =~= entries_view(prev_out));
                }
            },
            None => {
                proof {
                    assert(entries_view(out@) + Seq::<(u64, Seq<char>)>::empty() =~= entries_view(
                        out@,
                    ));
                }
            },
        }
    } else {
        proof {
            assert(entries_view(out@) + Seq::<(u64, Seq<char>)>::empty() =~= entries_view(out@));
        }
    }
    let ghost parsed = entries_view(out@);
    proof {
        assert(parsed == spec_parse_lrc(cs@));
    }

    // stable insertion sort by timestamp
    let ghost len0 = out@.len() as int;
    proof {
        if len0 > 0 {
            let first = parsed.subrange(0, 1);
            assert(first.drop_last() =~= Seq::<(u64, Seq<char>)>::empty());
            assert(sort_entries(first.drop_last()) =~= Seq::<(u64, Seq<char>)>::empty());
            assert(sort_entries(first) =~= seq![parsed[0]]);
            assert(seq![parsed[0]] + parsed.subrange(1, len0) =~= parsed);
        }
    }
    let mut si: usize = 1;
    while si < out.len()
        invariant
            1 <= si,
            out@.len() == len0,
            si <= len0 || len0 == 0,
            parsed.len() == len0,
            len0 > 0 ==> entries_view(out@) == sort_entries(parsed.subrange(0, si as int))
                + parsed.subrange(si as int, len0),
            forall|x: int, y: int| 0 <= x <= y < si && y < len0 ==> out@[x].0 <= out@[y].0,
        decreases out.len() - si,
    {
        let ghost orig = entries_view(out@);
        let ghost s_pref = sort_entries(parsed.subrange(0, si as int));
        let ghost en = parsed[si as int];
        let ghost tail = parsed.subrange(si as int + 1, len0);
        proof {
            assert(parsed.subrange(si as int, len0)[0] == en);
            assert(parsed.subrange(si as int, len0).drop_first() =~= tail);
            assert(seq![en] + tail =~= parsed.subrange(si as int, len0));
            assert(s_pref.len() == si) by {
                assert(orig.subrange(0, si as int) =~= s_pref);
            }
            assert(s_pref.subrange(0, si as int) =~= s_pref);
            assert(s_pref.subrange(si as int, si as int) =~= Seq::<(u64, Seq<char>)>::empty());
            assert((s_pref + (seq![en] + tail)) =~= (s_pref.subrange(0, si as int) + seq![en]
                + s_pref.subrange(si as int, si as int)) + tail);
        }
        let mut j: usize = si;
        while j > 0 && out[j - 1].0 > out[j].0
            invariant
                j <= si < out@.len(),
                out@.len() == len0,
                s_pref.len() == si,
                entries_view(out@) == (s_pref.subrange(0, j as int) + seq![en] + s_pref.subrange(
                    j as int,
                    si as int,
                )) + tail,
                forall|k: int| j <= k < si ==> (#[trigger] s_pref[k]).0 > en.0,
                forall|x: int, y: int|
                    0 <= x <= y <= si && x != j && y != j ==> out@[x].0 <= out@[y].0,
                forall|y: int| j < y <= si ==> out@[j as int].0 <= out@[y].0,
            decreases j,
        {
            let ghost before = out@;
            proof {
                assert(entries_view(before)[j as int] == en);
                assert(entries_view(before)[j as int - 1] == s_pref[j as int - 1]);
                assert(before[j as int].0 == en.0);
                assert(before[j as int - 1].0 == s_pref[j as int - 1].0);
            }
            let e = out.remove(j);
            out.insert(j - 1, e);
            proof {
                let a = entries_view(before);
                assert(entries_view(before.remove(j as int)) =~= a.remove(j as int));
                assert(entries_view(out@) =~= a.remove(j as int).insert(j as int - 1, a[j as int]));
                assert(s_pref.subrange(0, j as int - 1) =~= s_pref.subrange(0, j as int).drop_last());
                assert(seq![s_pref[j as int - 1]] + s_pref.subrange(j as int, si as int)
                    =~= s_pref.subrange(j as int - 1, si as int));
                assert(entries_view(out@) =~= (s_pref.subrange(0, j as int - 1) + seq![en]
                    + s_pref.subrange(j as int - 1, si as int)) + tail);
                // the swap moves only the two neighbours
                assert(out@[j as int - 1] == before[j as int]);
                assert(out@[j as int] == before[j as int - 1]);
                assert forall|x: int|
                    0 <= x < out@.len() && x != j && x != j - 1 implies out@[x] == before[x] by {}
            }
            j = j - 1;
        }
        proof {
            if j > 0 {
                assert(entries_view(out@)[j as int] == en);
                assert(entries_view(out@)[j as int - 1] == s_pref[j as int - 1]);
                assert(s_pref[j as int - 1].0 <= en.0);
            }
            lemma_insert_by_time_at(en, s_pref, j as int);
            let next = parsed.subrange(0, si as int + 1);
            assert(next.drop_last() =~= parsed.subrange(0, si as int));
            assert(next.last() == en);
            assert(sort_entries(next) == insert_by_time(en, s_pref));
            assert(entries_view(out@) =~= sort_entries(next) + tail);
        }
        si = si + 1;
    }
    proof {
        if len0 > 0 {
            assert(parsed.subrange(0, len0) =~= parsed);
            assert(parsed.subrange(len0, len0) =~= Seq::<(u64, Seq<char>)>::empty());
            assert(sort_entries(parsed) + Seq::<(u64, Seq<char>)>::empty() =~= sort_entries(
                parsed,
            ));
        } else {
            assert(parsed =~= Seq::<(u64, Seq<char>)>::empty());
            assert(entries_view(out@) =~= Seq::<(u64, Seq<char>)>::empty());
            assert(sort_entries(parsed) =~= Seq::<(u64, Seq<char>)>::empty());
        }
        assert forall|x: int, y: int|
            0 <= x <= y < entries_view(out@).len() implies (#[trigger] entries_view(out@)[x]).0
            <= (#[trigger] entries_view(out@)[y]).0 by {
            assert(entries_view(out@)[x] == (out@[x].0, out@[x].1@));
            assert(entries_view(out@)[y] == (out@[y].0, out@[y].1@));
        }
    }
    out
}

} // verus!
