use vstd::prelude::*;

verus! {

/// Which language labels are rendered in.
#[derive(PartialEq, Eq, Structural, Clone, Copy, Debug)]
pub enum Language {
    Chinese,
    English,
}

impl Language {
    /// The label naming the language itself.
    pub open spec fn spec_label(self) -> Seq<char> {
        match self {
            Language::Chinese => "中文"@,
            Language::English => "English"@,
        }
    }

    pub fn as_str(&self) -> (r: &'static str)
        ensures
            r@ == self.spec_label(),
    {
        match self {
            Language::Chinese => "中文",
            Language::English => "English",
        }
    }
}

/// The character for one decimal digit.
pub open spec fn digit_char(d: int) -> char {
    (48 + d) as char
}

/// Decimal digits of `n`, most significant first, without leading zeros
/// (except for `n == 0` itself).
pub open spec fn dec_digits(n: int) -> Seq<char>
    decreases n,
{
    if n < 10 {
        seq![digit_char(n)]
    } else {
        dec_digits(n / 10).push(digit_char(n % 10))
    }
}

/// `n` in decimal, zero-padded to at least two digits.
pub open spec fn two_digit(n: int) -> Seq<char> {
    if n < 10 {
        seq!['0'] + dec_digits(n)
    } else {
        dec_digits(n)
    }
}

/// A position of `ms` milliseconds rendered as `MM:SS`, both fields
/// zero-padded to two digits, the minutes growing wider when needed.
pub open spec fn spec_format_time(ms: u64) -> Seq<char> {
    two_digit(ms as int / 1000 / 60) + seq![':'] + two_digit(ms as int / 1000 % 60)
}

/// The characters of a digit stack (least significant first), read back
/// most significant first.
spec fn tail_chars(ds: Seq<u64>) -> Seq<char>
    decreases ds.len(),
{
    if ds.len() == 0 {
        Seq::empty()
    } else {
        seq![digit_char(ds.last() as int)] + tail_chars(ds.drop_last())
    }
}

/// Reading a digit stack back emits its first (least significant) digit
/// last.
proof fn lemma_tail_chars_drop_first(ds: Seq<u64>)
    requires
        ds.len() > 0,
    ensures
        tail_chars(ds) == tail_chars(ds.drop_first()) + seq![digit_char(ds.first() as int)],
    decreases ds.len(),
{
    if ds.len() == 1 {
        assert(ds.drop_first() =~= Seq::<u64>::empty());
        assert(ds.drop_last() =~= Seq::<u64>::empty());
        assert(tail_chars(Seq::<u64>::empty()) =~= Seq::<char>::empty());
        assert(ds.last() == ds.first());
        assert(tail_chars(ds) =~= Seq::<char>::empty() + seq![digit_char(ds.first() as int)]);
    } else {
        lemma_tail_chars_drop_first(ds.drop_last());
        assert(ds.drop_last().drop_first() =~= ds.drop_first().drop_last());
        assert(ds.drop_last().first() == ds.first());
        assert(ds.drop_first().last() == ds.last());
        assert(seq![digit_char(ds.last() as int)] + (tail_chars(ds.drop_first().drop_last())
            + seq![digit_char(ds.first() as int)]) =~= (seq![digit_char(ds.last() as int)]
            + tail_chars(ds.drop_first().drop_last())) + seq![digit_char(ds.first() as int)]);
    }
}

/// One digit as text.
fn digit_str(d: u64) -> (r: &'static str)
    requires
        d < 10,
    ensures
        r@ == seq![digit_char(d as int)],
{
    proof {
        reveal_strlit("0");
        reveal_strlit("1");
        reveal_strlit("2");
        reveal_strlit("3");
        reveal_strlit("4");
        reveal_strlit("5");
        reveal_strlit("6");
        reveal_strlit("7");
        reveal_strlit("8");
        reveal_strlit("9");
    }
    match d {
        0 => "0",
        1 => "1",
        2 => "2",
        3 => "3",
        4 => "4",
        5 => "5",
        6 => "6",
        7 => "7",
        8 => "8",
        _ => "9",
    }
}

/// Append `n` in decimal.
pub(crate) fn push_decimal(s: &mut String, n: u64)
    ensures
        final(s)@ == old(s)@ + dec_digits(n as int),
{
    let mut digs: Vec<u64> = Vec::new();
    digs.push(n % 10);
    let mut m: u64 = n / 10;
    proof {
        assert(digs@.drop_last() =~= Seq::<u64>::empty());
        assert(tail_chars(Seq::<u64>::empty()) =~= Seq::<char>::empty());
        assert(tail_chars(digs@) =~= seq![digit_char(n as int % 10)]);
        if m > 0 {
            assert(dec_digits(n as int) =~= dec_digits(n as int / 10) + seq![
                digit_char(n as int % 10),
            ]);
        }
    }
    while m > 0
        invariant
            dec_digits(n as int) == (if m > 0 {
                dec_digits(m as int)
            } else {
                Seq::<char>::empty()
            }) + tail_chars(digs@),
            forall|k: int| 0 <= k < digs@.len() ==> #[trigger] digs@[k] < 10,
        decreases m,
    {
        let d = m % 10;
        let ghost before = digs@;
        digs.push(d);
        m = m / 10;
        proof {
            assert(digs@.drop_last() =~= before);
            assert(tail_chars(digs@) =~= seq![digit_char(d as int)] + tail_chars(before));
            if m > 0 {
                assert(dec_digits(m as int * 10 + d) =~= dec_digits(m as int) + seq![
                    digit_char(d as int),
                ]);
                assert((dec_digits(m as int) + seq![digit_char(d as int)]) + tail_chars(before)
                    =~= dec_digits(m as int) + (seq![digit_char(d as int)] + tail_chars(before)));
            } else {
                assert(dec_digits(d as int) =~= seq![digit_char(d as int)]);
                assert((seq![digit_char(d as int)]) + tail_chars(before) =~= Seq::<char>::empty()
                    + (seq![digit_char(d as int)] + tail_chars(before)));
            }
        }
    }
    let mut i: usize = digs.len();
    proof {
        assert(digs@.subrange(i as int, digs@.len() as int) =~= Seq::<u64>::empty());
        assert(s@ + Seq::<char>::empty() =~= s@);
    }
    while i > 0
        invariant
            i <= digs@.len(),
            dec_digits(n as int) == tail_chars(digs@),
            forall|k: int| 0 <= k < digs@.len() ==> #[trigger] digs@[k] < 10,
            s@ == old(s)@ + tail_chars(digs@.subrange(i as int, digs@.len() as int)),
        decreases i,
    {
        let d = digs[i - 1];
        let piece = digit_str(d);
        s.append(piece);
        proof {
            let len = digs@.len() as int;
            let sub = digs@.subrange(i as int - 1, len);
            lemma_tail_chars_drop_first(sub);
            assert(sub.drop_first() =~= digs@.subrange(i as int, len));
            assert(sub.first() == digs@[i as int - 1]);
            assert((old(s)@ + tail_chars(digs@.subrange(i as int, len))) + seq![
                digit_char(d as int),
            ] =~= old(s)@ + (tail_chars(digs@.subrange(i as int, len)) + seq![
                digit_char(d as int),
            ]));
        }
        i = i - 1;
    }
    proof {
        assert(digs@.subrange(0, digs@.len() as int) =~= digs@);
    }
}

/// Append `n` in decimal, zero-padded to at least two digits.
fn push_two_digit(s: &mut String, n: u64)
    ensures
        final(s)@ == old(s)@ + two_digit(n as int),
{
    if n < 10 {
        proof {
            reveal_strlit("0");
        }
        s.append("0");
    }
    push_decimal(s, n);
    proof {
        if n < 10 {
            assert((old(s)@ + seq!['0']) + dec_digits(n as int) =~= old(s)@ + (seq!['0']
                + dec_digits(n as int)));
        }
    }
}

/// A position of `ms` milliseconds rendered as `MM:SS`, as the progress
/// display shows it.
pub fn format_time(ms: u64) -> (r: String)
    ensures
        r@ == spec_format_time(ms),
{
    let secs = ms / 1000;
    let mut s = String::new();
    push_two_digit(&mut s, secs / 60);
    proof {
        reveal_strlit(":");
    }
    s.append(":");
    push_two_digit(&mut s, secs % 60);
    proof {
        assert(((Seq::<char>::empty() + two_digit(ms as int / 1000 / 60)) + seq![':'])
            + two_digit(ms as int / 1000 % 60) =~= spec_format_time(ms));
    }
    s
}

/// Default RGBA colour of overlay lyric text: opaque white.
pub fn default_text_color() -> (r: [u8; 4])
    ensures
        r@ =~= seq![255u8, 255u8, 255u8, 255u8],
{
    [255, 255, 255, 255]
}

/// Default RGBA colour behind overlay lyrics: fully transparent black.
pub fn default_bg_color() -> (r: [u8; 4])
    ensures
        r@ =~= seq![0u8, 0u8, 0u8, 0u8],
{
    [0, 0, 0, 0]
}

/// Default RGBA colour of the main window background: opaque dark grey.
pub fn default_ui_bg_color() -> (r: [u8; 4])
    ensures
        r@ =~= seq![30u8, 30u8, 30u8, 255u8],
{
    [30, 30, 30, 255]
}

} // verus!
