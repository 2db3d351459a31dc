//! Decimal numbers, durations and padded cells as text.
use vstd::prelude::*;

verus! {

/// The character of a decimal digit.
pub open spec fn digit_char(d: nat) -> char {
    if d == 0 { '0' }
    else if d == 1 { '1' }
    else if d == 2 { '2' }
    else if d == 3 { '3' }
    else if d == 4 { '4' }
    else if d == 5 { '5' }
    else if d == 6 { '6' }
    else if d == 7 { '7' }
    else if d == 8 { '8' }
    else { '9' }
}

/// The decimal representation of `n`, without leading zeros.
pub open spec fn decimal(n: nat) -> Seq<char>
    decreases n,
{
    if n < 10 {
        seq![digit_char(n)]
    } else {
        decimal(n / 10).push(digit_char(n % 10))
    }
}

/// The text that `Duration`'s `Debug` gives for `secs` seconds and `nanos`
/// nanoseconds.
pub uninterp spec fn duration_debug(secs: u64, nanos: u32) -> Seq<char>;

/// A duration given in nanoseconds, as `Duration`'s `Debug` writes it
/// (`1ms`, `9.5ms`, `500µs`, `1.25s`).
pub open spec fn duration_text(nanos: nat) -> Seq<char> {
    duration_debug((nanos / 1_000_000_000) as u64, (nanos % 1_000_000_000) as u32)
}

/// A value given in hundredths, with two decimals (`12.34`).
pub open spec fn hundredths_text(n: nat) -> Seq<char> {
    decimal(n / 100) + seq!['.', digit_char((n / 10) % 10), digit_char(n % 10)]
}

pub open spec fn line_char(c: char) -> char {
    if c == '\n' || c == '\r' { ' ' } else { c }
}

/// `t` with every line break replaced by a space.
pub open spec fn one_line(t: Seq<char>) -> Seq<char> {
    t.map_values(|c: char| line_char(c))
}

/// `n` spaces.
pub open spec fn spaces(n: nat) -> Seq<char> {
    Seq::new(n, |i: int| ' ')
}

/// `t` padded on the right with spaces to at least `width` characters.
pub open spec fn padded(t: Seq<char>, width: nat) -> Seq<char> {
    if t.len() < width {
        t + spaces((width - t.len()) as nat)
    } else {
        t
    }
}

fn digit_str(d: u128) -> (r: &'static str)
    requires
        d < 10,
    ensures
        r@ == seq![digit_char(d as nat)],
{
    proof {
        reveal_strlit("0");
        reveal_strlit("1");
        reveal_strlit("2");
        reveal_strlit("3");
        reveal_strlit("4");
        reveal_strlit("5");
        reveal_strlit("6");
        reveal_strlit("7");
        reveal_strlit("8");
        reveal_strlit("9");
    }
    if d == 0 { "0" }
    else if d == 1 { "1" }
    else if d == 2 { "2" }
    else if d == 3 { "3" }
    else if d == 4 { "4" }
    else if d == 5 { "5" }
    else if d == 6 { "6" }
    else if d == 7 { "7" }
    else if d == 8 { "8" }
    else { "9" }
}

/// Appends the decimal representation of `n`.
pub fn push_decimal(s: &mut String, n: u128)
    ensures
        final(s)@ == old(s)@ + decimal(n as nat),
    decreases n,
{
    if n >= 10 {
        push_decimal(s, n / 10);
    }
    s.append(digit_str(n % 10));
    assert(final(s)@ =~= old(s)@ + decimal(n as nat));
}

/// Relies on `<std::time::Duration as Debug>::fmt` for the text of
/// `Duration::new(secs, nanos)`, which depends on the two values alone;
/// `Duration::new` does not panic when `nanos` is under a second.
#[verifier::external_body]
fn duration_debug_text(secs: u64, nanos: u32) -> (r: String)
    requires
        nanos < 1_000_000_000,
    ensures
        r@ == duration_debug(secs, nanos),
{
    format!("{:?}", std::time::Duration::new(secs, nanos))
}

/// Appends a duration in nanoseconds as `Duration`'s `Debug` writes it.
pub fn push_duration(s: &mut String, nanos: u128)
    requires
        nanos / 1_000_000_000 <= u64::MAX,
    ensures
        final(s)@ == old(s)@ + duration_text(nanos as nat),
{
    let text = duration_debug_text((nanos / 1_000_000_000) as u64, (nanos % 1_000_000_000) as u32);
    s.append(text.as_str());
}

/// Appends `t` with every line break replaced by a space.
pub fn push_one_line(s: &mut String, t: &str)
    ensures
        final(s)@ == old(s)@ + one_line(t@),
{
    let n = t.unicode_len();
    let mut i: usize = 0;
    while i < n
        invariant
            n == t@.len(),
            i <= n,
            s@ == old(s)@ + one_line(t@.subrange(0, i as int)),
        decreases n - i,
    {
        let c = t.get_char(i);
        if c == '\n' || c == '\r' {
            s.append(" ");
            proof {
                reveal_strlit(" ");
            }
        } else {
            s.append(t.substring_char(i, i + 1));
        }
        i = i + 1;
        assert(one_line(t@.subrange(0, i as int)) =~= one_line(t@.subrange(0, i - 1 as int)) + seq![
            line_char(c),
        ]);
        assert(s@ =~= old(s)@ + one_line(t@.subrange(0, i as int)));
    }
    assert(t@.subrange(0, n as int) =~= t@);
}

/// Appends a value given in hundredths with two decimals.
pub fn push_hundredths(s: &mut String, n: u128)
    ensures
        final(s)@ == old(s)@ + hundredths_text(n as nat),
{
    push_decimal(s, n / 100);
    s.append(".");
    s.append(digit_str((n / 10) % 10));
    s.append(digit_str(n % 10));
    proof {
        reveal_strlit(".");
    }
    assert(final(s)@ =~= old(s)@ + hundredths_text(n as nat));
}

/// Appends `cell`, then spaces up to `width` characters.
pub fn push_cell(s: &mut String, cell: &str, width: usize)
    ensures
        final(s)@ == old(s)@ + padded(cell@, width as nat),
{
    s.append(cell);
    let len = cell.unicode_len();
    let mut k: usize = len;
    while k < width
        invariant
            len == cell@.len(),
            len <= k,
            k <= width || k == len,
            s@ == old(s)@ + cell@ + spaces((k - len) as nat),
        decreases width - k,
    {
        s.append(" ");
        k = k + 1;
        proof {
            reveal_strlit(" ");
        }
        assert(spaces((k - len) as nat) =~= spaces((k - 1 - len) as nat) + seq![' ']);
        assert(s@ =~= old(s)@ + cell@ + spaces((k - len) as nat));
    }
    assert(spaces(0) =~= Seq::<char>::empty());
    assert(final(s)@ =~= old(s)@ + padded(cell@, width as nat));
}

} // verus!
