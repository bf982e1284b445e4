//! The time elapsed since a commit, rendered as hours, minutes and seconds.
use vstd::prelude::*;

verus! {

/// The instant that the history tool's default date text denotes, in seconds
/// since the Unix epoch, or `None` when the text does not follow that form.
pub uninterp spec fn git_date_seconds(s: Seq<char>) -> Option<i64>;

/// Relies on chrono's `DateTime::parse_from_str` with the pattern `%c %z`
/// (as in `Mon Jan 1 12:00:00 2024 +0000`) and on `DateTime::timestamp`:
/// the result depends on the text alone, and empty text does not parse.
#[verifier::external_body]
fn parse_git_date(s: &str) -> (r: Option<i64>)
    ensures
        r == git_date_seconds(s@),
        s@.len() == 0 ==> r is None,
{
    chrono::DateTime::parse_from_str(s, "%c %z").ok().map(|d| d.timestamp())
}

/// The decimal digit for `n`.
pub open spec fn digit_char(n: nat) -> char {
    if n == 0 { '0' }
    else if n == 1 { '1' }
    else if n == 2 { '2' }
    else if n == 3 { '3' }
    else if n == 4 { '4' }
    else if n == 5 { '5' }
    else if n == 6 { '6' }
    else if n == 7 { '7' }
    else if n == 8 { '8' }
    else { '9' }
}

/// `n` in decimal, without leading zeros.
pub open spec fn decimal(n: nat) -> Seq<char>
    decreases n,
{
    if n < 10 {
        seq![digit_char(n)]
    } else {
        decimal(n / 10).push(digit_char(n % 10))
    }
}

/// `n` in decimal, padded with a zero to at least two digits.
pub open spec fn two_digits(n: nat) -> Seq<char> {
    if n < 10 {
        seq!['0', digit_char(n)]
    } else {
        decimal(n)
    }
}

/// `HH:MM:SS` for `e` seconds: the total hours (not taken modulo 24), then
/// the minutes and the seconds within the hour and the minute.
pub open spec fn clock_text(e: nat) -> Seq<char> {
    two_digits(e / 3600) + seq![':'] + two_digits((e / 60) % 60) + seq![':'] + two_digits(e % 60)
}

/// The rendering of an elapsed time of `e` seconds. A negative time (a
/// commit dated after the reference instant) is its magnitude behind a `-`.
pub open spec fn elapsed_text(e: int) -> Seq<char> {
    if e >= 0 {
        clock_text(e as nat)
    } else {
        seq!['-'] + clock_text((-e) as nat)
    }
}

/// The elapsed-time text for a commit dated `date`, seen at `now` (seconds
/// since the Unix epoch); `None` when the date does not parse.
pub open spec fn time_since_text(date: Seq<char>, now: int) -> Option<Seq<char>> {
    match git_date_seconds(date) {
        Some(t) => Some(elapsed_text(now - t)),
        None => None,
    }
}

fn digit(n: u128) -> (c: char)
    requires
        n < 10,
    ensures
        c == digit_char(n as nat),
{
    if n == 0 { '0' }
    else if n == 1 { '1' }
    else if n == 2 { '2' }
    else if n == 3 { '3' }
    else if n == 4 { '4' }
    else if n == 5 { '5' }
    else if n == 6 { '6' }
    else if n == 7 { '7' }
    else if n == 8 { '8' }
    else { '9' }
}

fn push_decimal(out: &mut String, n: u128)
    ensures
        final(out)@ == old(out)@ + decimal(n as nat),
    decreases n,
{
    if n < 10 {
        out.push(digit(n));
    } else {
        push_decimal(out, n / 10);
        out.push(digit(n % 10));
    }
}

fn push_two_digits(out: &mut String, n: u128)
    ensures
        final(out)@ == old(out)@ + two_digits(n as nat),
{
    if n < 10 {
        out.push('0');
        out.push(digit(n));
        assert(out@ =~= old(out)@ + two_digits(n as nat));
    } else {
        push_decimal(out, n);
    }
}

/// Renders an elapsed time of `e` seconds.
pub fn format_elapsed(e: i128) -> (r: String)
    ensures
        r@ == elapsed_text(e as int),
{
    let mut r = String::new();
    let m: u128;
    if e < 0 {
        r.push('-');
        m = (0i128 - (e + 1)) as u128 + 1;
    } else {
        m = e as u128;
    }
    let start = Ghost(r@);
    push_two_digits(&mut r, m / 3600);
    r.push(':');
    push_two_digits(&mut r, (m / 60) % 60);
    r.push(':');
    push_two_digits(&mut r, m % 60);
    assert(r@ =~= start@ + clock_text(m as nat));
    assert(r@ =~= elapsed_text(e as int));
    r
}

/// The time from a commit at `commit` to `now`, both in seconds since the
/// Unix epoch, rendered as `HH:MM:SS`.
pub fn time_since(commit: i64, now: i64) -> (r: String)
    ensures
        r@ == elapsed_text(now - commit),
{
    format_elapsed(now as i128 - commit as i128)
}

/// The time from the commit date `date` to `now` (seconds since the Unix
/// epoch), or `None` when `date` is not in the history tool's default form.
pub fn derive_time_since(date: &str, now: i64) -> (r: Option<String>)
    ensures
        r is Some <==> time_since_text(date@, now as int) is Some,
        r matches Some(x) ==> time_since_text(date@, now as int) == Some(x@),
        date@.len() == 0 ==> r is None,
{
    match parse_git_date(date) {
        Some(t) => Some(time_since(t, now)),
        None => None,
    }
}

/// For a date that parses to an instant no later than `now`, the derived
/// text is the whole hours elapsed, then the minutes within the hour, then
/// the seconds within the minute, each at least two digits, joined by `:`.
pub proof fn lemma_parsed_date_components(date: Seq<char>, now: int)
    requires
        git_date_seconds(date) is Some,
        now - git_date_seconds(date)->Some_0 >= 0,
    ensures
        ({
            let e = now - git_date_seconds(date)->Some_0;
            time_since_text(date, now) == Some(two_digits((e / 3600) as nat) + seq![':']
                + two_digits(((e / 60) % 60) as nat) + seq![':'] + two_digits((e % 60) as nat))
        }),
{
    let e = now - git_date_seconds(date)->Some_0;
    assert((e as nat) / 3600 == e / 3600);
    assert(((e as nat) / 60) % 60 == (e / 60) % 60);
    assert((e as nat) % 60 == e % 60);
}

} // verus!
