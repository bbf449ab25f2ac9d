use vstd::prelude::*;

use crate::addresses::{select_addresses, selected, views};

verus! {

/// Default timeout of an attempt, in seconds.
pub const DEFAULT_TIMEOUT_SECS: u64 = 5;

/// Why a command line was refused.
#[derive(Clone, Copy, Debug, PartialEq, Eq, Structural)]
pub enum UsageError {
    /// A flag that takes a value came last.
    MissingValue,
    /// A numeric flag's value is not an unsigned decimal number in range.
    InvalidNumber,
    /// An argument starting with `--` names no flag.
    UnknownFlag,
    /// The worker count is zero.
    ZeroWorkers,
    /// Neither the command line nor the address file names an address.
    NoAddresses,
}

/// A run's settings, as given on the command line.
pub struct Config {
    /// Addresses given directly, in order.
    pub addresses: Vec<String>,
    /// A file with one address per line.
    pub file: Option<String>,
    pub workers: usize,
    pub timeout_secs: u64,
    pub retries: u32,
}

/// The settings while the command line is read: addresses, file, workers,
/// timeout and retries.
pub type Settings = (Seq<Seq<char>>, Option<Seq<char>>, nat, nat, nat);

/// The value of a string of decimal digits.
pub open spec fn digits_value(s: Seq<char>) -> nat
    decreases s.len(),
{
    if s.len() == 0 {
        0
    } else {
        digits_value(s.drop_last()) * 10 + (s.last() as nat - '0' as nat) as nat
    }
}

pub open spec fn all_digits(s: Seq<char>) -> bool {
    forall|i: int| 0 <= i < s.len() ==> '0' <= #[trigger] s[i] <= '9'
}

/// An unsigned decimal number: an optional `+`, then one or more digits; its
/// value when that is at most `max`.
pub open spec fn number_in(s: Seq<char>, max: nat) -> Option<nat> {
    let body = if s.len() > 0 && s[0] == '+' { s.drop_first() } else { s };
    if body.len() > 0 && all_digits(body) && digits_value(body) <= max {
        Some(digits_value(body))
    } else {
        None
    }
}

/// Whether an argument has the shape of a flag.
pub open spec fn is_flag(a: Seq<char>) -> bool {
    a.len() >= 2 && a[0] == '-' && a[1] == '-'
}

/// Reads `args` from position `i` on into `s`. A flag's value is the argument
/// after it, whatever it holds; a later flag overrides an earlier one.
pub open spec fn parse_from(args: Seq<Seq<char>>, i: int, s: Settings) -> Result<Settings, UsageError>
    decreases args.len() - i,
{
    if i < 0 || i >= args.len() {
        Ok(s)
    } else {
        let a = args[i];
        if a == "--file"@ || a == "--workers"@ || a == "--timeout"@ || a == "--retries"@ {
            if i + 1 >= args.len() {
                Err(UsageError::MissingValue)
            } else {
                let v = args[i + 1];
                if a == "--file"@ {
                    parse_from(args, i + 2, (s.0, Some(v), s.2, s.3, s.4))
                } else if a == "--workers"@ {
                    match number_in(v, usize::MAX as nat) {
                        Some(n) => parse_from(args, i + 2, (s.0, s.1, n, s.3, s.4)),
                        None => Err(UsageError::InvalidNumber),
                    }
                } else if a == "--timeout"@ {
                    match number_in(v, u64::MAX as nat) {
                        Some(n) => parse_from(args, i + 2, (s.0, s.1, s.2, n, s.4)),
                        None => Err(UsageError::InvalidNumber),
                    }
                } else {
                    match number_in(v, u32::MAX as nat) {
                        Some(n) => parse_from(args, i + 2, (s.0, s.1, s.2, s.3, n)),
                        None => Err(UsageError::InvalidNumber),
                    }
                }
            }
        } else if is_flag(a) {
            Err(UsageError::UnknownFlag)
        } else {
            parse_from(args, i + 1, (s.0.push(a), s.1, s.2, s.3, s.4))
        }
    }
}

/// The settings that a command line gives, starting from the defaults.
pub open spec fn parsed(args: Seq<Seq<char>>, default_workers: nat) -> Result<Settings, UsageError> {
    parse_from(args, 0, (Seq::empty(), None, default_workers, DEFAULT_TIMEOUT_SECS as nat, 0))
}

/// The settings that a `Config` holds.
pub open spec fn settings_of(c: Config) -> Settings {
    (
        views(c.addresses@),
        match c.file {
            Some(f) => Some(f@),
            None => None,
        },
        c.workers as nat,
        c.timeout_secs as nat,
        c.retries as nat,
    )
}

/// Whether two strings hold the same characters.
pub fn same_text(a: &str, b: &str) -> (r: bool)
    ensures
        r == (a@ == b@),
{
    let n = a.unicode_len();
    if n != b.unicode_len() {
        return false;
    }
    let mut i: usize = 0;
    while i < n
        invariant
            n == a@.len(),
            n == b@.len(),
            i <= n,
            a@.subrange(0, i as int) == b@.subrange(0, i as int),
        decreases n - i,
    {
        if a.get_char(i) != b.get_char(i) {
            return false;
        }
        assert(a@.subrange(0, i + 1) =~= a@.subrange(0, i as int).push(a@[i as int]));
        assert(b@.subrange(0, i + 1) =~= b@.subrange(0, i as int).push(b@[i as int]));
        i = i + 1;
    }
    assert(a@ =~= a@.subrange(0, n as int));
    assert(b@ =~= b@.subrange(0, n as int));
    true
}

proof fn lemma_digits_value_prefix(s: Seq<char>, i: int)
    requires
        all_digits(s),
        0 <= i <= s.len(),
    ensures
        digits_value(s.subrange(0, i)) <= digits_value(s),
    decreases s.len(),
{
    if i < s.len() {
        let t = s.drop_last();
        assert(t.subrange(0, i) =~= s.subrange(0, i));
        lemma_digits_value_prefix(t, i);
    } else {
        assert(s.subrange(0, i) =~= s);
    }
}

/// Reads an unsigned decimal number (an optional `+`, then digits) that is at
/// most `max`.
#[verifier::rlimit(40)]
pub fn parse_number(s: &str, max: u64) -> (r: Option<u64>)
    ensures
        match number_in(s@, max as nat) {
            Some(v) => r == Some(v as u64),
            None => r is None,
        },
{
    let n = s.unicode_len();
    let mut start: usize = 0;
    if n > 0 && s.get_char(0) == '+' {
        start = 1;
    }
    let ghost body = if s@.len() > 0 && s@[0] == '+' { s@.drop_first() } else { s@ };
    assert(body =~= s@.subrange(start as int, n as int));
    if start >= n {
        return None;
    }
    let mut value: u64 = 0;
    let mut i: usize = start;
    assert(body.subrange(0, 0) =~= Seq::<char>::empty());
    while i < n
        invariant
            n == s@.len(),
            start <= i <= n,
            body == s@.subrange(start as int, n as int),
            body == (if s@.len() > 0 && s@[0] == '+' { s@.drop_first() } else { s@ }),
            all_digits(body.subrange(0, i - start)),
            value as nat == digits_value(body.subrange(0, i - start)),
            value <= max,
        decreases n - i,
    {
        let c = s.get_char(i);
        let code = c as u32;
        assert(body[i - start] == c);
        if code < 48 || code > 57 {
            assert(!('0' <= body[i - start] <= '9'));
            return None;
        }
        let d = (code - 48) as u64;
        let ghost next = body.subrange(0, i - start + 1);
        assert(next.drop_last() =~= body.subrange(0, i - start));
        assert(next.last() == c);
        assert(digits_value(next) == value * 10 + d);
        if d > max || value > (max - d) / 10 {
            proof {
                assert(value * 10 + d > max) by (nonlinear_arith)
                    requires
                        d > max || value > (max - d) / 10,
                        d <= 9,
                ;
                if all_digits(body) {
                    lemma_digits_value_prefix(body, i - start + 1);
                }
            }
            return None;
        }
        assert(value * 10 + d <= max) by (nonlinear_arith)
            requires
                d <= max,
                value <= (max - d) / 10,
        ;
        value = value * 10 + d;
        i = i + 1;
    }
    assert(body.subrange(0, n - start) =~= body);
    Some(value)
}

/// Whether an argument has the shape of a flag (`--` first).
pub fn looks_like_flag(a: &str) -> (r: bool)
    ensures
        r == is_flag(a@),
{
    a.unicode_len() >= 2 && a.get_char(0) == '-' && a.get_char(1) == '-'
}

/// The settings that a `Config` being built holds.
pub open spec fn settings_from(
    addresses: Seq<String>,
    file: Option<String>,
    workers: usize,
    timeout_secs: u64,
    retries: u32,
) -> Settings {
    (
        views(addresses),
        match file {
            Some(f) => Some(f@),
            None => None,
        },
        workers as nat,
        timeout_secs as nat,
        retries as nat,
    )
}

/// Reads a command line (without the program name). Flags are `--file PATH`,
/// `--workers N`, `--timeout S` and `--retries N`; any other argument that
/// starts with `--` is refused, and the others are addresses. The worker count
/// starts at `default_workers`, the timeout at five seconds and the retries at
/// zero; the run is refused when the worker count ends at zero.
pub fn parse_args(args: &Vec<String>, default_workers: usize) -> (r: Result<Config, UsageError>)
    ensures
        match parsed(views(args@), default_workers as nat) {
            Ok(st) => if st.2 == 0 {
                r == Err::<Config, UsageError>(UsageError::ZeroWorkers)
            } else {
                r is Ok && settings_of(r->Ok_0) == st
            },
            Err(e) => r == Err::<Config, UsageError>(e),
        },
{
    let ghost all = views(args@);
    let n = args.len();
    let mut addresses: Vec<String> = Vec::new();
    let mut file: Option<String> = None;
    let mut workers: usize = default_workers;
    let mut timeout_secs: u64 = DEFAULT_TIMEOUT_SECS;
    let mut retries: u32 = 0;
    let mut i: usize = 0;
    assert(views(addresses@) =~= Seq::<Seq<char>>::empty());
    while i < n
        invariant
            n == args@.len(),
            all == views(args@),
            i <= n,
            parsed(all, default_workers as nat)
                == parse_from(all, i as int, settings_from(addresses@, file, workers, timeout_secs, retries)),
        decreases n - i,
    {
        let a = args[i].as_str();
        assert(a@ == all[i as int]);
        let is_file = same_text(a, "--file");
        let is_workers = same_text(a, "--workers");
        let is_timeout = same_text(a, "--timeout");
        let is_retries = same_text(a, "--retries");
        if is_file || is_workers || is_timeout || is_retries {
            if i + 1 >= n {
                return Err(UsageError::MissingValue);
            }
            let v = args[i + 1].as_str();
            assert(v@ == all[i + 1]);
            if is_file {
                file = Some(args[i + 1].clone());
            } else if is_workers {
                match parse_number(v, usize::MAX as u64) {
                    Some(w) => workers = w as usize,
                    None => return Err(UsageError::InvalidNumber),
                }
            } else if is_timeout {
                match parse_number(v, u64::MAX) {
                    Some(t) => timeout_secs = t,
                    None => return Err(UsageError::InvalidNumber),
                }
            } else {
                match parse_number(v, u32::MAX as u64) {
                    Some(k) => retries = k as u32,
                    None => return Err(UsageError::InvalidNumber),
                }
            }
            i = i + 2;
        } else if looks_like_flag(a) {
            return Err(UsageError::UnknownFlag);
        } else {
            let ghost before = addresses@;
            addresses.push(args[i].clone());
            assert(views(addresses@) =~= views(before).push(all[i as int]));
            i = i + 1;
        }
    }
    if workers == 0 {
        return Err(UsageError::ZeroWorkers);
    }
    Ok(Config { addresses, file, workers, timeout_secs, retries })
}

/// The addresses of a run: those given on the command line, then those that
/// the lines of the address file name. A run with none is refused.
pub fn run_addresses(direct: &Vec<String>, file_lines: &Vec<String>) -> (r: Result<Vec<String>, UsageError>)
    ensures
        views(direct@) + selected(views(file_lines@)) == Seq::<Seq<char>>::empty()
            ==> r == Err::<Vec<String>, UsageError>(UsageError::NoAddresses),
        views(direct@) + selected(views(file_lines@)) != Seq::<Seq<char>>::empty() ==> {
            &&& r is Ok
            &&& views(r->Ok_0@) == views(direct@) + selected(views(file_lines@))
        },
{
    let from_file = select_addresses(file_lines);
    let mut all: Vec<String> = Vec::new();
    let n = direct.len();
    let mut i: usize = 0;
    assert(views(all@) =~= views(direct@).subrange(0, 0));
    while i < n
        invariant
            n == direct@.len(),
            i <= n,
            views(all@) == views(direct@).subrange(0, i as int),
        decreases n - i,
    {
        let ghost before = all@;
        all.push(direct[i].clone());
        assert(views(all@) =~= views(before).push(direct@[i as int]@));
        assert(views(all@) =~= views(direct@).subrange(0, i + 1));
        i = i + 1;
    }
    let m = from_file.len();
    let mut j: usize = 0;
    let rest = from_file;
    assert(views(all@) =~= views(direct@) + views(rest@).subrange(0, 0));
    while j < m
        invariant
            m == rest@.len(),
            j <= m,
            views(all@) == views(direct@) + views(rest@).subrange(0, j as int),
        decreases m - j,
    {
        let ghost before = all@;
        all.push(rest[j].clone());
        assert(views(all@) =~= views(before).push(rest@[j as int]@));
        assert(views(all@) =~= views(direct@) + views(rest@).subrange(0, j + 1));
        j = j + 1;
    }
    assert(views(rest@).subrange(0, m as int) =~= views(rest@));
    if all.len() == 0 {
        assert(views(all@) =~= Seq::<Seq<char>>::empty());
        return Err(UsageError::NoAddresses);
    }
    assert(views(all@).len() > 0);
    Ok(all)
}

} // verus!
