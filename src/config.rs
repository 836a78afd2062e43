//! Settings derived from the command line, and the supervisor's shutdown
//! decision.
use vstd::prelude::*;
use vstd::string::*;

verus! {

/// Whether `s` is the stream name `-`.
pub fn is_dash(s: &str) -> (r: bool)
    ensures
        r == (s@ == "-"@),
{
    proof {
        reveal_strlit("-");
    }
    let r = s.unicode_len() == 1 && s.get_char(0) == '-';
    proof {
        if s@.len() == 1 && s@[0] == '-' {
            assert(s@ =~= "-"@);
        }
    }
    r
}

/// An explicit count wins; verbose mode alone stops after one packet; zero
/// means no limit.
pub fn effective_max_count(verbose: bool, count: Option<u64>) -> (r: u64)
    ensures
        r == match count {
            Some(c) => c,
            None => if verbose { 1u64 } else { 0u64 },
        },
{
    match count {
        Some(c) => c,
        None => if verbose {
            1
        } else {
            0
        },
    }
}

/// The statistics stage runs when statistics or hex dumps are asked for,
/// unless quiet.
pub fn stats_enabled(quiet: bool, stats: bool, verbose: bool) -> (r: bool)
    ensures
        r == (!quiet && (stats || verbose)),
{
    !quiet && (stats || verbose)
}

/// The default log filter: debug wins over quiet, and quiet is warnings
/// only.
pub fn default_log_filter(debug: bool, quiet: bool) -> (r: &'static str)
    ensures
        r@ == if debug {
            "debug"@
        } else if quiet {
            "warn"@
        } else {
            "info"@
        },
{
    if debug {
        "debug"
    } else if quiet {
        "warn"
    } else {
        "info"
    }
}

/// How long stages may take to stop once exit is signalled.
pub const SHUTDOWN_GRACE_MS: u64 = 1000;

/// The supervisor's reading of the exit flag and its grace timer.
#[derive(Debug, Clone, Copy, PartialEq, Eq, Structural)]
pub enum GraceCheck {
    /// No exit was signalled.
    Running,
    /// Exit was just signalled: start the timer now.
    Start,
    /// The timer runs and has not expired.
    Waiting,
    /// Stages are still running a grace period after exit: give up.
    Expired,
}

pub open spec fn grace_spec(should_exit: bool, started_ms: Option<u64>, now_ms: u64) -> GraceCheck {
    if !should_exit {
        GraceCheck::Running
    } else {
        match started_ms {
            None => GraceCheck::Start,
            Some(t) => if now_ms > t && now_ms - t > SHUTDOWN_GRACE_MS {
                GraceCheck::Expired
            } else {
                GraceCheck::Waiting
            },
        }
    }
}

/// The timer starts once, when exit is first seen, and expires one second
/// later.
pub fn grace_check(should_exit: bool, started_ms: Option<u64>, now_ms: u64) -> (r: GraceCheck)
    ensures
        r == grace_spec(should_exit, started_ms, now_ms),
{
    if !should_exit {
        GraceCheck::Running
    } else {
        match started_ms {
            None => GraceCheck::Start,
            Some(t) => if now_ms > t && now_ms - t > SHUTDOWN_GRACE_MS {
                GraceCheck::Expired
            } else {
                GraceCheck::Waiting
            },
        }
    }
}

pub open spec fn is_digit(c: char) -> bool {
    '0' <= c && c <= '9'
}

/// The number of leading ASCII digits of `s`.
pub open spec fn digit_run(s: Seq<char>) -> nat
    decreases s.len(),
{
    if s.len() == 0 || !is_digit(s[0]) {
        0
    } else {
        1 + digit_run(s.drop_first())
    }
}

/// `s` is `groups` runs of one to three digits separated by dots.
pub open spec fn dotted(s: Seq<char>, groups: nat) -> bool
    decreases groups,
{
    let k = digit_run(s);
    1 <= k <= 3 && if groups <= 1 {
        k == s.len()
    } else {
        k < s.len() && s[k as int] == '.' && dotted(s.subrange(k as int + 1, s.len() as int), (groups - 1) as nat)
    }
}

/// The index of the first `:` of `s`, or its length when there is none.
pub open spec fn colon_pos(s: Seq<char>) -> nat
    decreases s.len(),
{
    if s.len() == 0 || s[0] == ':' {
        0
    } else {
        1 + colon_pos(s.drop_first())
    }
}

/// `[iface:]a.b.c.d`: the interface name, when given, and the group.
pub open spec fn mgroup_spec(s: Seq<char>) -> Option<(Option<Seq<char>>, Seq<char>)> {
    let k = colon_pos(s) as int;
    if k == s.len() {
        if dotted(s, 4) { Some((None, s)) } else { None }
    } else {
        let rest = s.subrange(k + 1, s.len() as int);
        if k >= 1 && dotted(rest, 4) { Some((Some(s.subrange(0, k)), rest)) } else { None }
    }
}

pub open spec fn mgroup_error(s: Seq<char>) -> Seq<char> {
    "Expected [eth:]mgroup, got: "@ + s
}

pub open spec fn opt_view(o: Option<String>) -> Option<Seq<char>> {
    match o {
        Some(x) => Some(x@),
        None => None,
    }
}

proof fn lemma_digit_run(s: Seq<char>, j: int)
    requires
        0 <= j <= s.len(),
        forall|i: int| 0 <= i < j ==> is_digit(s[i]),
        j == s.len() || !is_digit(s[j]),
    ensures
        digit_run(s) == j,
    decreases j,
{
    if j > 0 {
        let t = s.drop_first();
        assert forall|i: int| 0 <= i < j - 1 implies is_digit(t[i]) by {
            assert(t[i] == s[i + 1]);
        }
        lemma_digit_run(t, j - 1);
    }
}

proof fn lemma_colon_pos(s: Seq<char>, j: int)
    requires
        0 <= j <= s.len(),
        forall|i: int| 0 <= i < j ==> s[i] != ':',
        j == s.len() || s[j] == ':',
    ensures
        colon_pos(s) == j,
    decreases j,
{
    if j > 0 {
        let t = s.drop_first();
        assert forall|i: int| 0 <= i < j - 1 implies t[i] != ':' by {
            assert(t[i] == s[i + 1]);
        }
        lemma_colon_pos(t, j - 1);
    }
}

fn digit_run_from(s: &str, n: usize, start: usize) -> (r: usize)
    requires
        n == s@.len(),
        start <= n,
    ensures
        r == start + digit_run(s@.subrange(start as int, n as int)),
        start <= r <= n,
{
    let mut j = start;
    while j < n && '0' <= s.get_char(j) && s.get_char(j) <= '9'
        invariant
            n == s@.len(),
            start <= j <= n,
            forall|i: int| start <= i < j ==> is_digit(s@[i]),
        decreases n - j,
    {
        j = j + 1;
    }
    proof {
        lemma_digit_run(s@.subrange(start as int, n as int), j - start);
    }
    j
}

fn dotted_from(s: &str, n: usize, start: usize, groups: u64) -> (r: bool)
    requires
        n == s@.len(),
        start <= n,
    ensures
        r == dotted(s@.subrange(start as int, n as int), groups as nat),
    decreases groups,
{
    let ghost t = s@.subrange(start as int, n as int);
    let end = digit_run_from(s, n, start);
    let k = end - start;
    if !(1 <= k && k <= 3) {
        return false;
    }
    if groups <= 1 {
        return end == n;
    }
    if !(end < n && s.get_char(end) == '.') {
        return false;
    }
    assert(t.subrange(k + 1, t.len() as int) =~= s@.subrange(end + 1, n as int));
    dotted_from(s, n, end + 1, groups - 1)
}

/// Splits `[iface:]mgroup`, where `mgroup` is a dotted quad of one- to
/// three-digit numbers and `iface` a nonempty name without `:`.
pub fn parse_mgroup(s: &str) -> (r: Result<(Option<String>, String), String>)
    ensures
        mgroup_spec(s@) is Some <==> r is Ok,
        r is Ok ==> opt_view(r->Ok_0.0) == mgroup_spec(s@)->Some_0.0 && r->Ok_0.1@
            == mgroup_spec(s@)->Some_0.1,
        r is Err ==> r->Err_0@ == mgroup_error(s@),
{
    proof {
        reveal_strlit("Expected [eth:]mgroup, got: ");
    }
    let n = s.unicode_len();
    let mut k: usize = 0;
    while k < n && s.get_char(k) != ':'
        invariant
            n == s@.len(),
            k <= n,
            forall|i: int| 0 <= i < k ==> s@[i] != ':',
        decreases n - k,
    {
        k = k + 1;
    }
    proof {
        lemma_colon_pos(s@, k as int);
        assert(s@.subrange(0, n as int) =~= s@);
    }
    if k == n {
        if dotted_from(s, n, 0, 4) {
            return Ok((None, String::from_str(s)));
        }
    } else if k >= 1 && dotted_from(s, n, k + 1, 4) {
        let iface = String::from_str(s.substring_char(0, k));
        let group = String::from_str(s.substring_char(k + 1, n));
        return Ok((Some(iface), group));
    }
    let mut e = String::from_str("Expected [eth:]mgroup, got: ");
    e.append(s);
    Err(e)
}

/// Entry `i` names interface `name` and has an IPv4 address.
pub open spec fn has_addr(entries: Seq<(String, Option<u32>)>, name: Seq<char>, i: int) -> bool {
    entries[i].0@ == name && entries[i].1 is Some
}

/// The IPv4 address (as a host-order `u32`) of the first entry of an
/// interface list that is named `name` and has one.
pub fn find_interface_addr(entries: &Vec<(String, Option<u32>)>, name: &str) -> (r: Option<u32>)
    ensures
        r is Some ==> exists|i: int|
            0 <= i < entries@.len() && #[trigger] has_addr(entries@, name@, i) && entries@[i].1
                == r && forall|j: int| 0 <= j < i ==> !has_addr(entries@, name@, j),
        r is None ==> forall|i: int| 0 <= i < entries@.len() ==> !has_addr(entries@, name@, i),
{
    let wanted = String::from_str(name);
    let mut i: usize = 0;
    while i < entries.len()
        invariant
            i <= entries@.len(),
            wanted@ == name@,
            forall|j: int| 0 <= j < i ==> !has_addr(entries@, name@, j),
        decreases entries@.len() - i,
    {
        let (n, a) = &entries[i];
        if *n == wanted {
            if let Some(addr) = a {
                assert(has_addr(entries@, name@, i as int));
                return Some(*addr);
            }
        }
        i = i + 1;
    }
    None
}

} // verus!
