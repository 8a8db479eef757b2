//! The decisions of the fuzzing campaigns: which campaign and runtime to
//! fuzz, how command lines are read, when a crash is believed, benchmark
//! statistics, and the OCI config a runc bundle starts from.

use vstd::prelude::*;
use vstd::string::StrSliceExecFns;

use crate::text::{decimal, decimal_string};
use crate::delta::FsDelta;
use crate::text::{owned, str_eq};

verus! {

// ── Campaigns ───────────────────────────────────────────────────────────────

/// The library that the in-process campaign drives.
#[derive(Clone, Copy, Debug, PartialEq, Eq, Structural)]
pub enum Campaign {
    Foobar,
    Libarchive,
    Runc,
}

impl Campaign {
    pub open spec fn of_arg(s: Seq<char>) -> Campaign {
        if s == "libarchive"@ {
            Campaign::Libarchive
        } else if s == "runc"@ {
            Campaign::Runc
        } else {
            Campaign::Foobar
        }
    }

    pub open spec fn name_of(self) -> Seq<char> {
        match self {
            Campaign::Foobar => "foobar"@,
            Campaign::Libarchive => "libarchive"@,
            Campaign::Runc => "runc"@,
        }
    }

    /// `libarchive` and `runc` name their campaigns; anything else is foobar.
    pub fn from_arg(s: &str) -> (c: Campaign)
        ensures
            c == Campaign::of_arg(s@),
    {
        if str_eq(s, "libarchive") {
            Campaign::Libarchive
        } else if str_eq(s, "runc") {
            Campaign::Runc
        } else {
            Campaign::Foobar
        }
    }

    pub fn name(self) -> (n: &'static str)
        ensures
            n@ == self.name_of(),
    {
        match self {
            Campaign::Foobar => "foobar",
            Campaign::Libarchive => "libarchive",
            Campaign::Runc => "runc",
        }
    }
}

// ── Container runtimes ──────────────────────────────────────────────────────

/// The OCI runtime under test.
#[derive(Clone, Copy, Debug, PartialEq, Eq, Structural)]
pub enum Target {
    Runc,
    Crun,
}

impl Target {
    pub open spec fn named(s: Seq<char>) -> Option<Target> {
        if s == "runc"@ {
            Some(Target::Runc)
        } else if s == "crun"@ {
            Some(Target::Crun)
        } else {
            None
        }
    }

    pub open spec fn name_of(self) -> Seq<char> {
        match self {
            Target::Runc => "runc"@,
            Target::Crun => "crun"@,
        }
    }

    pub open spec fn binary_of(self) -> Seq<char> {
        match self {
            Target::Runc => "/usr/bin/runc"@,
            Target::Crun => "/usr/bin/crun"@,
        }
    }

    /// crun when a crun binary is installed (`/usr/bin/crun` or
    /// `/usr/local/bin/crun`, which the caller checks), runc otherwise.
    pub fn detect(crun_installed: bool) -> (t: Target)
        ensures
            t == if crun_installed {
                Target::Crun
            } else {
                Target::Runc
            },
    {
        if crun_installed {
            Target::Crun
        } else {
            Target::Runc
        }
    }

    pub fn from_str(s: &str) -> (t: Option<Target>)
        ensures
            t == Target::named(s@),
    {
        if str_eq(s, "runc") {
            Some(Target::Runc)
        } else if str_eq(s, "crun") {
            Some(Target::Crun)
        } else {
            None
        }
    }

    pub fn binary(self) -> (b: &'static str)
        ensures
            b@ == self.binary_of(),
    {
        match self {
            Target::Runc => "/usr/bin/runc",
            Target::Crun => "/usr/bin/crun",
        }
    }

    pub fn name(self) -> (n: &'static str)
        ensures
            n@ == self.name_of(),
    {
        match self {
            Target::Runc => "runc",
            Target::Crun => "crun",
        }
    }
}

// ── Command lines ───────────────────────────────────────────────────────────

pub open spec fn is_digit(c: char) -> bool {
    '0' <= c <= '9'
}

pub open spec fn all_digits(s: Seq<char>) -> bool {
    forall|i: int| 0 <= i < s.len() ==> is_digit(#[trigger] s[i])
}

/// The number that a string of decimal digits denotes.
pub open spec fn digits_value(s: Seq<char>) -> int
    decreases s.len(),
{
    if s.len() == 0 {
        0
    } else {
        digits_value(s.drop_last()) * 10 + (s.last() as int - '0' as int)
    }
}

/// What std's `u64::from_str` gives: an optional `+` followed by at least one
/// decimal digit and nothing else, denoting a number that fits in a `u64`.
pub open spec fn u64_text(s: Seq<char>) -> Option<u64> {
    let d = if s.len() > 0 && s[0] == '+' {
        s.drop_first()
    } else {
        s
    };
    if d.len() > 0 && all_digits(d) && digits_value(d) <= u64::MAX {
        Some(digits_value(d) as u64)
    } else {
        None
    }
}

proof fn lemma_digits_nonneg(t: Seq<char>)
    requires
        all_digits(t),
    ensures
        digits_value(t) >= 0,
    decreases t.len(),
{
    if t.len() > 0 {
        lemma_digits_nonneg(t.drop_last());
    }
}

/// A prefix of a digit string denotes no more than the whole string.
proof fn lemma_digits_prefix(t: Seq<char>, k: int)
    requires
        all_digits(t),
        0 <= k <= t.len(),
    ensures
        digits_value(t.subrange(0, k)) <= digits_value(t),
    decreases t.len(),
{
    if k == t.len() {
        assert(t.subrange(0, k) =~= t);
    } else {
        lemma_digits_prefix(t.drop_last(), k);
        assert(t.drop_last().subrange(0, k) =~= t.subrange(0, k));
        lemma_digits_nonneg(t.drop_last());
    }
}

/// Reads a decimal `u64` as `str::parse::<u64>` does: an optional `+`, then
/// at least one digit and nothing else, with a value that fits.
fn parse_u64(s: &str) -> (r: Option<u64>)
    ensures
        r == u64_text(s@),
{
    let n = s.unicode_len();
    let start: usize = if n > 0 && s.get_char(0) == '+' {
        1
    } else {
        0
    };
    let ghost d = s@.subrange(start as int, n as int);
    assert(d =~= (if s@.len() > 0 && s@[0] == '+' {
        s@.drop_first()
    } else {
        s@
    }));
    if start >= n {
        return None;
    }
    let mut v: u64 = 0;
    let mut i: usize = start;
    while i < n
        invariant
            start <= i <= n,
            n == s@.len(),
            d == s@.subrange(start as int, n as int),
            d == (if s@.len() > 0 && s@[0] == '+' {
                s@.drop_first()
            } else {
                s@
            }),
            all_digits(s@.subrange(start as int, i as int)),
            v == digits_value(s@.subrange(start as int, i as int)),
        decreases n - i,
    {
        let c = s.get_char(i);
        if !('0' <= c && c <= '9') {
            assert(d[i - start] == c);
            return None;
        }
        let dig: u64 = (c as u32 - '0' as u32) as u64;
        let ghost p = s@.subrange(start as int, i + 1);
        assert(p.drop_last() =~= s@.subrange(start as int, i as int));
        assert(all_digits(p));
        let next = match v.checked_mul(10) {
            Some(m) => m.checked_add(dig),
            None => None,
        };
        match next {
            Some(w) => {
                v = w;
            },
            None => {
                proof {
                    lemma_digits_nonneg(s@.subrange(start as int, i as int));
                    if all_digits(d) {
                        assert(d.subrange(0, i + 1 - start) =~= p);
                        lemma_digits_prefix(d, i + 1 - start);
                    }
                }
                return None;
            },
        }
        i += 1;
    }
    assert(s@.subrange(start as int, i as int) =~= d);
    Some(v)
}

/// The options of the runc / crun campaign.
#[derive(Debug)]
pub struct Args {
    pub target: Target,
    pub dry_run: Option<u64>,
}

/// Reads the options from `argv[i..]`, given what was read before `i`:
/// `--target NAME` picks the runtime (an unknown or missing name is an error
/// carrying that name), `--dry-run [N]` asks for N iterations (20 when no
/// number follows), anything else is ignored.
pub open spec fn options_from(
    argv: Seq<Seq<char>>,
    i: int,
    target: Option<Target>,
    dry_run: Option<u64>,
) -> Result<(Option<Target>, Option<u64>), Seq<char>>
    decreases argv.len() - i,
{
    if i < 0 || i >= argv.len() {
        Ok((target, dry_run))
    } else if argv[i] == "--target"@ {
        if i + 1 < argv.len() {
            match Target::named(argv[i + 1]) {
                Some(t) => options_from(argv, i + 2, Some(t), dry_run),
                None => Err(argv[i + 1]),
            }
        } else {
            Err(Seq::empty())
        }
    } else if argv[i] == "--dry-run"@ {
        let n = if i + 1 < argv.len() {
            u64_text(argv[i + 1])
        } else {
            None
        };
        match n {
            Some(v) => options_from(argv, i + 2, target, Some(v)),
            None => options_from(argv, i + 1, target, Some(20)),
        }
    } else {
        options_from(argv, i + 1, target, dry_run)
    }
}

impl Args {
    /// Reads the options that follow the program name in `argv`; without
    /// `--target` the runtime is detected (see [`Target::detect`]). An
    /// unknown or missing target name is returned as the error.
    pub fn parse(argv: &Vec<String>, crun_installed: bool) -> (r: Result<Args, String>)
        ensures
            match options_from(crate::text::strings_view(argv@), 1, None, None) {
                Ok((t, d)) => r matches Ok(a) && a.dry_run == d && a.target == match t {
                    Some(t) => t,
                    None => Target::detect_spec(crun_installed),
                },
                Err(name) => r matches Err(e) && e@ == name,
            },
    {
        let ghost av = crate::text::strings_view(argv@);
        let mut target: Option<Target> = None;
        let mut dry_run: Option<u64> = None;
        let mut i: usize = 1;
        while i < argv.len()
            invariant
                av == crate::text::strings_view(argv@),
                1 <= i,
                options_from(av, i as int, target, dry_run) == options_from(av, 1, None, None),
            decreases argv.len() - i,
        {
            let arg = argv[i].as_str();
            assert(arg@ == av[i as int]);
            if str_eq(arg, "--target") {
                if i + 1 < argv.len() {
                    assert(argv[i + 1 as usize]@ == av[i + 1]);
                    match Target::from_str(argv[i + 1].as_str()) {
                        Some(t) => {
                            target = Some(t);
                        },
                        None => {
                            return Err(argv[i + 1].clone());
                        },
                    }
                    i = i + 2;
                } else {
                    return Err(String::new());
                }
            } else if str_eq(arg, "--dry-run") {
                let n = if i + 1 < argv.len() {
                    assert(argv[i + 1 as usize]@ == av[i + 1]);
                    parse_u64(argv[i + 1].as_str())
                } else {
                    None
                };
                match n {
                    Some(v) => {
                        dry_run = Some(v);
                        i = i + 2;
                    },
                    None => {
                        dry_run = Some(20);
                        i = i + 1;
                    },
                }
            } else {
                i = i + 1;
            }
        }
        let target = match target {
            Some(t) => t,
            None => Target::detect(crun_installed),
        };
        Ok(Args { target, dry_run })
    }
}

/// A campaign's or runtime's name reads back as itself, and a runtime's
/// binary is its name under `/usr/bin`.
pub proof fn lemma_names_round_trip(c: Campaign, t: Target)
    ensures
        Campaign::of_arg(c.name_of()) == c,
        Target::named(t.name_of()) == Some(t),
        t.binary_of() == "/usr/bin/"@ + t.name_of(),
        Target::named("runc"@) == Some(Target::Runc),
        Target::named("crun"@) == Some(Target::Crun),
{
    reveal_strlit("runc");
    reveal_strlit("crun");
    reveal_strlit("libarchive");
    reveal_strlit("foobar");
    reveal_strlit("/usr/bin/");
    reveal_strlit("/usr/bin/runc");
    reveal_strlit("/usr/bin/crun");
    assert("runc"@.len() != "libarchive"@.len());
    assert("foobar"@.len() != "libarchive"@.len());
    assert("foobar"@.len() != "runc"@.len());
    assert("crun"@[0] != "runc"@[0]);
    assert("crun"@ != "runc"@);
    assert("foobar"@ != "runc"@);
    assert("foobar"@ != "libarchive"@);
    assert("runc"@ != "libarchive"@);
    assert("/usr/bin/runc"@ =~= "/usr/bin/"@ + "runc"@);
    assert("/usr/bin/crun"@ =~= "/usr/bin/"@ + "crun"@);
}

/// Reading options: `--target NAME` sets the runtime NAME names and an
/// unknown or missing name is the error; `--dry-run N` sets N iterations and
/// `--dry-run` without a number sets 20; anything else is skipped.
pub proof fn lemma_options_law(argv: Seq<Seq<char>>, i: int, t: Option<Target>, d: Option<u64>)
    requires
        0 <= i < argv.len(),
    ensures
        argv[i] == "--target"@ && i + 1 < argv.len() && Target::named(argv[i + 1]) is Some
            ==> options_from(argv, i, t, d) == options_from(argv, i + 2, Target::named(argv[i + 1]), d),
        argv[i] == "--target"@ && i + 1 < argv.len() && Target::named(argv[i + 1]) is None
            ==> options_from(argv, i, t, d) == Err::<(Option<Target>, Option<u64>), Seq<char>>(argv[i + 1]),
        argv[i] == "--target"@ && i + 1 == argv.len() ==> options_from(argv, i, t, d) == Err::<
            (Option<Target>, Option<u64>),
            Seq<char>,
        >(Seq::empty()),
        argv[i] == "--dry-run"@ && i + 1 < argv.len() && u64_text(argv[i + 1]) is Some
            ==> options_from(argv, i, t, d) == options_from(argv, i + 2, t, u64_text(argv[i + 1])),
        argv[i] == "--dry-run"@ && (i + 1 == argv.len() || u64_text(argv[i + 1]) is None)
            ==> options_from(argv, i, t, d) == options_from(argv, i + 1, t, Some(20u64)),
        argv[i] != "--target"@ && argv[i] != "--dry-run"@ ==> options_from(argv, i, t, d)
            == options_from(argv, i + 1, t, d),
{
    reveal_strlit("--target");
    reveal_strlit("--dry-run");
    assert("--target"@.len() != "--dry-run"@.len());
}

/// A decimal number reads as its value: digits alone, or after one `+`.
pub proof fn lemma_u64_text_law(s: Seq<char>)
    requires
        s.len() > 0,
        all_digits(s),
        digits_value(s) <= u64::MAX,
    ensures
        u64_text(s) == Some(digits_value(s) as u64),
        u64_text(seq!['+'] + s) == Some(digits_value(s) as u64),
        u64_text(seq!['+']) is None,
        u64_text(seq!['-'] + s) is None,
{
    assert(s[0] != '+');
    assert((seq!['+'] + s).drop_first() =~= s);
    assert(seq!['+'].drop_first() =~= Seq::<char>::empty());
    assert(!is_digit((seq!['-'] + s)[0]));
}

impl Target {
    pub open spec fn detect_spec(crun_installed: bool) -> Target {
        if crun_installed {
            Target::Crun
        } else {
            Target::Runc
        }
    }
}

// ── Benchmark statistics ────────────────────────────────────────────────────

/// The largest duration std can hold (`Duration::MAX`), in nanoseconds.
pub const DURATION_MAX_NS: u128 = 18446744073709551615999999999u128;

/// Timing statistics over a run of measurements, in nanoseconds.
#[derive(Debug)]
pub struct Stats {
    pub n: usize,
    pub total_ns: u128,
    pub min_ns: u128,
    pub max_ns: u128,
}

impl Stats {
    /// No measurement yet: the minimum starts at the largest duration.
    pub fn new() -> (st: Stats)
        ensures
            st.n == 0,
            st.total_ns == 0,
            st.min_ns == DURATION_MAX_NS,
            st.max_ns == 0,
    {
        Stats { n: 0, total_ns: 0, min_ns: DURATION_MAX_NS, max_ns: 0 }
    }

    /// Adds one measurement of `d_ns` nanoseconds. The total is a duration,
    /// which must stay within the largest duration.
    pub fn record(&mut self, d_ns: u128)
        requires
            old(self).n < usize::MAX,
            old(self).total_ns + d_ns <= DURATION_MAX_NS,
        ensures
            final(self).n == old(self).n + 1,
            final(self).total_ns == old(self).total_ns + d_ns,
            final(self).min_ns == if d_ns < old(self).min_ns {
                d_ns
            } else {
                old(self).min_ns
            },
            final(self).max_ns == if d_ns > old(self).max_ns {
                d_ns
            } else {
                old(self).max_ns
            },
    {
        self.n = self.n + 1;
        self.total_ns = self.total_ns + d_ns;
        if d_ns < self.min_ns {
            self.min_ns = d_ns;
        }
        if d_ns > self.max_ns {
            self.max_ns = d_ns;
        }
    }

    /// The mean duration, rounded down; 0 before any measurement.
    pub fn mean_ns(&self) -> (m: u128)
        ensures
            m == if self.n == 0 {
                0
            } else {
                self.total_ns / (self.n as u128)
            },
    {
        if self.n == 0 {
            0
        } else {
            self.total_ns / (self.n as u128)
        }
    }
}

// ── Crash calibration ───────────────────────────────────────────────────────

/// A process rlimit of an OCI config: its `type`, `hard` and `soft` fields,
/// each absent when missing or not of the expected JSON type.
#[derive(Debug)]
pub struct RlimitEntry {
    pub kind: Option<String>,
    pub hard: Option<i64>,
    pub soft: Option<i64>,
}

/// What an OCI config asks for that can end the container with a signal:
/// its `process.rlimits` array (absent when missing or not an array) and its
/// `linux.seccomp.defaultAction` string.
#[derive(Debug)]
pub struct KillConfig {
    pub rlimits: Option<Vec<RlimitEntry>>,
    pub seccomp_default_action: Option<String>,
}

/// The platform's numbers of the signals that resource limits and seccomp
/// deliver: SIGKILL, SIGXCPU, SIGXFSZ and SIGSYS.
#[derive(Clone, Copy, Debug)]
pub struct SignalNumbers {
    pub kill: i32,
    pub xcpu: i32,
    pub xfsz: i32,
    pub sys: i32,
}

pub open spec fn opt_text(o: Option<String>) -> Option<Seq<char>> {
    match o {
        Some(s) => Some(s@),
        None => None,
    }
}

/// A limit of at most 2, which the target exceeds almost at once (-1,
/// unlimited, does not count).
pub open spec fn near_zero(n: Option<i64>) -> bool {
    n matches Some(v) && 0 <= v <= 2
}

pub open spec fn rlimit_seq(o: Option<Vec<RlimitEntry>>) -> Option<Seq<RlimitEntry>> {
    match o {
        Some(v) => Some(v@),
        None => None,
    }
}

/// The rlimit has type `kind` and its hard or soft limit near zero.
pub open spec fn limits_near_zero(rl: RlimitEntry, kind: Seq<char>) -> bool {
    opt_text(rl.kind) == Some(kind) && (near_zero(rl.hard) || near_zero(rl.soft))
}

/// Some rlimit of type `kind` sets its hard or soft limit near zero.
pub open spec fn rlimit_near_zero(rlimits: Option<Seq<RlimitEntry>>, kind: Seq<char>) -> bool {
    match rlimits {
        Some(rls) => any_near_zero(rls, kind),
        None => false,
    }
}

pub open spec fn any_near_zero(rls: Seq<RlimitEntry>, kind: Seq<char>) -> bool {
    exists|i: int| 0 <= i < rls.len() && limits_near_zero(#[trigger] rls[i], kind)
}

pub open spec fn seccomp_kills(action: Option<Seq<char>>) -> bool {
    action == Some("SCMP_ACT_KILL"@) || action == Some("SCMP_ACT_KILL_PROCESS"@) || action
        == Some("SCMP_ACT_KILL_THREAD"@)
}

/// The config itself asked for the kill by `sig`: a near-zero CPU limit for
/// SIGKILL or SIGXCPU, a near-zero file-size limit for SIGXFSZ, a killing
/// seccomp default action for SIGSYS.
pub open spec fn requested_kill(cfg: KillConfig, sig: i32, sigs: SignalNumbers) -> bool {
    let rls = rlimit_seq(cfg.rlimits);
    if sig == sigs.kill || sig == sigs.xcpu {
        rlimit_near_zero(rls, "RLIMIT_CPU"@)
    } else if sig == sigs.xfsz {
        rlimit_near_zero(rls, "RLIMIT_FSIZE"@)
    } else if sig == sigs.sys {
        seccomp_kills(opt_text(cfg.seccomp_default_action))
    } else {
        false
    }
}

fn limit_near_zero(n: Option<i64>) -> (b: bool)
    ensures
        b == near_zero(n),
{
    match n {
        Some(v) => 0 <= v && v <= 2,
        None => false,
    }
}

fn has_near_zero_rlimit(rlimits: &Option<Vec<RlimitEntry>>, kind: &str) -> (b: bool)
    ensures
        b == rlimit_near_zero(rlimit_seq(*rlimits), kind@),
{
    match rlimits {
        None => false,
        Some(rls) => {
            let ghost s = rls@;
            assert(rlimit_seq(*rlimits) == Some(s));
            let mut i: usize = 0;
            while i < rls.len()
                invariant
                    s == rls@,
                    i <= rls@.len(),
                    rlimit_seq(*rlimits) == Some(s),
                    forall|j: int| 0 <= j < i ==> !limits_near_zero(#[trigger] s[j], kind@),
                decreases rls.len() - i,
            {
                let rl = &rls[i];
                let same = match &rl.kind {
                    Some(k) => str_eq(k.as_str(), kind),
                    None => false,
                };
                if same && (limit_near_zero(rl.hard) || limit_near_zero(rl.soft)) {
                    assert(*rl == s[i as int]);
                    assert(limits_near_zero(s[i as int], kind@));
                    return true;
                }
                i += 1;
            }
            false
        },
    }
}

/// Whether the config asked for the kill by `sig` (see [`requested_kill`]).
pub fn config_requested_kill(cfg: &KillConfig, sig: i32, sigs: SignalNumbers) -> (b: bool)
    ensures
        b == requested_kill(*cfg, sig, sigs),
{
    if sig == sigs.kill || sig == sigs.xcpu {
        has_near_zero_rlimit(&cfg.rlimits, "RLIMIT_CPU")
    } else if sig == sigs.xfsz {
        has_near_zero_rlimit(&cfg.rlimits, "RLIMIT_FSIZE")
    } else if sig == sigs.sys {
        match &cfg.seccomp_default_action {
            Some(a) => str_eq(a.as_str(), "SCMP_ACT_KILL") || str_eq(a.as_str(), "SCMP_ACT_KILL_PROCESS")
                || str_eq(a.as_str(), "SCMP_ACT_KILL_THREAD"),
            None => false,
        }
    } else {
        false
    }
}

/// A config asks for a kill by SIGKILL or SIGXCPU exactly when one of its
/// rlimits of type RLIMIT_CPU has a hard or soft limit from 0 to 2; by SIGXFSZ
/// exactly when one of type RLIMIT_FSIZE does; by SIGSYS exactly when its
/// seccomp default action kills (KILL, KILL_PROCESS or KILL_THREAD); and by
/// no other signal.
pub proof fn lemma_requested_kill_law(cfg: KillConfig, sig: i32, sigs: SignalNumbers)
    requires
        sigs.kill != sigs.xfsz && sigs.kill != sigs.sys && sigs.xcpu != sigs.xfsz && sigs.xcpu
            != sigs.sys && sigs.xfsz != sigs.sys,
    ensures
        (sig == sigs.kill || sig == sigs.xcpu) ==> (requested_kill(cfg, sig, sigs) <==> (
        cfg.rlimits matches Some(v) && exists|i: int|
            0 <= i < v@.len() && opt_text(#[trigger] v@[i].kind) == Some("RLIMIT_CPU"@) && ((
            v@[i].hard matches Some(h) && 0 <= h <= 2) || (v@[i].soft matches Some(s) && 0 <= s
            <= 2)))),
        sig == sigs.xfsz ==> (requested_kill(cfg, sig, sigs) <==> (cfg.rlimits matches Some(v)
            && exists|i: int|
            0 <= i < v@.len() && opt_text(#[trigger] v@[i].kind) == Some("RLIMIT_FSIZE"@) && ((
            v@[i].hard matches Some(h) && 0 <= h <= 2) || (v@[i].soft matches Some(s) && 0 <= s
            <= 2)))),
        sig == sigs.sys ==> (requested_kill(cfg, sig, sigs) <==> (cfg.seccomp_default_action matches Some(
            a,
        ) && (a@ == "SCMP_ACT_KILL"@ || a@ == "SCMP_ACT_KILL_PROCESS"@ || a@
            == "SCMP_ACT_KILL_THREAD"@))),
        sig != sigs.kill && sig != sigs.xcpu && sig != sigs.xfsz && sig != sigs.sys
            ==> !requested_kill(cfg, sig, sigs),
{
    if let Some(v) = cfg.rlimits {
        assert(rlimit_seq(cfg.rlimits) == Some(v@));
        if (sig == sigs.kill || sig == sigs.xcpu) && requested_kill(cfg, sig, sigs) {
            let i = choose|i: int| 0 <= i < v@.len() && limits_near_zero(#[trigger] v@[i], "RLIMIT_CPU"@);
            assert(opt_text(v@[i].kind) == Some("RLIMIT_CPU"@));
        }
        if sig == sigs.xfsz && requested_kill(cfg, sig, sigs) {
            let i = choose|i: int| 0 <= i < v@.len() && limits_near_zero(#[trigger] v@[i], "RLIMIT_FSIZE"@);
            assert(opt_text(v@[i].kind) == Some("RLIMIT_FSIZE"@));
        }
    }
}

/// The threshold of reproducing runs lies between 1 and the number of runs,
/// and is the one asked for when it already does.
pub proof fn lemma_clamped_law(t: usize, total: int)
    requires
        total >= 1,
    ensures
        1 <= clamped(t, total) <= total,
        1 <= t <= total ==> clamped(t, total) == t,
        t < 1 ==> clamped(t, total) == 1,
        t > total ==> clamped(t, total) == total,
{
}

/// What to do after the first run of an input.
#[derive(Clone, Copy, Debug, PartialEq, Eq, Structural)]
pub enum FirstRun {
    /// Not a crash: report the run as it was.
    Pass,
    /// A kill the config asked for: report no crash, without reruns.
    Drop,
    /// A real crash: run the input again to see whether it reproduces.
    Rerun,
}

/// Re-runs each crash and forwards it only when it reproduces in at least
/// `threshold` of the `reruns + 1` runs; a kill that the config asked for is
/// dropped at once.
#[derive(Debug)]
pub struct CalibratedExecutor<E> {
    pub inner: E,
    pub reruns: usize,
    pub threshold: usize,
    /// Where the current input's rendered config is, read again on a crash.
    pub config_path: String,
}

/// `t` clamped into `1 ..= total`.
pub open spec fn clamped(t: usize, total: int) -> int {
    if t < 1 {
        1
    } else if t > total {
        total
    } else {
        t as int
    }
}

/// A crash counts unless its signal is one that limits or seccomp deliver
/// and the config asked for it; `config` is absent when it could not be read.
pub open spec fn real_crash(
    crashed: bool,
    signal: Option<i32>,
    config: Option<KillConfig>,
    sigs: SignalNumbers,
) -> bool {
    crashed && match signal {
        Some(s) => if s == sigs.kill || s == sigs.xcpu || s == sigs.xfsz || s == sigs.sys {
            match config {
                Some(cfg) => !requested_kill(cfg, s, sigs),
                None => true,
            }
        } else {
            true
        },
        None => true,
    }
}

impl<E> CalibratedExecutor<E> {
    /// `threshold` is clamped into `1 ..= reruns + 1`.
    pub fn new(inner: E, reruns: usize, threshold: usize, config_path: String) -> (ex: Self)
        requires
            reruns < usize::MAX,
        ensures
            ex.inner == inner,
            ex.reruns == reruns,
            ex.threshold == clamped(threshold, reruns + 1),
            ex.config_path@ == config_path@,
    {
        let total = reruns + 1;
        let t = if threshold < 1 {
            1
        } else if threshold > total {
            total
        } else {
            threshold
        };
        CalibratedExecutor { inner, reruns, threshold: t, config_path }
    }

    /// Whether a run that ended as `crashed`, by `signal` when a signal ended
    /// it, is a crash to count (see [`real_crash`]).
    pub fn is_real_crash(
        &self,
        crashed: bool,
        signal: Option<i32>,
        config: Option<&KillConfig>,
        sigs: SignalNumbers,
    ) -> (b: bool)
        ensures
            b == real_crash(
                crashed,
                signal,
                match config {
                    Some(c) => Some(*c),
                    None => None,
                },
                sigs,
            ),
    {
        if !crashed {
            return false;
        }
        match signal {
            Some(s) => {
                if s == sigs.kill || s == sigs.xcpu || s == sigs.xfsz || s == sigs.sys {
                    match config {
                        Some(cfg) => !config_requested_kill(cfg, s, sigs),
                        None => true,
                    }
                } else {
                    true
                }
            },
            None => true,
        }
    }

    /// The step after the first run: pass a run that did not crash, drop a
    /// crash that is not real, rerun a real one.
    pub fn after_first_run(&self, crashed: bool, counts: bool) -> (step: FirstRun)
        ensures
            step == if !crashed {
                FirstRun::Pass
            } else if !counts {
                FirstRun::Drop
            } else {
                FirstRun::Rerun
            },
    {
        if !crashed {
            FirstRun::Pass
        } else if !counts {
            FirstRun::Drop
        } else {
            FirstRun::Rerun
        }
    }

    /// The tally after one more rerun: `real_reruns` grows by one when that
    /// rerun was a crash to count.
    pub fn count_rerun(&self, real_reruns: usize, counts: bool) -> (r: usize)
        requires
            real_reruns < self.reruns,
        ensures
            r == real_reruns + if counts {
                1int
            } else {
                0int
            },
            r <= self.reruns,
    {
        if counts {
            real_reruns + 1
        } else {
            real_reruns
        }
    }

    /// After the reruns: the crash is confirmed when the first run and the
    /// `real_reruns` reruns that crashed for real reach the threshold.
    pub fn confirmed(&self, real_reruns: usize) -> (b: bool)
        requires
            real_reruns <= self.reruns,
            self.reruns < usize::MAX,
        ensures
            b == (real_reruns + 1 >= self.threshold),
    {
        real_reruns + 1 >= self.threshold
    }
}

// ── Mutator adapters ────────────────────────────────────────────────────────

/// The length of a combined config-and-rootfs input, as the minimizing
/// scheduler reads it: the rootfs delta's op count plus the size of the
/// config's grammar tree, saturating at `usize::MAX`.
pub fn combined_len(rootfs: &FsDelta, tree_size: usize) -> (n: usize)
    ensures
        n == if rootfs@.len() + tree_size > usize::MAX {
            usize::MAX as int
        } else {
            rootfs@.len() + tree_size
        },
{
    rootfs.len().saturating_add(tree_size)
}

/// A mutator of the config half of a combined input, named after the inner
/// mutator as `Config(<inner>)`.
#[derive(Debug)]
pub struct ConfigMutator<M> {
    pub inner: M,
    pub name: String,
}

impl<M> ConfigMutator<M> {
    pub fn new(inner: M, inner_name: &str) -> (m: Self)
        ensures
            m.inner == inner,
            m.name@ == "Config("@ + inner_name@ + ")"@,
    {
        let mut name = owned("Config(");
        name.append(inner_name);
        name.append(")");
        ConfigMutator { inner, name }
    }
}

/// A mutator of the rootfs half of a combined input, named after the inner
/// mutator as `Rootfs(<inner>)`.
#[derive(Debug)]
pub struct RootfsMutator<M> {
    pub inner: M,
    pub name: String,
}

impl<M> RootfsMutator<M> {
    pub fn new(inner: M, inner_name: &str) -> (m: Self)
        ensures
            m.inner == inner,
            m.name@ == "Rootfs("@ + inner_name@ + ")"@,
    {
        let mut name = owned("Rootfs(");
        name.append(inner_name);
        name.append(")");
        RootfsMutator { inner, name }
    }
}

// ── runc bundle ─────────────────────────────────────────────────────────────

/// The OCI config of the runc campaign: `/bin/true` as root in new pid, mount
/// and user namespaces, with `rootfs_path` as root and container root mapped
/// to host `uid` / `gid`.
pub open spec fn runc_config_text(rootfs_path: Seq<char>, uid: u32, gid: u32) -> Seq<char> {
    "{\n  \"ociVersion\": \"1.0.0\",\n  \"process\": {\n    \"terminal\": false,\n    \"user\": {\"uid\": 0, \"gid\": 0},\n    \"args\": [\"/bin/true\"],\n    \"env\": [\"PATH=/usr/local/sbin:/usr/local/bin:/usr/sbin:/usr/bin:/sbin:/bin\"],\n    \"cwd\": \"/\",\n    \"noNewPrivileges\": true\n  },\n  \"root\": {\n    \"path\": \""@ + rootfs_path + "\",\n    \"readonly\": false\n  },\n  \"hostname\": \"fuzz\",\n  \"linux\": {\n    \"uidMappings\": [{\"containerID\": 0, \"hostID\": "@ + decimal(uid as nat) + ", \"size\": 1}],\n    \"gidMappings\": [{\"containerID\": 0, \"hostID\": "@ + decimal(gid as nat)
        + ", \"size\": 1}],\n    \"namespaces\": [\n      {\"type\": \"pid\"},\n      {\"type\": \"mount\"},\n      {\"type\": \"user\"}\n    ]\n  }\n}"@
}

pub fn generate_runc_config(rootfs_path: &str, uid: u32, gid: u32) -> (s: String)
    ensures
        s@ == runc_config_text(rootfs_path@, uid, gid),
{
    let mut s = owned("{\n  \"ociVersion\": \"1.0.0\",\n  \"process\": {\n    \"terminal\": false,\n    \"user\": {\"uid\": 0, \"gid\": 0},\n    \"args\": [\"/bin/true\"],\n    \"env\": [\"PATH=/usr/local/sbin:/usr/local/bin:/usr/sbin:/usr/bin:/sbin:/bin\"],\n    \"cwd\": \"/\",\n    \"noNewPrivileges\": true\n  },\n  \"root\": {\n    \"path\": \"");
    s.append(rootfs_path);
    s.append("\",\n    \"readonly\": false\n  },\n  \"hostname\": \"fuzz\",\n  \"linux\": {\n    \"uidMappings\": [{\"containerID\": 0, \"hostID\": ");
    let u = decimal_string(uid as usize);
    s.append(u.as_str());
    s.append(", \"size\": 1}],\n    \"gidMappings\": [{\"containerID\": 0, \"hostID\": ");
    let g = decimal_string(gid as usize);
    s.append(g.as_str());
    s.append(", \"size\": 1}],\n    \"namespaces\": [\n      {\"type\": \"pid\"},\n      {\"type\": \"mount\"},\n      {\"type\": \"user\"}\n    ]\n  }\n}");
    s
}

} // verus!
