//! Java runtimes and memory: what the probes report, read as plain values.

use vstd::prelude::*;
use crate::text::{contains_text, join3, occurs_in, owned};

verus! {

/// Physical memory, in MiB.
#[derive(Clone, Copy, PartialEq, Eq, Structural)]
pub struct MemoryStats {
    pub total: u64,
    pub available: u64,
}

/// A Java installation found on this machine.
pub struct JavaInstall {
    pub version: String,
    pub path: String,
}

/// Cached installations split by whether their executable still exists.
pub struct ValidationResult {
    pub valid: Vec<JavaInstall>,
    pub missing: Vec<JavaInstall>,
}

/// The runtime settings of an instance.
pub struct RuntimeConfig {
    pub use_global_java: bool,
    pub use_global_memory: bool,
    pub java_path: String,
    pub max_memory: u64,
    pub min_memory: u64,
    pub jvm_args: String,
}

/// Memory figures in MiB from figures in bytes.
pub fn memory_stats_from_bytes(total_bytes: u64, available_bytes: u64) -> (r: MemoryStats)
    ensures
        r.total == total_bytes / 1024 / 1024,
        r.available == available_bytes / 1024 / 1024,
{
    MemoryStats { total: total_bytes / 1024 / 1024, available: available_bytes / 1024 / 1024 }
}

/// The installations of `xs` whose flag in `flags` equals `want`, in order.
pub open spec fn select(xs: Seq<JavaInstall>, flags: Seq<bool>, want: bool) -> Seq<JavaInstall>
    decreases xs.len(),
{
    if xs.len() == 0 || flags.len() < xs.len() {
        Seq::empty()
    } else {
        let prev = select(xs.drop_last(), flags, want);
        if flags[xs.len() - 1] == want {
            prev.push(xs.last())
        } else {
            prev
        }
    }
}

/// Splits cached installations by whether each still exists
/// (`exists[i]` for `installs[i]`).
pub fn partition_java_installs(installs: &Vec<JavaInstall>, exists: &Vec<bool>) -> (r: ValidationResult)
    requires
        installs@.len() == exists@.len(),
    ensures
        r.valid@ == select(installs@, exists@, true),
        r.missing@ == select(installs@, exists@, false),
{
    let mut valid: Vec<JavaInstall> = Vec::new();
    let mut missing: Vec<JavaInstall> = Vec::new();
    let mut i: usize = 0;
    while i < installs.len()
        invariant
            i <= installs@.len(),
            installs@.len() == exists@.len(),
            valid@ == select(installs@.subrange(0, i as int), exists@, true),
            missing@ == select(installs@.subrange(0, i as int), exists@, false),
        decreases installs.len() - i,
    {
        let x = JavaInstall { version: installs[i].version.clone(), path: installs[i].path.clone() };
        assert(installs@.subrange(0, i + 1).drop_last() =~= installs@.subrange(0, i as int));
        assert(installs@.subrange(0, i + 1).last() == installs@[i as int]);
        if exists[i] {
            valid.push(x);
        } else {
            missing.push(x);
        }
        i = i + 1;
    }
    assert(installs@.subrange(0, installs@.len() as int) =~= installs@);
    ValidationResult { valid, missing }
}

/// Index of the first `c` in `s`, or the length of `s` when there is none.
pub open spec fn first_index_of(s: Seq<char>, c: char) -> int
    decreases s.len(),
{
    if s.len() == 0 {
        0
    } else if s[0] == c {
        0
    } else {
        1 + first_index_of(s.drop_first(), c)
    }
}

proof fn lemma_first_index_skip(s: Seq<char>, c: char, k: int)
    requires
        0 <= k <= s.len(),
        forall|j: int| 0 <= j < k ==> s[j] != c,
    ensures
        first_index_of(s, c) == k + first_index_of(s.subrange(k, s.len() as int), c),
    decreases k,
{
    if k == 0 {
        assert(s.subrange(0, s.len() as int) =~= s);
    } else {
        let d = s.drop_first();
        assert forall|j: int| 0 <= j < k - 1 implies d[j] != c by {
            assert(d[j] == s[j + 1]);
        }
        lemma_first_index_skip(d, c, k - 1);
        assert(d.subrange(k - 1, d.len() as int) =~= s.subrange(k, s.len() as int));
    }
}

/// Index of the first `c` in `s`, or its length.
pub fn index_of_char(s: &str, c: char) -> (k: usize)
    ensures
        k as int == first_index_of(s@, c),
        k <= s@.len(),
        forall|j: int| 0 <= j < k ==> s@[j] != c,
        k < s@.len() ==> s@[k as int] == c,
{
    let n = s.unicode_len();
    let mut k: usize = 0;
    while k < n && s.get_char(k) != c
        invariant
            n == s@.len(),
            k <= n,
            forall|j: int| 0 <= j < k ==> s@[j] != c,
        decreases n - k,
    {
        k = k + 1;
    }
    proof {
        lemma_first_index_skip(s@, c, k as int);
        let t = s@.subrange(k as int, s@.len() as int);
        if k < n {
            assert(t[0] == c);
        } else {
            assert(t.len() == 0);
        }
    }
    k
}

/// The first line of a text, as `str::lines` gives it: up to the first
/// line feed, without the carriage return before it.
pub open spec fn first_line_spec(s: Seq<char>) -> Seq<char> {
    let k = first_index_of(s, '\n');
    let l = s.subrange(0, k);
    if k < s.len() && k > 0 && l.last() == '\r' {
        l.drop_last()
    } else {
        l
    }
}

/// The text between the first double quote of a line and the next one (or
/// the end); `None` when the line has no double quote.
pub open spec fn quoted_spec(line: Seq<char>) -> Option<Seq<char>> {
    let q = first_index_of(line, '"');
    if q >= line.len() {
        None
    } else {
        let rest = line.subrange(q + 1, line.len() as int);
        Some(rest.subrange(0, first_index_of(rest, '"')))
    }
}

/// The label of a Java runtime from what `java -version` wrote: the quoted
/// version of the first line (or `Unknown`) and whether it is a 64-bit VM.
pub open spec fn java_label_spec(out: Seq<char>) -> Option<Seq<char>> {
    if out.len() == 0 {
        None
    } else {
        let bits = if occurs_in("64-Bit"@, out) {
            "64-bit"@
        } else {
            "32-bit"@
        };
        match quoted_spec(first_line_spec(out)) {
            Some(v) => Some(v + " ("@ + bits + ")"@),
            None => Some("Unknown ("@ + bits + ")"@),
        }
    }
}

/// Reads the version label out of the output of `java -version`.
pub fn java_version_label(out: &str) -> (r: Option<String>)
    ensures
        r matches Some(s) ==> java_label_spec(out@) == Some(s@),
        r is None ==> java_label_spec(out@) is None,
{
    let n = out.unicode_len();
    if n == 0 {
        return None;
    }
    let k = index_of_char(out, '\n');
    let mut line = out.substring_char(0, k);
    if k < n && k > 0 && out.get_char(k - 1) == '\r' {
        line = out.substring_char(0, k - 1);
        assert(line@ =~= out@.subrange(0, k as int).drop_last());
    }
    assert(line@ == first_line_spec(out@));
    let bits = if contains_text(out, "64-Bit") {
        "64-bit"
    } else {
        "32-bit"
    };
    let m = line.unicode_len();
    let q = index_of_char(line, '"');
    if q >= m {
        Some(join3("Unknown (", bits, ")"))
    } else {
        let rest = line.substring_char(q + 1, m);
        let e = index_of_char(rest, '"');
        let v = rest.substring_char(0, e);
        let mut s = join3(v, " (", bits);
        s.append(")");
        Some(s)
    }
}

/// Whether the machine is a Steam Deck: SteamOS's release file exists or
/// the CPU is AMD's custom handheld APU.
pub fn is_steam_deck(has_steamos_release: bool, cpuinfo: &str) -> (r: bool)
    ensures
        r == (has_steamos_release || occurs_in("AMD Custom APU"@, cpuinfo@)),
{
    has_steamos_release || contains_text(cpuinfo, "AMD Custom APU")
}

impl RuntimeConfig {
    /// The settings of an instance that has none of its own.
    pub fn fallback() -> (r: RuntimeConfig)
        ensures
            r.use_global_java && r.use_global_memory,
            r.java_path@ == Seq::<char>::empty(),
            r.max_memory == 4096,
            r.min_memory == 1024,
            r.jvm_args@ == "-XX:+UseG1GC -XX:+UnlockExperimentalVMOptions"@,
    {
        RuntimeConfig {
            use_global_java: true,
            use_global_memory: true,
            java_path: String::new(),
            max_memory: 4096,
            min_memory: 1024,
            jvm_args: owned("-XX:+UseG1GC -XX:+UnlockExperimentalVMOptions"),
        }
    }
}

} // verus!
