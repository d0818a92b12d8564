//! Resource statistics from control-group pseudo-files.
//!
//! Two kernel-exposed files per container: a CPU statistics text whose
//! `usage_usec` line carries cumulative CPU time in microseconds, and a
//! current-memory file holding one integer byte count. Stats are best-effort
//! telemetry: a missing file or an unreadable value degrades to zero.

use vstd::prelude::*;
use vstd::string::StringExecFns;

use crate::text::parse_u64;
use crate::text::second_token;
use crate::text::spec_lines;
use crate::text::spec_parse_u64;
use crate::text::spec_second_token;
use crate::text::split_lines;
use crate::text::spec_trim;
use crate::text::starts_with_seq;
use crate::text::str_starts_with;
use crate::text::str_trim;
use crate::types::ContainerStats;

verus! {

/// The CPU statistics pseudo-file of a container's control group.
pub fn cgroup_cpu_stat_path(container_id: &str) -> (r: String)
    ensures
        r@ == "/sys/fs/cgroup/youki/"@ + container_id@ + "/cpu.stat"@,
{
    let r = "/sys/fs/cgroup/youki/".to_owned().concat(container_id).concat("/cpu.stat");
    assert(r@ =~= "/sys/fs/cgroup/youki/"@ + container_id@ + "/cpu.stat"@);
    r
}

/// The current-memory pseudo-file of a container's control group.
pub fn cgroup_memory_path(container_id: &str) -> (r: String)
    ensures
        r@ == "/sys/fs/cgroup/youki/"@ + container_id@ + "/memory.current"@,
{
    let r = "/sys/fs/cgroup/youki/".to_owned().concat(container_id).concat("/memory.current");
    assert(r@ =~= "/sys/fs/cgroup/youki/"@ + container_id@ + "/memory.current"@);
    r
}

/// The CPU reading of a list of stat lines: from the first line that begins
/// `usage_usec` and carries a second field, that field's value in
/// microseconds turned into nanoseconds; an unparsable value, or one whose
/// nanosecond form exceeds the 64-bit range, degrades to zero, as does a
/// missing line.
pub open spec fn spec_cpu_from_lines(ls: Seq<Seq<char>>) -> u64
    decreases ls.len(),
{
    if ls.len() == 0 {
        0
    } else {
        match spec_second_token(ls[0]) {
            Some(tok) => if starts_with_seq(ls[0], "usage_usec"@) {
                match spec_parse_u64(tok) {
                    Some(v) => if v <= u64::MAX / 1000 {
                        (v * 1000) as u64
                    } else {
                        0
                    },
                    None => 0,
                }
            } else {
                spec_cpu_from_lines(ls.skip(1))
            },
            None => spec_cpu_from_lines(ls.skip(1)),
        }
    }
}

/// The CPU reading of a control-group CPU statistics text, in nanoseconds.
pub open spec fn spec_cpu_usage(content: Seq<char>) -> u64 {
    spec_cpu_from_lines(spec_lines(content))
}

/// Extracts cumulative CPU time in nanoseconds from a CPU statistics text:
/// the `usage_usec` microsecond value times one thousand.
pub fn parse_cpu_usage(content: &str) -> (r: u64)
    ensures
        r == spec_cpu_usage(content@),
{
    let lines = split_lines(content);
    let ghost dv = lines.deep_view();
    let mut i: usize = 0;
    proof {
        assert(dv.skip(0) =~= dv);
    }
    while i < lines.len()
        invariant
            i <= lines@.len(),
            dv == lines.deep_view(),
            dv == spec_lines(content@),
            dv.len() == lines@.len(),
            forall|k: int| 0 <= k < dv.len() ==> dv[k] == lines@[k]@,
            spec_cpu_from_lines(dv.skip(i as int)) == spec_cpu_from_lines(dv),
        decreases lines@.len() - i,
    {
        proof {
            assert(dv.skip(i as int)[0] == dv[i as int]);
        }
        if str_starts_with(lines[i].as_str(), "usage_usec") {
            match second_token(lines[i].as_str()) {
                Some(tok) => {
                    match parse_u64(tok.as_str()) {
                        Some(v) => {
                            if v <= u64::MAX / 1000 {
                                proof {
                                    assert(v * 1000 <= u64::MAX) by (nonlinear_arith)
                                        requires
                                            v <= u64::MAX / 1000,
                                    ;
                                }
                                return v * 1000;
                            } else {
                                return 0;
                            }
                        },
                        None => {
                            return 0;
                        },
                    }
                },
                None => {},
            }
        }
        proof {
            assert(dv.skip(i as int).skip(1) =~= dv.skip(i + 1));
        }
        i += 1;
    }
    proof {
        assert(dv.skip(dv.len() as int) =~= Seq::<Seq<char>>::empty());
    }
    0
}

/// The byte count of a current-memory text: the trimmed text as a decimal
/// value, or zero when it does not parse.
pub open spec fn spec_memory_current(content: Seq<char>) -> u64 {
    match spec_parse_u64(spec_trim(content)) {
        Some(v) => v,
        None => 0,
    }
}

/// Reads the current memory usage in bytes from a current-memory text.
pub fn parse_memory_current(content: &str) -> (r: u64)
    ensures
        r == spec_memory_current(content@),
{
    let t = str_trim(content);
    match parse_u64(t.as_str()) {
        Some(v) => v,
        None => 0,
    }
}

/// Assembles a fresh statistics record from whatever the two control-group
/// files held; a file that could not be read counts as zero.
pub fn stats_from_reads(
    container_id: String,
    cpu_stat: Option<&String>,
    memory_current: Option<&String>,
) -> (r: ContainerStats)
    ensures
        r.container_id@ == container_id@,
        cpu_stat matches Some(c) ==> r.cpu_usage_ns == spec_cpu_usage(c@),
        cpu_stat is None ==> r.cpu_usage_ns == 0,
        memory_current matches Some(m) ==> r.memory_usage_bytes == spec_memory_current(m@),
        memory_current is None ==> r.memory_usage_bytes == 0,
{
    let cpu_usage_ns = match cpu_stat {
        Some(c) => parse_cpu_usage(c.as_str()),
        None => 0,
    };
    let memory_usage_bytes = match memory_current {
        Some(m) => parse_memory_current(m.as_str()),
        None => 0,
    };
    ContainerStats { container_id, cpu_usage_ns, memory_usage_bytes }
}

} // verus!
