//! The instance guard: is another instance of this program already at work?
//!
//! The caller takes a snapshot of the process table, finds out its own
//! process identifier and the time, and asks [`check_single_instance`].

use vstd::prelude::*;
use vstd::string::StrSliceExecFns;
use crate::config::RunConfig;
use crate::config::RunConfigView;

verus! {

/// The text by which a process of this program is known: a process is one of
/// ours if its reported name contains it.
pub const PROCESS_NAME: &'static str = "wallpaper-pick";

/// A single instance of this age, in seconds, or younger is taken to be the
/// asking process itself, seen in the table before it has settled.
pub const STARTUP_GRACE: u64 = 3;

/// One entry of the process table, as the operating system reports it.
#[derive(Clone, Debug, PartialEq, Eq)]
pub struct ProcessRecord {
    /// The identifier of the process.
    pub pid: u32,
    /// The identifier of the process that started it, if known.
    pub parent_pid: Option<u32>,
    /// When the process started, in seconds since the epoch.
    pub start_time: u64,
    /// The name of the process.
    pub name: String,
}

/// A [`ProcessRecord`] as mathematical values.
pub struct ProcessView {
    pub pid: u32,
    pub parent_pid: Option<u32>,
    pub start_time: u64,
    pub name: Seq<char>,
}

impl View for ProcessRecord {
    type V = ProcessView;

    open spec fn view(&self) -> ProcessView {
        ProcessView {
            pid: self.pid,
            parent_pid: self.parent_pid,
            start_time: self.start_time,
            name: self.name@,
        }
    }
}

impl DeepView for ProcessRecord {
    type V = ProcessView;

    open spec fn deep_view(&self) -> ProcessView {
        self@
    }
}

/// What the guard decides.
#[derive(Clone, Copy, Debug, PartialEq, Eq, Structural)]
pub enum Verdict {
    /// No other instance was found: go on.
    Allow,
    /// Another instance is at work: leave quietly. `pid` is the process that
    /// settled it, `count` the number of instances seen up to and including
    /// it, `age` its age in seconds.
    Abort { pid: u32, count: usize, age: u64 },
}

impl Verdict {
    /// The exit status that the verdict asks for: a process that is turned
    /// away leaves quietly, with status zero, as after a run that went well.
    pub open spec fn exit_status_spec(self) -> Option<u8> {
        match self {
            Verdict::Allow => None,
            Verdict::Abort { .. } => Some(0u8),
        }
    }

    /// The exit status with which to leave at once, if the verdict asks for it.
    #[verifier::when_used_as_spec(exit_status_spec)]
    pub fn exit_status(self) -> (status: Option<u8>)
        ensures
            status == self.exit_status_spec(),
    {
        match self {
            Verdict::Allow => None,
            Verdict::Abort { .. } => Some(0),
        }
    }
}

/// Whether `pattern` occurs in `text` as a run of adjacent characters.
pub open spec fn occurs_in(pattern: Seq<char>, text: Seq<char>) -> bool {
    exists|at: int|
        0 <= at && at + pattern.len() <= text.len() && #[trigger] text.subrange(
            at,
            at + pattern.len(),
        ) == pattern
}

/// The age in seconds at `now` of a process started at `start_time`; zero if
/// the clocks put the start in the future.
pub open spec fn age(now: u64, start_time: u64) -> u64 {
    if now >= start_time {
        (now - start_time) as u64
    } else {
        0
    }
}

/// Whether a process counts as another instance: it bears the name of this
/// program and was not started by the asking process.
pub open spec fn is_instance(process: ProcessView, self_pid: Option<u32>) -> bool {
    occurs_in(PROCESS_NAME@, process.name) && process.parent_pid != self_pid
}

/// The instances among the processes of `table`, in the order of the table.
pub open spec fn instances(table: Seq<ProcessView>, self_pid: Option<u32>) -> Seq<ProcessView> {
    table.filter(|process: ProcessView| is_instance(process, self_pid))
}

/// The verdict on the instances found.
///
/// A first instance older than the grace period is another instance. A young
/// one is taken for the asking process itself, unless there is a second one.
pub open spec fn verdict_on(found: Seq<ProcessView>, now: u64) -> Verdict {
    if found.len() == 0 {
        Verdict::Allow
    } else if age(now, found[0].start_time) > STARTUP_GRACE {
        Verdict::Abort { pid: found[0].pid, count: 1, age: age(now, found[0].start_time) }
    } else if found.len() == 1 {
        Verdict::Allow
    } else {
        Verdict::Abort { pid: found[1].pid, count: 2, age: age(now, found[1].start_time) }
    }
}

/// Whether the guard looks at the process table at all: not for a run that
/// rotates once, nor for one that was told to start regardless.
pub open spec fn guard_applies(config: RunConfigView) -> bool {
    !config.rotate_once && !config.force_duplicate
}

/// The verdict of the guard on a snapshot of the process table.
pub open spec fn guard_verdict(
    config: RunConfigView,
    table: Seq<ProcessView>,
    self_pid: Option<u32>,
    now: u64,
) -> Verdict {
    if guard_applies(config) {
        verdict_on(instances(table, self_pid), now)
    } else {
        Verdict::Allow
    }
}

/// The characters of `text`, in order.
fn chars_of(text: &str) -> (chars: Vec<char>)
    ensures
        chars@ == text@,
{
    let len = text.unicode_len();
    let mut chars: Vec<char> = Vec::new();
    let mut i: usize = 0;
    while i < len
        invariant
            len == text@.len(),
            i <= len,
            chars@ == text@.take(i as int),
        decreases len - i,
    {
        chars.push(text.get_char(i));
        i += 1;
    }
    chars
}

/// Whether `pattern` stands in `text` at position `at`.
fn stands_at(text: &Vec<char>, pattern: &Vec<char>, at: usize) -> (found: bool)
    requires
        at + pattern.len() <= text.len(),
    ensures
        found == (text@.subrange(at as int, at + pattern.len()) == pattern@),
{
    let mut i: usize = 0;
    while i < pattern.len()
        invariant
            at + pattern.len() <= text.len(),
            i <= pattern.len(),
            text@.subrange(at as int, at + i) == pattern@.take(i as int),
        decreases pattern.len() - i,
    {
        if text[at + i] != pattern[i] {
            assert(text@.subrange(at as int, at + pattern.len())[i as int] != pattern@[i as int]);
            return false;
        }
        i += 1;
    }
    assert(pattern@.take(i as int) =~= pattern@);
    true
}

/// Whether `pattern` occurs in `text`, both given character by character.
fn occurs(pattern: &Vec<char>, text: &Vec<char>) -> (found: bool)
    ensures
        found == occurs_in(pattern@, text@),
{
    if pattern.len() > text.len() {
        return false;
    }
    let last = text.len() - pattern.len();
    let mut at: usize = 0;
    loop
        invariant
            last == text.len() - pattern.len(),
            at <= last,
            forall|k: int|
                0 <= k < at ==> #[trigger] text@.subrange(k, k + pattern@.len()) != pattern@,
        decreases last - at,
    {
        if stands_at(text, pattern, at) {
            return true;
        }
        if at == last {
            return false;
        }
        at += 1;
    }
}

/// Whether `pattern` occurs in `text`.
pub fn contains_text(text: &str, pattern: &str) -> (found: bool)
    ensures
        found == occurs_in(pattern@, text@),
{
    occurs(&chars_of(pattern), &chars_of(text))
}

/// Decides from a snapshot of the process table whether this process may
/// start its loop.
///
/// `self_pid` is the identifier of the asking process, if it could be found
/// out; `now` is the time in seconds since the epoch.
pub fn check_single_instance(
    config: &RunConfig,
    table: &Vec<ProcessRecord>,
    self_pid: Option<u32>,
    now: u64,
) -> (verdict: Verdict)
    ensures
        verdict == guard_verdict(config@, table.deep_view(), self_pid, now),
        config.rotate_once || config.force_duplicate ==> verdict is Allow,
{
    if config.rotate_once || config.force_duplicate {
        return Verdict::Allow;
    }
    let ghost processes = table.deep_view();
    let own_name = chars_of(PROCESS_NAME);
    let mut count: usize = 0;
    let mut i: usize = 0;
    while i < table.len()
        invariant
            guard_applies(config@),
            own_name@ == PROCESS_NAME@,
            processes == table.deep_view(),
            i <= table.len(),
            count <= 1,
            instances(processes.take(i as int), self_pid).len() == count,
            count == 1 ==> age(now, instances(processes.take(i as int), self_pid)[0].start_time)
                <= STARTUP_GRACE,
        decreases table.len() - i,
    {
        let process = &table[i];
        proof {
            lemma_instances_step(processes, self_pid, i as int);
        }
        let name = chars_of(process.name.as_str());
        if occurs(&own_name, &name) && process.parent_pid != self_pid {
            count += 1;
            let age = if now >= process.start_time {
                now - process.start_time
            } else {
                0
            };
            if count > 1 || age > STARTUP_GRACE {
                proof {
                    lemma_instances_prefix(processes, self_pid, i + 1);
                    let seen = instances(processes.take(i + 1), self_pid);
                    let all = instances(processes, self_pid);
                    assert(seen == instances(processes.take(i as int), self_pid).push(processes[i as int]));
                    assert(seen =~= all.subrange(0, seen.len() as int));
                    assert(all[0] == seen[0]);
                    assert(all[count - 1] == seen[count - 1]);
                }
                return Verdict::Abort { pid: process.pid, count, age };
            }
        }
        i += 1;
    }
    assert(processes.take(i as int) =~= processes);
    Verdict::Allow
}

/// The guard lets a process start if and only if it finds no instance, or a
/// single one that is within the grace period.
pub proof fn lemma_allowed_iff_alone(found: Seq<ProcessView>, now: u64)
    ensures
        verdict_on(found, now) is Allow <==> found.len() == 0 || (found.len() == 1 && age(
            now,
            found[0].start_time,
        ) <= STARTUP_GRACE),
{
}

/// Looking at one more process adds it to the instances if it is one, and
/// changes nothing if it is not.
proof fn lemma_instances_step(table: Seq<ProcessView>, self_pid: Option<u32>, i: int)
    requires
        0 <= i < table.len(),
    ensures
        instances(table.take(i + 1), self_pid) == if is_instance(table[i], self_pid) {
            instances(table.take(i), self_pid).push(table[i])
        } else {
            instances(table.take(i), self_pid)
        },
{
    reveal(Seq::filter);
    assert(table.take(i + 1).drop_last() =~= table.take(i));
}

/// The instances found in the first `n` processes are the first instances of
/// the whole table.
proof fn lemma_instances_prefix(table: Seq<ProcessView>, self_pid: Option<u32>, n: int)
    requires
        0 <= n <= table.len(),
    ensures
        instances(table.take(n), self_pid).is_prefix_of(instances(table, self_pid)),
{
    let is_one = |process: ProcessView| is_instance(process, self_pid);
    assert(table =~= table.take(n) + table.skip(n));
    Seq::filter_distributes_over_add(table.take(n), table.skip(n), is_one);
}

} // verus!
