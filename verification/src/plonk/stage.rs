//! Attribution of peak memory to the stages of loading a key.
use vstd::prelude::*;

use crate::text::{
    contains_text, decimal, decimal_text, pad_left, pad_right, padded_left, padded_right,
};

verus! {

/// A sample of the memory of a process, in KiB.
#[derive(Clone, Copy, Debug)]
pub struct MemorySample {
    /// What is resident now.
    pub rss_kb: u64,
    /// The most that was ever resident.
    pub hwm_kb: u64,
}

/// By how much the high-water mark rose.
pub open spec fn rise(prev_hwm_kb: u64, hwm_kb: u64) -> nat {
    if hwm_kb >= prev_hwm_kb {
        (hwm_kb - prev_hwm_kb) as nat
    } else {
        0
    }
}

/// The line that reports a stage, in MiB.
pub open spec fn stage_line(name: Seq<char>, sample: MemorySample, prev_hwm_kb: u64) -> Seq<char> {
    "read-stage "@ + padded_right(name, 28) + " rss="@ + padded_left(
        decimal((sample.rss_kb / 1024) as nat),
        6,
    ) + " MiB  hwm="@ + padded_left(decimal((sample.hwm_kb / 1024) as nat), 6)
        + " MiB  hwm_delta=+"@ + padded_left(
        decimal(rise(prev_hwm_kb, sample.hwm_kb) / 1024),
        5,
    ) + " MiB"@
}

/// Reports a stage of loading a key, if the host could take a sample after it.
///
/// The high-water mark never falls, so the stage at which it rises is the one
/// that set the peak. `prev_hwm_kb` is the mark of the sample before.
pub fn read_stage(name: &str, sample: Option<MemorySample>, prev_hwm_kb: &mut u64) -> (line: Option<
    String,
>)
    ensures
        match sample {
            Some(sample) => {
                &&& line matches Some(text)
                &&& text@ == stage_line(name@, sample, *old(prev_hwm_kb))
                &&& *final(prev_hwm_kb) == sample.hwm_kb
            },
            None => line is None && *final(prev_hwm_kb) == *old(prev_hwm_kb),
        },
{
    match sample {
        Some(sample) => {
            let delta: u64 = if sample.hwm_kb >= *prev_hwm_kb {
                sample.hwm_kb - *prev_hwm_kb
            } else {
                0
            };
            let mut text = "read-stage ".to_owned();
            text.append(pad_right(name, 28).as_str());
            text.append(" rss=");
            text.append(pad_left(decimal_text(sample.rss_kb / 1024).as_str(), 6).as_str());
            text.append(" MiB  hwm=");
            text.append(pad_left(decimal_text(sample.hwm_kb / 1024).as_str(), 6).as_str());
            text.append(" MiB  hwm_delta=+");
            text.append(pad_left(decimal_text(delta / 1024).as_str(), 5).as_str());
            text.append(" MiB");
            *prev_hwm_kb = sample.hwm_kb;
            Some(text)
        },
        None => None,
    }
}

/// The stages of loading a key, in order.
pub open spec fn stage_names() -> Seq<Seq<char>> {
    seq![
        "start"@,
        "vk read (incl. domain)"@,
        "lagrange polys"@,
        "fixed_values read"@,
        "fixed_polys (ifft)"@,
        "fixed_cosets (or deferred)"@,
        "permutation read"@,
        "evaluator"@,
        "spill (or none)"@,
    ]
}

/// The high-water mark of the last of some samples, and 0 before the first.
pub open spec fn mark(samples: Seq<Option<MemorySample>>) -> u64
    decreases samples.len(),
{
    if samples.len() == 0 {
        0
    } else {
        match samples.last() {
            Some(sample) => sample.hwm_kb,
            None => mark(samples.drop_last()),
        }
    }
}

/// The lines that report the first stages of a load, after which these samples
/// were taken.
pub open spec fn stage_lines(samples: Seq<Option<MemorySample>>) -> Seq<Seq<char>>
    decreases samples.len(),
{
    if samples.len() == 0 {
        Seq::empty()
    } else {
        let before = samples.drop_last();
        match samples.last() {
            Some(sample) => stage_lines(before).push(
                stage_line(stage_names()[samples.len() - 1], sample, mark(before)),
            ),
            None => stage_lines(before),
        }
    }
}

/// Takes samples of the memory of this process, and shows the reports.
pub trait StageMonitor {
    /// The samples that were taken.
    closed spec fn samples(&self) -> Seq<Option<MemorySample>> {
        arbitrary()
    }

    /// The lines that were shown.
    closed spec fn lines(&self) -> Seq<Seq<char>> {
        arbitrary()
    }

    /// Takes a sample, if the host offers one.
    fn sample(&mut self) -> (sample: Option<MemorySample>)
        ensures
            final(self).samples() == old(self).samples().push(sample),
            final(self).lines() == old(self).lines(),
    ;

    /// Shows a line.
    fn report(&mut self, line: String)
        ensures
            final(self).samples() == old(self).samples(),
            final(self).lines() == old(self).lines().push(line@),
    ;
}

/// Watches nothing: no sample is taken, so nothing is reported.
pub struct Unmonitored {
    samples: Ghost<Seq<Option<MemorySample>>>,
    lines: Ghost<Seq<Seq<char>>>,
}

impl Unmonitored {
    /// A monitor that watches nothing.
    pub fn new() -> (monitor: Self)
        ensures
            monitor.samples() == Seq::<Option<MemorySample>>::empty(),
            monitor.lines() == Seq::<Seq<char>>::empty(),
    {
        Unmonitored { samples: Ghost(Seq::empty()), lines: Ghost(Seq::empty()) }
    }
}

impl StageMonitor for Unmonitored {
    closed spec fn samples(&self) -> Seq<Option<MemorySample>> {
        self.samples@
    }

    closed spec fn lines(&self) -> Seq<Seq<char>> {
        self.lines@
    }

    fn sample(&mut self) -> (sample: Option<MemorySample>)
        ensures
            sample is None,
    {
        self.samples = Ghost(self.samples@.push(None));
        None
    }

    fn report(&mut self, line: String) {
        self.lines = Ghost(self.lines@.push(line@));
    }
}

/// Whether a monitor was asked after each of the first `n` stages of a load, and
/// showed their reports.
pub open spec fn stages_reported<S: StageMonitor>(before: &S, after: &S, n: nat) -> bool {
    let taken = after.samples().skip(before.samples().len() as int);
    &&& taken.len() == n
    &&& after.samples() == before.samples() + taken
    &&& after.lines() == before.lines() + stage_lines(taken)
}

/// Reports stage `n` of a load that has reported the stages before it, with this
/// high-water mark.
pub(crate) fn report_stage<S: StageMonitor>(
    monitor: &mut S,
    name: &str,
    hwm_kb: &mut u64,
    Ghost(before): Ghost<S>,
    Ghost(n): Ghost<nat>,
)
    requires
        n < stage_names().len(),
        name@ == stage_names()[n as int],
        stages_reported(&before, old(monitor), n),
        *old(hwm_kb) == mark(old(monitor).samples().skip(before.samples().len() as int)),
    ensures
        stages_reported(&before, final(monitor), n + 1),
        *final(hwm_kb) == mark(final(monitor).samples().skip(before.samples().len() as int)),
{
    let ghost taken = monitor.samples().skip(before.samples().len() as int);
    let ghost shown = monitor.lines();
    let sample = monitor.sample();
    let ghost now = monitor.samples().skip(before.samples().len() as int);
    proof {
        assert(now =~= taken.push(sample));
        assert(now.drop_last() =~= taken);
        assert(monitor.samples() =~= before.samples() + now);
    }
    match read_stage(name, sample, hwm_kb) {
        Some(line) => {
            let ghost text = line@;
            monitor.report(line);
            assert(shown.push(text) =~= before.lines() + stage_lines(taken).push(text));
        },
        None => {},
    }
}

/// A sample adds the line of its stage, which compares it with the last sample before
/// it; where the host has no sample to offer, no line is added and the mark stays.
pub proof fn law_each_sample_adds_its_line(
    samples: Seq<Option<MemorySample>>,
    sample: MemorySample,
)
    ensures
        stage_lines(Seq::<Option<MemorySample>>::empty()) == Seq::<Seq<char>>::empty(),
        mark(Seq::<Option<MemorySample>>::empty()) == 0,
        stage_lines(samples.push(None)) == stage_lines(samples),
        mark(samples.push(None)) == mark(samples),
        stage_lines(samples.push(Some(sample))) == stage_lines(samples).push(
            stage_line(stage_names()[samples.len() as int], sample, mark(samples)),
        ),
        mark(samples.push(Some(sample))) == sample.hwm_kb,
{
    assert(samples.push(None).drop_last() =~= samples);
    assert(samples.push(Some(sample)).drop_last() =~= samples);
}

/// A load of `n` stages asks for `n` samples after those that were taken before, and
/// shows exactly their lines after those that were shown before.
pub proof fn law_a_load_shows_its_own_lines<S: StageMonitor>(before: S, after: S, n: nat)
    requires
        stages_reported(&before, &after, n),
    ensures
        after.samples().len() == before.samples().len() + n,
        after.samples().take(before.samples().len() as int) == before.samples(),
        after.lines() == before.lines() + stage_lines(
            after.samples().skip(before.samples().len() as int),
        ),
{
    assert(after.samples().take(before.samples().len() as int) =~= before.samples());
}

/// A line has this form, whatever the numbers are: each of them is as wide as its column
/// at least, and followed by its unit.
pub proof fn law_a_line_has_this_form(name: Seq<char>, rss_kb: u64, hwm_kb: u64, rise_kb: u64)
    requires
        rise_kb <= hwm_kb,
    ensures
        stage_line(name, MemorySample { rss_kb, hwm_kb }, (hwm_kb - rise_kb) as u64)
            == "read-stage "@ + padded_right(name, 28) + " rss="@ + padded_left(
            decimal((rss_kb / 1024) as nat),
            6,
        ) + " MiB  hwm="@ + padded_left(decimal((hwm_kb / 1024) as nat), 6)
            + " MiB  hwm_delta=+"@ + padded_left(decimal((rise_kb / 1024) as nat), 5) + " MiB"@,
{
}

/// The line of a stage names it, and gives what is resident, the high-water mark and
/// its rise since the sample before, in MiB. A mark that fell did not rise.
pub proof fn law_a_line_says_what_a_stage_took(
    name: Seq<char>,
    sample: MemorySample,
    prev_hwm_kb: u64,
)
    ensures
        contains_text(stage_line(name, sample, prev_hwm_kb), name),
        contains_text(
            stage_line(name, sample, prev_hwm_kb),
            decimal((sample.rss_kb / 1024) as nat),
        ),
        contains_text(
            stage_line(name, sample, prev_hwm_kb),
            decimal((sample.hwm_kb / 1024) as nat),
        ),
        prev_hwm_kb <= sample.hwm_kb ==> contains_text(
            stage_line(name, sample, prev_hwm_kb),
            decimal(((sample.hwm_kb - prev_hwm_kb) / 1024) as nat),
        ),
        prev_hwm_kb > sample.hwm_kb ==> contains_text(
            stage_line(name, sample, prev_hwm_kb),
            decimal(0),
        ),
{
    let line = stage_line(name, sample, prev_hwm_kb);
    let rss = decimal((sample.rss_kb / 1024) as nat);
    let hwm = decimal((sample.hwm_kb / 1024) as nat);
    let delta = decimal(rise(prev_hwm_kb, sample.hwm_kb) / 1024);
    let name_at = "read-stage "@.len() as int;
    assert(line.subrange(name_at, name_at + name.len()) =~= name);
    let rss_end = name_at + padded_right(name, 28).len() + " rss="@.len() + padded_left(
        rss,
        6,
    ).len();
    assert(line.subrange(rss_end - rss.len(), rss_end - rss.len() + rss.len()) =~= rss);
    let hwm_end = rss_end + " MiB  hwm="@.len() + padded_left(hwm, 6).len();
    assert(line.subrange(hwm_end - hwm.len(), hwm_end - hwm.len() + hwm.len()) =~= hwm);
    let delta_end = hwm_end + " MiB  hwm_delta=+"@.len() + padded_left(delta, 5).len();
    assert(line.subrange(delta_end - delta.len(), delta_end - delta.len() + delta.len())
        =~= delta);
}

} // verus!
