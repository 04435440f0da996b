//! CPU frequency control: the CPUs found, their common frequency limits, and
//! which caps are worth writing to `scaling_max_freq`.
use vstd::prelude::*;
use vstd::string::*;
use crate::text::{all_digits, parse_u64, starts_with_text, trim, trimmed, unsigned_text_value};
use crate::order::{sort_texts, texts_of, texts_sorted};

verus! {

#[derive(Debug)]
pub enum CpuFreqError {
    /// A frequency file could not be read.
    ReadError(std::io::Error),
    /// A frequency file did not hold a number.
    ParseError,
    /// No CPU with a `scaling_max_freq` file was found.
    NoCpusFound,
    /// A frequency could not be written; the path and the reason.
    WriteError(String),
}

impl CpuFreqError {
    /// The message that describes the error, without the outside error's own text.
    pub fn kind_message(&self) -> (r: String)
        ensures
            r@ == match self {
                CpuFreqError::ReadError(_) => "Failed to read CPU frequency info"@,
                CpuFreqError::ParseError => "Failed to parse frequency value"@,
                CpuFreqError::NoCpusFound => "No CPUs found"@,
                CpuFreqError::WriteError(m) => "Failed to write frequency: "@ + m@,
            },
    {
        match self {
            CpuFreqError::ReadError(_) => String::from_str("Failed to read CPU frequency info"),
            CpuFreqError::ParseError => String::from_str("Failed to parse frequency value"),
            CpuFreqError::NoCpusFound => String::from_str("No CPUs found"),
            CpuFreqError::WriteError(m) => String::from_str("Failed to write frequency: ").concat(
                m.as_str(),
            ),
        }
    }
}

/// The file in a CPU's cpufreq directory that caps its frequency.
pub const SCALING_MAX_FREQ_FILE: &'static str = "scaling_max_freq";

/// The file in a CPU's cpufreq directory that holds its hardware minimum.
pub const CPUINFO_MIN_FREQ_FILE: &'static str = "cpuinfo_min_freq";

/// The file in a CPU's cpufreq directory that holds its hardware maximum.
pub const CPUINFO_MAX_FREQ_FILE: &'static str = "cpuinfo_max_freq";

/// One CPU that has a `scaling_max_freq` file.
pub struct CpuInfo {
    /// Path of the CPU's `scaling_max_freq` file.
    pub scaling_max: String,
    /// Hardware minimum frequency (kHz), from `cpuinfo_min_freq`
    pub min_freq: u64,
    /// Hardware maximum frequency (kHz), from `cpuinfo_max_freq`
    pub max_freq: u64,
}

/// What reading a frequency file gives: its number, or the error.
pub open spec fn freq_file_result(content: Result<String, std::io::Error>) -> Result<u64, CpuFreqError> {
    match content {
        Err(e) => Err(CpuFreqError::ReadError(e)),
        Ok(text) => match unsigned_text_value(trimmed(text@), u64::MAX as int) {
            Some(v) => Ok(v as u64),
            None => Err(CpuFreqError::ParseError),
        },
    }
}

/// CPU frequency controller
pub struct CpuFreq {
    /// Paths to scaling_max_freq for each CPU
    cpu_paths: Vec<String>,
    /// Hardware minimum frequency (kHz)
    min_freq: u64,
    /// Hardware maximum frequency (kHz)
    max_freq: u64,
    /// Last written frequency (for filtering writes)
    last_written: Option<u64>,
}

/// The state of a `CpuFreq`.
pub struct CpuFreqState {
    pub cpu_paths: Seq<Seq<char>>,
    pub min_freq: u64,
    pub max_freq: u64,
    pub last_written: Option<u64>,
}

impl View for CpuFreq {
    type V = CpuFreqState;

    closed spec fn view(&self) -> CpuFreqState {
        CpuFreqState {
            cpu_paths: texts_of(self.cpu_paths@),
            min_freq: self.min_freq,
            max_freq: self.max_freq,
            last_written: self.last_written,
        }
    }
}

/// The smallest hardware minimum of the CPUs, `u64::MAX` when there are none.
pub open spec fn lowest_min(cpus: Seq<CpuInfo>) -> u64
    decreases cpus.len(),
{
    if cpus.len() == 0 {
        u64::MAX
    } else {
        let rest = lowest_min(cpus.drop_last());
        if cpus.last().min_freq < rest {
            cpus.last().min_freq
        } else {
            rest
        }
    }
}

/// The largest hardware maximum of the CPUs, 0 when there are none.
pub open spec fn highest_max(cpus: Seq<CpuInfo>) -> u64
    decreases cpus.len(),
{
    if cpus.len() == 0 {
        0
    } else {
        let rest = highest_max(cpus.drop_last());
        if cpus.last().max_freq > rest {
            cpus.last().max_freq
        } else {
            rest
        }
    }
}

/// The `scaling_max_freq` paths of the CPUs, in the order given.
pub open spec fn scaling_paths(cpus: Seq<CpuInfo>) -> Seq<Seq<char>> {
    cpus.map_values(|i: CpuInfo| i.scaling_max@)
}

/// The combined maximum bounds every CPU's maximum and is one of them; the
/// combined minimum lies below every CPU's minimum and is one of them.
pub proof fn lemma_combined_limits(cpus: Seq<CpuInfo>)
    requires
        cpus.len() > 0,
    ensures
        forall|i: int| 0 <= i < cpus.len() ==> #[trigger] cpus[i].max_freq <= highest_max(cpus),
        exists|i: int| 0 <= i < cpus.len() && #[trigger] cpus[i].max_freq == highest_max(cpus),
        forall|i: int| 0 <= i < cpus.len() ==> lowest_min(cpus) <= #[trigger] cpus[i].min_freq,
        exists|i: int| 0 <= i < cpus.len() && #[trigger] cpus[i].min_freq == lowest_min(cpus),
    decreases cpus.len(),
{
    let n = cpus.len() - 1;
    let pre = cpus.drop_last();
    if n == 0 {
        assert(cpus[0].max_freq == highest_max(cpus));
        assert(cpus[0].min_freq == lowest_min(cpus));
    } else {
        lemma_combined_limits(pre);
        assert forall|i: int| 0 <= i < cpus.len() implies #[trigger] cpus[i].max_freq <= highest_max(
            cpus,
        ) by {
            if i < n {
                assert(cpus[i] == pre[i]);
            }
        }
        assert forall|i: int| 0 <= i < cpus.len() implies lowest_min(cpus) <= #[trigger] cpus[i].min_freq by {
            if i < n {
                assert(cpus[i] == pre[i]);
            }
        }
        if cpus[n].max_freq > highest_max(pre) {
            assert(cpus[n].max_freq == highest_max(cpus));
        } else {
            let k = choose|k: int| 0 <= k < pre.len() && #[trigger] pre[k].max_freq == highest_max(pre);
            assert(cpus[k] == pre[k]);
            assert(cpus[k].max_freq == highest_max(cpus));
        }
        if cpus[n].min_freq < lowest_min(pre) {
            assert(cpus[n].min_freq == lowest_min(cpus));
        } else {
            let k = choose|k: int| 0 <= k < pre.len() && #[trigger] pre[k].min_freq == lowest_min(pre);
            assert(cpus[k] == pre[k]);
            assert(cpus[k].min_freq == lowest_min(cpus));
        }
    }
}

/// A directory name of the form `cpu` followed only by decimal digits.
pub open spec fn is_cpu_name(name: Seq<char>) -> bool {
    &&& name.len() >= 3
    &&& name.subrange(0, 3) == "cpu"@
    &&& all_digits(name.subrange(3, name.len() as int))
}

/// `freq` held to `[lo, hi]`, as `u64::clamp` holds it.
pub open spec fn clamp(freq: u64, lo: u64, hi: u64) -> u64 {
    if freq < lo {
        lo
    } else if freq > hi {
        hi
    } else {
        freq
    }
}

/// A frequency read as an `i64`, as `freq as i64` reads it.
pub open spec fn as_i64(f: u64) -> int {
    if f <= i64::MAX {
        f as int
    } else {
        f - 0x1_0000_0000_0000_0000
    }
}

/// The change from the last written frequency that is too small to write:
/// a write is owed only for a change of more than 5% of the hardware maximum.
pub open spec fn too_small_change(s: CpuFreqState, freq: u64) -> bool {
    s.last_written matches Some(last) && {
        let d = as_i64(freq) - as_i64(last);
        (if d >= 0 {
            d
        } else {
            -d
        }) <= s.max_freq / 20
    }
}

/// The frequency that a request to cap the CPUs at `freq` writes, or `None`
/// when the filter holds the write back: a change of 5% or less is held back
/// unless the temperature has crossed a threshold.
pub open spec fn planned_write(s: CpuFreqState, freq: u64, threshold_crossed: bool) -> Option<u64> {
    let f = clamp(freq, s.min_freq, s.max_freq);
    if !threshold_crossed && too_small_change(s, f) {
        None
    } else {
        Some(f)
    }
}

/// The requests that `set_max_freq` handles without a panic: the limits are
/// in order (`u64::clamp` asserts it) and the difference to the last write
/// fits an `i64`.
pub open spec fn plan_defined(s: CpuFreqState, freq: u64) -> bool {
    &&& s.min_freq <= s.max_freq
    &&& (s.last_written matches Some(last) ==> i64::MIN <= as_i64(
        clamp(freq, s.min_freq, s.max_freq),
    ) - as_i64(last) <= i64::MAX)
}

/// Whether a directory name names a CPU: `cpu` then nothing but digits.
pub fn is_cpu_dir(name: &str) -> (r: bool)
    ensures
        r == is_cpu_name(name@),
{
    if !starts_with_text(name, "cpu") {
        proof {
            reveal_strlit("cpu");
        }
        return false;
    }
    proof {
        reveal_strlit("cpu");
    }
    let n = name.unicode_len();
    let mut i: usize = 3;
    while i < n
        invariant
            n == name@.len(),
            3 <= i <= n,
            forall|k: int| 3 <= k < i ==> '0' <= #[trigger] name@[k] && name@[k] <= '9',
        decreases n - i,
    {
        let c = name.get_char(i);
        if !('0' <= c && c <= '9') {
            assert(name@.subrange(3, n as int)[i - 3] == c);
            return false;
        }
        i = i + 1;
    }
    assert forall|k: int| 0 <= k < name@.subrange(3, n as int).len() implies crate::text::is_digit(
        #[trigger] name@.subrange(3, n as int)[k],
    ) by {
        assert(name@.subrange(3, n as int)[k] == name@[k + 3]);
    }
    true
}

impl CpuFreq {
    /// The controller for the CPUs found: their paths in text order, the
    /// lowest hardware minimum (`cpuinfo_min_freq`) and the highest hardware
    /// maximum (`cpuinfo_max_freq`), as `detect_cpu` reads them.
    pub fn from_cpus(cpus: Vec<CpuInfo>) -> (r: Result<Self, CpuFreqError>)
        ensures
            cpus@.len() == 0 ==> r matches Err(CpuFreqError::NoCpusFound),
            cpus@.len() > 0 ==> (r matches Ok(c) && {
                &&& c@.min_freq == lowest_min(cpus@)
                &&& c@.max_freq == highest_max(cpus@)
                &&& forall|i: int| 0 <= i < cpus@.len() ==> #[trigger] cpus@[i].max_freq
                    <= c@.max_freq && c@.min_freq <= cpus@[i].min_freq
                &&& exists|i: int| 0 <= i < cpus@.len() && #[trigger] cpus@[i].max_freq
                    == c@.max_freq
                &&& exists|i: int| 0 <= i < cpus@.len() && #[trigger] cpus@[i].min_freq
                    == c@.min_freq
                &&& c@.last_written is None
                &&& texts_sorted(c@.cpu_paths)
                &&& c@.cpu_paths.to_multiset() == scaling_paths(cpus@).to_multiset()
            }),
    {
        if cpus.len() == 0 {
            return Err(CpuFreqError::NoCpusFound);
        }
        let mut cpu_paths: Vec<String> = Vec::new();
        let mut min_freq = u64::MAX;
        let mut max_freq = 0u64;
        let mut i: usize = 0;
        while i < cpus.len()
            invariant
                i <= cpus.len(),
                min_freq == lowest_min(cpus@.subrange(0, i as int)),
                max_freq == highest_max(cpus@.subrange(0, i as int)),
                texts_of(cpu_paths@) == scaling_paths(cpus@.subrange(0, i as int)),
                cpu_paths@.len() == i,
            decreases cpus.len() - i,
        {
            let info = &cpus[i];
            proof {
                let pre = cpus@.subrange(0, i as int);
                let next = cpus@.subrange(0, i + 1);
                assert(next.drop_last() =~= pre);
                assert(next.last() == cpus@[i as int]);
            }
            if info.min_freq < min_freq {
                min_freq = info.min_freq;
            }
            if info.max_freq > max_freq {
                max_freq = info.max_freq;
            }
            let ghost old_paths = cpu_paths@;
            cpu_paths.push(info.scaling_max.clone());
            proof {
                assert(cpu_paths@ =~= old_paths.push(cpus@[i as int].scaling_max));
                assert(cpus@.subrange(0, i + 1) =~= cpus@.subrange(0, i as int).push(cpus@[i as int]));
                let t = texts_of(cpu_paths@);
                let want = scaling_paths(cpus@.subrange(0, i + 1));
                assert(t.len() == i + 1 && want.len() == i + 1);
                assert forall|k: int| 0 <= k < t.len() implies t[k] == want[k] by {
                    assert(t[k] == cpu_paths@[k]@);
                    assert(want[k] == cpus@.subrange(0, i + 1)[k].scaling_max@);
                    assert(cpus@.subrange(0, i + 1)[k] == cpus@[k]);
                    if k < i {
                        assert(cpu_paths@[k] == old_paths[k]);
                        assert(texts_of(old_paths)[k] == old_paths[k]@);
                        assert(cpus@.subrange(0, i as int)[k] == cpus@[k]);
                        assert(scaling_paths(cpus@.subrange(0, i as int))[k] == cpus@[k].scaling_max@);
                    } else {
                        assert(cpu_paths@[k] == cpus@[k].scaling_max);
                    }
                }
                assert(t =~= want);
            }
            i = i + 1;
        }
        assert(cpus@.subrange(0, cpus.len() as int) =~= cpus@);
        let sorted = sort_texts(cpu_paths);
        proof {
            lemma_combined_limits(cpus@);
        }
        Ok(CpuFreq { cpu_paths: sorted, min_freq, max_freq, last_written: None })
    }

    /// A frequency file's content read as kHz.
    pub fn read_freq_file(content: Result<String, std::io::Error>) -> (r: Result<
        u64,
        CpuFreqError,
    >)
        ensures
            r == freq_file_result(content),
    {
        match content {
            Err(e) => Err(CpuFreqError::ReadError(e)),
            Ok(text) => match parse_u64(trim(text.as_str())) {
                Some(v) => Ok(v),
                None => Err(CpuFreqError::ParseError),
            },
        }
    }

    /// One entry of the CPU directory: `None` unless it is a CPU (`cpu`
    /// followed by digits) with a cpufreq directory and a `scaling_max_freq`
    /// file; else its limits, read from the contents of its
    /// `cpuinfo_min_freq` and `cpuinfo_max_freq` files (`files` is `None`
    /// when the cpufreq directory or `scaling_max_freq` is missing). The
    /// minimum is read first, and its error wins.
    pub fn detect_cpu(
        name: &str,
        scaling_max: String,
        files: Option<(Result<String, std::io::Error>, Result<String, std::io::Error>)>,
    ) -> (r: Result<Option<CpuInfo>, CpuFreqError>)
        ensures
            !is_cpu_name(name@) ==> r matches Ok(None),
            is_cpu_name(name@) ==> match files {
                None => r matches Ok(None),
                Some((min_content, max_content)) => match freq_file_result(min_content) {
                    Err(e) => r == Err::<Option<CpuInfo>, CpuFreqError>(e),
                    Ok(lo) => match freq_file_result(max_content) {
                        Err(e) => r == Err::<Option<CpuInfo>, CpuFreqError>(e),
                        Ok(hi) => r matches Ok(Some(info)) && info.scaling_max@ == scaling_max@
                            && info.min_freq == lo && info.max_freq == hi,
                    },
                },
            },
    {
        if !is_cpu_dir(name) {
            return Ok(None);
        }
        let (min_content, max_content) = match files {
            None => {
                return Ok(None);
            },
            Some(f) => f,
        };
        let min_freq = match Self::read_freq_file(min_content) {
            Ok(v) => v,
            Err(e) => {
                return Err(e);
            },
        };
        match Self::read_freq_file(max_content) {
            Ok(max_freq) => Ok(Some(CpuInfo { scaling_max, min_freq, max_freq })),
            Err(e) => Err(e),
        }
    }

    /// Get hardware minimum frequency (kHz)
    pub fn min_freq(&self) -> (r: u64)
        ensures
            r == self@.min_freq,
    {
        self.min_freq
    }

    /// Get hardware maximum frequency (kHz)
    pub fn max_freq(&self) -> (r: u64)
        ensures
            r == self@.max_freq,
    {
        self.max_freq
    }

    /// Get number of CPUs
    pub fn cpu_count(&self) -> (r: usize)
        ensures
            r == self@.cpu_paths.len(),
    {
        self.cpu_paths.len()
    }

    /// The `scaling_max_freq` paths, in the order they are written.
    pub fn cpu_paths(&self) -> (r: &Vec<String>)
        ensures
            texts_of(r@) == self@.cpu_paths,
    {
        &self.cpu_paths
    }

    /// Whether `set_max_freq` can take this request.
    pub fn can_set_max_freq(&self, freq: u64) -> (r: bool)
        ensures
            r == plan_defined(self@, freq),
    {
        if self.min_freq > self.max_freq {
            return false;
        }
        let f = Self::clamped(freq, self.min_freq, self.max_freq);
        if let Some(last) = self.last_written {
            let d = Self::signed(f) - Self::signed(last);
            return -0x8000_0000_0000_0000i128 <= d && d <= 0x7fff_ffff_ffff_ffffi128;
        }
        true
    }

    fn clamped(freq: u64, lo: u64, hi: u64) -> (r: u64)
        requires
            lo <= hi,
        ensures
            r == clamp(freq, lo, hi),
    {
        if freq < lo {
            lo
        } else if freq > hi {
            hi
        } else {
            freq
        }
    }

    fn signed(f: u64) -> (r: i128)
        ensures
            r == as_i64(f),
    {
        if f <= 0x7fff_ffff_ffff_ffff {
            f as i128
        } else {
            f as i128 - 0x1_0000_0000_0000_0000i128
        }
    }

    /// Set maximum frequency for all CPUs (kHz): the frequency to write to
    /// every CPU, clamped to the hardware range, or `None` when it lies
    /// within 5% of the hardware maximum of the last write and the
    /// temperature crossed no threshold. Nothing is recorded until
    /// `record_written` confirms the write.
    pub fn set_max_freq(&self, freq: u64, threshold_crossed: bool) -> (r: Option<u64>)
        requires
            plan_defined(self@, freq),
        ensures
            r == planned_write(self@, freq, threshold_crossed),
    {
        // Clamp to valid range
        let freq = Self::clamped(freq, self.min_freq, self.max_freq);
        if threshold_crossed {
            return Some(freq);
        }

        // Filter: only write if changed by more than 5%
        if let Some(last) = self.last_written {
            let threshold = self.max_freq / 20;  // 5%
            let d = Self::signed(freq) - Self::signed(last);
            let diff: u64 = if d >= 0 {
                d as u64
            } else {
                (0 - d) as u64
            };
            if diff <= threshold {
                return None;
            }
        }
        Some(freq)
    }

    /// Notes that `freq` was written to every CPU.
    pub fn record_written(&mut self, freq: u64)
        ensures
            final(self)@ == (CpuFreqState { last_written: Some(freq), ..old(self)@ }),
    {
        self.last_written = Some(freq);
    }

    /// Restore maximum frequency to hardware max: forgets the last write, so
    /// that the write of the returned hardware maximum (the highest
    /// `cpuinfo_max_freq` of the CPUs) is not filtered.
    pub fn restore_max(&mut self) -> (r: u64)
        ensures
            final(self)@ == (CpuFreqState { last_written: None, ..old(self)@ }),
            r == old(self)@.max_freq,
    {
        let max = self.max_freq;
        self.last_written = None;  // Force write
        max
    }
}

/// Every frequency written lies within the hardware range.
pub proof fn lemma_written_in_range(s: CpuFreqState, freq: u64, threshold_crossed: bool)
    requires
        s.min_freq <= s.max_freq,
        planned_write(s, freq, threshold_crossed) is Some,
    ensures
        s.min_freq <= planned_write(s, freq, threshold_crossed)->0 <= s.max_freq,
{
}

/// After `restore_max`, the hardware maximum is always written.
pub proof fn lemma_restore_forces_write(s: CpuFreqState, threshold_crossed: bool)
    requires
        s.last_written is None,
        s.min_freq <= s.max_freq,
    ensures
        planned_write(s, s.max_freq, threshold_crossed) == Some(s.max_freq),
{
}

/// A request that clamps to the frequency last written is not written again,
/// unless the temperature crossed a threshold.
pub proof fn lemma_same_frequency_filtered(s: CpuFreqState, freq: u64)
    requires
        s.last_written == Some(clamp(freq, s.min_freq, s.max_freq)),
    ensures
        planned_write(s, freq, false) is None,
{
}

/// A crossed threshold is always written, however small the change.
pub proof fn lemma_crossing_always_written(s: CpuFreqState, freq: u64)
    ensures
        planned_write(s, freq, true) == Some(clamp(freq, s.min_freq, s.max_freq)),
{
}

} // verus!
