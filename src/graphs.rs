use crate::ratio::Rational;
use vstd::prelude::*;

verus! {

/// How much one zoom step widens or narrows a graph's time window.
pub const HORIZONTAL_SCALE_DELTA: u64 = 25;

/// The time window that a graph starts with, in samples.
pub const DEFAULT_SCALE: u64 = 100;

/// CPU counts up to this show one line per CPU by default; more show the average.
pub const MAX_PERCPU_DEFAULT: usize = 8;

/// A graph's samples: (update number, value in hundredths of a percent).
pub type Series = Vec<(u64, u64)>;

/// The newest `max` entries of `s` (all of them if there are fewer).
pub open spec fn keep_last(s: Seq<(u64, u64)>, max: nat) -> Seq<(u64, u64)> {
    if s.len() > max {
        s.subrange(s.len() - max, s.len() as int)
    } else {
        s
    }
}

/// `data` with `sample` appended and the oldest samples dropped so that at most `max` remain.
pub fn appended(data: &Series, sample: (u64, u64), max: u64) -> (r: Series)
    ensures
        r@ == keep_last(data@.push(sample), max as nat),
{
    let ghost s = data@.push(sample);
    if max == 0 {
        let empty: Series = Vec::new();
        assert(empty@ =~= keep_last(s, 0));
        return empty;
    }
    let n = data.len();
    let skip: usize = if n as u64 >= max {
        let m = max as usize;
        n - (m - 1)
    } else {
        0
    };
    let mut r: Series = Vec::new();
    let mut i: usize = skip;
    while i < n
        invariant
            n == data@.len(),
            skip <= i <= n,
            skip == if s.len() > max { s.len() - max } else { 0 },
            r@ == s.subrange(skip as int, i as int),
            s == data@.push(sample),
        decreases n - i,
    {
        r.push(data[i]);
        i = i + 1;
    }
    assert(s[n as int] == sample);
    assert(s.subrange(skip as int, n as int).push(sample) =~= s.subrange(skip as int, s.len() as int));
    r.push(sample);
    assert(r@ =~= keep_last(s, max as nat));
    r
}

/// The window after one step in: one step narrower, unless that would leave none.
pub open spec fn zoom_in(scale: u64) -> int {
    if scale > HORIZONTAL_SCALE_DELTA {
        scale - HORIZONTAL_SCALE_DELTA
    } else {
        scale as int
    }
}

/// The window after one step out: one step wider, saturating at the largest value.
pub open spec fn zoom_out(scale: u64) -> int {
    if scale <= u64::MAX - HORIZONTAL_SCALE_DELTA {
        scale + HORIZONTAL_SCALE_DELTA
    } else {
        u64::MAX as int
    }
}

/// Narrows the window by one step, never below one step.
fn zoomed_in(scale: u64) -> (r: u64)
    ensures
        r == zoom_in(scale),
{
    if scale > HORIZONTAL_SCALE_DELTA {
        scale - HORIZONTAL_SCALE_DELTA
    } else {
        scale
    }
}

/// Widens the window by one step, saturating at the largest value.
fn zoomed_out(scale: u64) -> (r: u64)
    ensures
        r == zoom_out(scale),
{
    if scale <= u64::MAX - HORIZONTAL_SCALE_DELTA {
        scale + HORIZONTAL_SCALE_DELTA
    } else {
        u64::MAX
    }
}

/// The CPU graph: the average and per-CPU usage over the last `max_scale` updates.
pub struct CpuWidget {
    pub update_interval: Rational,
    pub horizontal_scale: u64,
    pub max_scale: u64,
    pub update_count: u64,
    pub cpu_count: usize,
    pub show_average: bool,
    pub show_percpu: bool,
    pub average_data: Series,
    pub percpu_data: Vec<Series>,
}

impl CpuWidget {
    /// How often the widget refreshes, in seconds.
    pub fn get_update_interval(&self) -> (r: Rational)
        ensures
            r == self.update_interval,
    {
        self.update_interval
    }

    /// A CPU graph refreshed every `update_interval` seconds. When neither line kind is
    /// asked for, up to eight CPUs show one line each and more show the average.
    pub fn new(update_interval: Rational, show_average: bool, show_percpu: bool, cpu_count: usize) -> (r: CpuWidget)
        ensures
            r.update_interval == update_interval,
            r.horizontal_scale == DEFAULT_SCALE,
            r.max_scale == DEFAULT_SCALE,
            r.update_count == 0,
            r.cpu_count == cpu_count,
            r.show_average == (show_average || (!show_percpu && cpu_count > MAX_PERCPU_DEFAULT)),
            r.show_percpu == (show_percpu || (!show_average && cpu_count <= MAX_PERCPU_DEFAULT)),
            r.average_data@ == seq![(0u64, 0u64)],
            r.percpu_data@.len() == if r.show_percpu { cpu_count as nat } else { 0 },
            forall|i: int| 0 <= i < r.percpu_data@.len() ==> #[trigger] r.percpu_data@[i]@ == seq![(0u64, 0u64)],
    {
        let mut average = show_average;
        let mut percpu = show_percpu;
        if !(show_average || show_percpu) {
            if cpu_count <= MAX_PERCPU_DEFAULT {
                percpu = true;
            } else {
                average = true;
            }
        }
        let mut percpu_data: Vec<Series> = Vec::new();
        if percpu {
            let mut i: usize = 0;
            while i < cpu_count
                invariant
                    i <= cpu_count,
                    percpu_data@.len() == i,
                    forall|j: int| 0 <= j < i ==> #[trigger] percpu_data@[j]@ == seq![(0u64, 0u64)],
                decreases cpu_count - i,
            {
                let first: Series = vec![(0u64, 0u64)];
                assert(first@ =~= seq![(0u64, 0u64)]);
                percpu_data.push(first);
                i = i + 1;
            }
        }
        let average_data: Series = vec![(0u64, 0u64)];
        assert(average_data@ =~= seq![(0u64, 0u64)]);
        CpuWidget {
            update_interval,
            horizontal_scale: DEFAULT_SCALE,
            max_scale: DEFAULT_SCALE,
            update_count: 0,
            cpu_count,
            show_average: average,
            show_percpu: percpu,
            average_data,
            percpu_data,
        }
    }

    /// Narrows the time window by one step, unless that would leave no window.
    pub fn scale_in(&mut self)
        ensures
            final(self).horizontal_scale == zoom_in(old(self).horizontal_scale),
            final(self).max_scale == old(self).max_scale,
            final(self).update_count == old(self).update_count,
            final(self).average_data@ == old(self).average_data@,
            final(self).percpu_data@ == old(self).percpu_data@,
    {
        self.horizontal_scale = zoomed_in(self.horizontal_scale);
    }

    /// Widens the time window by one step; samples are then kept for the widest window
    /// used so far.
    pub fn scale_out(&mut self)
        ensures
            final(self).horizontal_scale == zoom_out(old(self).horizontal_scale),
            final(self).max_scale == if old(self).max_scale >= final(self).horizontal_scale {
                old(self).max_scale
            } else {
                final(self).horizontal_scale
            },
            final(self).update_count == old(self).update_count,
            final(self).average_data@ == old(self).average_data@,
            final(self).percpu_data@ == old(self).percpu_data@,
    {
        self.horizontal_scale = zoomed_out(self.horizontal_scale);
        if self.horizontal_scale > self.max_scale {
            self.max_scale = self.horizontal_scale;
        }
    }

    /// Records one sample: the average usage and the usage of each CPU, in hundredths of
    /// a percent. Per-CPU values are taken only when there is one for each CPU.
    pub fn update(&mut self, average: u64, percpu: &Vec<u64>)
        requires
            old(self).update_count < u64::MAX,
        ensures
            final(self).update_count == old(self).update_count + 1,
            final(self).max_scale == old(self).max_scale,
            final(self).horizontal_scale == old(self).horizontal_scale,
            final(self).show_average == old(self).show_average,
            final(self).show_percpu == old(self).show_percpu,
            final(self).cpu_count == old(self).cpu_count,
            final(self).average_data@ == if old(self).show_average {
                keep_last(old(self).average_data@.push((final(self).update_count, average)), old(self).max_scale as nat)
            } else {
                old(self).average_data@
            },
            final(self).percpu_data@.len() == old(self).percpu_data@.len(),
            forall|i: int|
                0 <= i < old(self).percpu_data@.len() ==> #[trigger] final(self).percpu_data@[i]@ == if old(self).show_percpu
                    && percpu@.len() == old(self).cpu_count && i < percpu@.len() {
                    keep_last(old(self).percpu_data@[i]@.push((final(self).update_count, percpu@[i])), old(self).max_scale as nat)
                } else {
                    old(self).percpu_data@[i]@
                },
    {
        self.update_count = self.update_count + 1;
        let count = self.update_count;
        if self.show_average {
            self.average_data = appended(&self.average_data, (count, average), self.max_scale);
        }
        if self.show_percpu && percpu.len() == self.cpu_count {
            let ghost before = self.percpu_data@;
            let mut updated: Vec<Series> = Vec::new();
            let mut i: usize = 0;
            while i < self.percpu_data.len()
                invariant
                    i <= before.len(),
                    self.percpu_data@ == before,
                    updated@.len() == i,
                    forall|j: int| 0 <= j < i ==> #[trigger] updated@[j]@ == if j < percpu@.len() {
                        keep_last(before[j]@.push((count, percpu@[j])), self.max_scale as nat)
                    } else {
                        before[j]@
                    },
                decreases before.len() - i,
            {
                if i < percpu.len() {
                    let next = appended(&self.percpu_data[i], (count, percpu[i]), self.max_scale);
                    updated.push(next);
                } else {
                    let same = copy_series(&self.percpu_data[i]);
                    updated.push(same);
                }
                i = i + 1;
            }
            self.percpu_data = updated;
        }
    }
}

/// A copy of a series.
pub fn copy_series(data: &Series) -> (r: Series)
    ensures
        r@ == data@,
{
    let mut r: Series = Vec::new();
    let mut i: usize = 0;
    while i < data.len()
        invariant
            i <= data@.len(),
            r@ == data@.subrange(0, i as int),
        decreases data@.len() - i,
    {
        r.push(data[i]);
        i = i + 1;
    }
    assert(r@ =~= data@);
    r
}

/// Memory or swap: totals in bytes and the usage history.
pub struct MemData {
    pub total: u64,
    pub used: u64,
    pub percents: Series,
}

/// One reading of memory or swap: totals in bytes, usage in hundredths of a percent.
#[derive(Clone, Copy, Debug)]
pub struct MemSample {
    pub total: u64,
    pub used: u64,
    pub percent: u64,
}

/// The memory graph: main memory, and swap while there is any.
pub struct MemWidget {
    pub update_interval: Rational,
    pub horizontal_scale: u64,
    pub max_scale: u64,
    pub update_count: u64,
    pub main: MemData,
    pub swap: Option<MemData>,
}

impl MemWidget {
    /// How often the widget refreshes, in seconds.
    pub fn get_update_interval(&self) -> (r: Rational)
        ensures
            r == self.update_interval,
    {
        self.update_interval
    }

    /// A memory graph refreshed every `update_interval` seconds.
    pub fn new(update_interval: Rational) -> (r: MemWidget)
        ensures
            r.update_interval == update_interval,
            r.horizontal_scale == DEFAULT_SCALE,
            r.max_scale == DEFAULT_SCALE,
            r.update_count == 0,
            r.main.total == 0,
            r.main.used == 0,
            r.main.percents@ == seq![(0u64, 0u64)],
            r.swap is None,
    {
        let percents: Series = vec![(0u64, 0u64)];
        assert(percents@ =~= seq![(0u64, 0u64)]);
        MemWidget {
            update_interval,
            horizontal_scale: DEFAULT_SCALE,
            max_scale: DEFAULT_SCALE,
            update_count: 0,
            main: MemData { total: 0, used: 0, percents },
            swap: None,
        }
    }

    /// Narrows the time window by one step, unless that would leave no window.
    pub fn scale_in(&mut self)
        ensures
            final(self).horizontal_scale == zoom_in(old(self).horizontal_scale),
            final(self).max_scale == old(self).max_scale,
            final(self).update_count == old(self).update_count,
    {
        self.horizontal_scale = zoomed_in(self.horizontal_scale);
    }

    /// Widens the time window by one step; samples are then kept for the widest window
    /// used so far.
    pub fn scale_out(&mut self)
        ensures
            final(self).horizontal_scale == zoom_out(old(self).horizontal_scale),
            final(self).max_scale == if old(self).max_scale >= final(self).horizontal_scale {
                old(self).max_scale
            } else {
                final(self).horizontal_scale
            },
            final(self).update_count == old(self).update_count,
    {
        self.horizontal_scale = zoomed_out(self.horizontal_scale);
        if self.horizontal_scale > self.max_scale {
            self.max_scale = self.horizontal_scale;
        }
    }

    /// Records one reading of main memory and of swap. Swap with a total of zero is
    /// treated as absent; swap that appears starts its history at zero one update back.
    pub fn update(&mut self, main: MemSample, swap: MemSample)
        requires
            old(self).update_count < u64::MAX,
        ensures
            final(self).update_count == old(self).update_count + 1,
            final(self).max_scale == old(self).max_scale,
            final(self).horizontal_scale == old(self).horizontal_scale,
            final(self).main.total == main.total,
            final(self).main.used == main.used,
            final(self).main.percents@ == keep_last(
                old(self).main.percents@.push((final(self).update_count, main.percent)),
                old(self).max_scale as nat,
            ),
            swap.total == 0 ==> final(self).swap is None,
            swap.total != 0 ==> {
                let earlier = match old(self).swap {
                    Some(d) => d.percents@,
                    None => seq![(old(self).update_count, 0u64)],
                };
                &&& final(self).swap is Some
                &&& final(self).swap->0.total == swap.total
                &&& final(self).swap->0.used == swap.used
                &&& final(self).swap->0.percents@ == keep_last(
                    earlier.push((final(self).update_count, swap.percent)),
                    old(self).max_scale as nat,
                )
            },
    {
        let previous = self.update_count;
        self.update_count = previous + 1;
        let count = self.update_count;
        let percents = appended(&self.main.percents, (count, main.percent), self.max_scale);
        self.main = MemData { total: main.total, used: main.used, percents };
        if swap.total == 0 {
            self.swap = None;
        } else {
            let earlier: Series = match &self.swap {
                Some(d) => copy_series(&d.percents),
                None => {
                    let first: Series = vec![(previous, 0u64)];
                    assert(first@ =~= seq![(previous, 0u64)]);
                    first
                },
            };
            let percents = appended(&earlier, (count, swap.percent), self.max_scale);
            self.swap = Some(MemData { total: swap.total, used: swap.used, percents });
        }
    }
}

} // verus!
