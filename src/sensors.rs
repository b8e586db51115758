use crate::graphs::{copy_series, Series};
use crate::ratio::Rational;
use vstd::prelude::*;

verus! {

/// One temperature reading, in hundredths of a degree.
pub struct TempReading {
    pub label: String,
    pub value: i64,
}

/// The readings worth showing: those above zero, in the order given.
pub open spec fn positive_readings(rs: Seq<TempReading>) -> Seq<(Seq<char>, i64)>
    decreases rs.len(),
{
    if rs.len() == 0 {
        Seq::empty()
    } else {
        let init = positive_readings(rs.drop_last());
        if rs.last().value > 0 {
            init.push((rs.last().label@, rs.last().value))
        } else {
            init
        }
    }
}

/// The views of a sequence of readings.
pub open spec fn reading_models(rs: Seq<TempReading>) -> Seq<(Seq<char>, i64)> {
    rs.map_values(|r: TempReading| (r.label@, r.value))
}

/// The temperature list.
pub struct TempWidget {
    pub update_interval: Rational,
    pub fahrenheit: bool,
    pub temp_threshold: i64,
    pub temp_data: Vec<TempReading>,
}

impl TempWidget {
    /// How often the widget refreshes, in seconds.
    pub fn get_update_interval(&self) -> (r: Rational)
        ensures
            r == self.update_interval,
    {
        self.update_interval
    }

    /// A temperature list refreshed every five seconds, showing hot above 80 degrees.
    pub fn new(fahrenheit: bool) -> (r: TempWidget)
        ensures
            r.update_interval.numer == 5,
            r.update_interval.denom == 1,
            r.fahrenheit == fahrenheit,
            r.temp_threshold == 8000,
            r.temp_data@.len() == 0,
    {
        TempWidget {
            update_interval: Rational::from_integer(5),
            fahrenheit,
            temp_threshold: 8000,
            temp_data: Vec::new(),
        }
    }

    /// Keeps the readings above zero, in the order given.
    pub fn update(&mut self, readings: Vec<TempReading>)
        ensures
            reading_models(final(self).temp_data@) == positive_readings(readings@),
            final(self).update_interval == old(self).update_interval,
            final(self).fahrenheit == old(self).fahrenheit,
            final(self).temp_threshold == old(self).temp_threshold,
    {
        let mut kept: Vec<TempReading> = Vec::new();
        let mut i: usize = 0;
        assert(readings@.take(0) =~= Seq::<TempReading>::empty());
        while i < readings.len()
            invariant
                i <= readings@.len(),
                reading_models(kept@) == positive_readings(readings@.take(i as int)),
            decreases readings@.len() - i,
        {
            let r = &readings[i];
            assert(readings@.take(i + 1).drop_last() =~= readings@.take(i as int));
            assert(readings@.take(i + 1).last() == readings@[i as int]);
            if r.value > 0 {
                kept.push(TempReading { label: r.label.clone(), value: r.value });
                assert(reading_models(kept@) =~= positive_readings(readings@.take(i + 1)));
            }
            i = i + 1;
        }
        assert(readings@.take(readings@.len() as int) =~= readings@);
        self.temp_data = kept;
    }

    /// Whether a reading is shown as hot: at or above the threshold.
    pub fn is_hot(&self, value: i64) -> (r: bool)
        ensures
            r == (value >= self.temp_threshold),
    {
        value >= self.temp_threshold
    }
}

/// One battery's charge, in hundredths of a percent.
pub struct BatteryReading {
    pub model: String,
    pub charge: u64,
}

/// A battery's charge history.
pub struct BatteryData {
    pub model: String,
    pub series: Series,
}

/// The view of battery histories: (model, samples).
pub open spec fn battery_models(d: Seq<BatteryData>) -> Seq<(Seq<char>, Seq<(u64, u64)>)> {
    d.map_values(|b: BatteryData| (b.model@, b.series@))
}

/// Some history is of battery `model`.
pub open spec fn has_model(d: Seq<(Seq<char>, Seq<(u64, u64)>)>, model: Seq<char>) -> bool {
    exists|i: int| 0 <= i < d.len() && #[trigger] d[i].0 == model
}

/// No two histories are of the same battery.
pub open spec fn models_unique(d: Seq<(Seq<char>, Seq<(u64, u64)>)>) -> bool {
    forall|i: int, j: int| 0 <= i < j < d.len() ==> d[i].0 != d[j].0
}

/// The history of battery `model`, empty if there is none.
pub open spec fn history_of(d: Seq<(Seq<char>, Seq<(u64, u64)>)>, model: Seq<char>) -> Seq<(u64, u64)> {
    if has_model(d, model) {
        d[choose|i: int| 0 <= i < d.len() && #[trigger] d[i].0 == model].1
    } else {
        Seq::empty()
    }
}

/// Adds reading `r`, taken at update `count`, to the histories built so far in `acc`; a
/// battery met for the first time continues its history from `previous`.
pub open spec fn add_reading(
    previous: Seq<(Seq<char>, Seq<(u64, u64)>)>,
    acc: Seq<(Seq<char>, Seq<(u64, u64)>)>,
    r: BatteryReading,
    count: u64,
) -> Seq<(Seq<char>, Seq<(u64, u64)>)> {
    if has_model(acc, r.model@) {
        let j = choose|j: int| 0 <= j < acc.len() && #[trigger] acc[j].0 == r.model@;
        acc.update(j, (r.model@, acc[j].1.push((count, r.charge))))
    } else {
        acc.push((r.model@, history_of(previous, r.model@).push((count, r.charge))))
    }
}

/// The histories after the readings `rs` at update `count`: one per battery read, in the
/// order first read. Batteries not read are gone.
pub open spec fn read_batteries(
    previous: Seq<(Seq<char>, Seq<(u64, u64)>)>,
    rs: Seq<BatteryReading>,
    count: u64,
) -> Seq<(Seq<char>, Seq<(u64, u64)>)>
    decreases rs.len(),
{
    if rs.len() == 0 {
        Seq::empty()
    } else {
        add_reading(previous, read_batteries(previous, rs.drop_last(), count), rs.last(), count)
    }
}

/// The battery chart: one line per battery present.
pub struct BatteryWidget {
    pub update_interval: Rational,
    pub update_count: u64,
    pub battery_data: Vec<BatteryData>,
}

fn find_battery(data: &Vec<BatteryData>, model: &String) -> (r: Option<usize>)
    ensures
        match r {
            Some(i) => i < data@.len() && data@[i as int].model@ == model@,
            None => !has_model(battery_models(data@), model@),
        },
{
    let mut i: usize = 0;
    while i < data.len()
        invariant
            i <= data@.len(),
            forall|j: int| 0 <= j < i ==> #[trigger] data@[j].model@ != model@,
        decreases data@.len() - i,
    {
        if data[i].model == *model {
            return Some(i);
        }
        i = i + 1;
    }
    proof {
        assert forall|j: int| 0 <= j < data@.len() implies #[trigger] battery_models(data@)[j].0 != model@ by {
            assert(battery_models(data@)[j].0 == data@[j].model@);
        }
    }
    None
}

impl BatteryWidget {
    /// How often the widget refreshes, in seconds.
    pub fn get_update_interval(&self) -> (r: Rational)
        ensures
            r == self.update_interval,
    {
        self.update_interval
    }

    /// No two histories are of the same battery.
    pub open spec fn wf(&self) -> bool {
        models_unique(battery_models(self.battery_data@))
    }

    /// A battery chart refreshed every minute.
    pub fn new() -> (r: BatteryWidget)
        ensures
            r.wf(),
            r.update_interval.numer == 60,
            r.update_interval.denom == 1,
            r.update_count == 0,
            r.battery_data@.len() == 0,
    {
        BatteryWidget { update_interval: Rational::from_integer(60), update_count: 0, battery_data: Vec::new() }
    }

    /// Records a reading of every battery present: each charge is appended to its battery's
    /// history, and batteries no longer present are dropped.
    pub fn update(&mut self, readings: &Vec<BatteryReading>)
        requires
            old(self).wf(),
            old(self).update_count < u64::MAX,
        ensures
            final(self).wf(),
            final(self).update_interval == old(self).update_interval,
            final(self).update_count == old(self).update_count + 1,
            battery_models(final(self).battery_data@) == read_batteries(
                battery_models(old(self).battery_data@),
                readings@,
                final(self).update_count,
            ),
    {
        self.update_count = self.update_count + 1;
        let count = self.update_count;
        let ghost previous = battery_models(self.battery_data@);
        let mut next: Vec<BatteryData> = Vec::new();
        let mut i: usize = 0;
        assert(readings@.take(0) =~= Seq::<BatteryReading>::empty());
        while i < readings.len()
            invariant
                i <= readings@.len(),
                previous == battery_models(self.battery_data@),
                models_unique(previous),
                count == self.update_count,
                battery_models(next@) == read_batteries(previous, readings@.take(i as int), count),
                models_unique(battery_models(next@)),
            decreases readings@.len() - i,
        {
            let r = &readings[i];
            let ghost acc = battery_models(next@);
            assert(readings@.take(i + 1).drop_last() =~= readings@.take(i as int));
            assert(readings@.take(i + 1).last() == readings@[i as int]);
            match find_battery(&next, &r.model) {
                Some(j) => {
                    let mut series = copy_series(&next[j].series);
                    series.push((count, r.charge));
                    proof {
                        assert(acc[j as int].0 == r.model@);
                        let c = choose|c: int| 0 <= c < acc.len() && #[trigger] acc[c].0 == r.model@;
                        assert(c == j);
                    }
                    next.set(j, BatteryData { model: r.model.clone(), series });
                    assert(battery_models(next@) =~= add_reading(previous, acc, *r, count));
                },
                None => {
                    let mut series = match find_battery(&self.battery_data, &r.model) {
                        Some(j) => {
                            proof {
                                assert(previous[j as int].0 == r.model@);
                                let c = choose|c: int| 0 <= c < previous.len() && #[trigger] previous[c].0 == r.model@;
                                assert(c == j);
                            }
                            copy_series(&self.battery_data[j].series)
                        },
                        None => Vec::new(),
                    };
                    series.push((count, r.charge));
                    next.push(BatteryData { model: r.model.clone(), series });
                    assert(battery_models(next@) =~= add_reading(previous, acc, *r, count));
                },
            }
            i = i + 1;
        }
        assert(readings@.take(readings@.len() as int) =~= readings@);
        self.battery_data = next;
    }
}

} // verus!
