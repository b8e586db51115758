use crate::net::delta;
use crate::ratio::Rational;
use vstd::prelude::*;

verus! {

/// One reading of a mounted partition: cumulative bytes read and written, usage in
/// hundredths of a percent, free bytes.
pub struct PartitionSample {
    pub name: String,
    pub mountpoint: String,
    pub bytes_read: u64,
    pub bytes_written: u64,
    pub used_percent: u64,
    pub bytes_free: u64,
}

/// A partition as shown: its last reading and the bytes moved since the one before.
pub struct Partition {
    pub name: String,
    pub mountpoint: String,
    pub bytes_read: u64,
    pub bytes_written: u64,
    pub bytes_read_recently: u64,
    pub bytes_written_recently: u64,
    pub used_percent: u64,
    pub bytes_free: u64,
}

/// The mathematical value of a [`Partition`].
pub struct PartitionModel {
    pub name: Seq<char>,
    pub mountpoint: Seq<char>,
    pub bytes_read: u64,
    pub bytes_written: u64,
    pub bytes_read_recently: u64,
    pub bytes_written_recently: u64,
    pub used_percent: u64,
    pub bytes_free: u64,
}

impl View for Partition {
    type V = PartitionModel;

    open spec fn view(&self) -> PartitionModel {
        PartitionModel {
            name: self.name@,
            mountpoint: self.mountpoint@,
            bytes_read: self.bytes_read,
            bytes_written: self.bytes_written,
            bytes_read_recently: self.bytes_read_recently,
            bytes_written_recently: self.bytes_written_recently,
            used_percent: self.used_percent,
            bytes_free: self.bytes_free,
        }
    }
}

/// The views of a sequence of partitions.
pub open spec fn partition_models(ps: Seq<Partition>) -> Seq<PartitionModel> {
    ps.map_values(|p: Partition| p@)
}

/// Some partition of `ps` is called `name`.
pub open spec fn has_partition(ps: Seq<PartitionModel>, name: Seq<char>) -> bool {
    exists|i: int| 0 <= i < ps.len() && #[trigger] ps[i].name == name
}

/// No two partitions of `ps` share a name.
pub open spec fn partition_names_unique(ps: Seq<PartitionModel>) -> bool {
    forall|i: int, j: int| 0 <= i < j < ps.len() ==> ps[i].name != ps[j].name
}

/// The partition that `s` reads, with the bytes moved since `previous` read it (none if
/// `previous` has no partition of that name).
pub open spec fn refreshed(previous: Seq<PartitionModel>, s: PartitionSample) -> PartitionModel {
    let (r, w) = if has_partition(previous, s.name@) {
        let i = choose|i: int| 0 <= i < previous.len() && #[trigger] previous[i].name == s.name@;
        (
            delta(s.bytes_read as int, previous[i].bytes_read as int) as u64,
            delta(s.bytes_written as int, previous[i].bytes_written as int) as u64,
        )
    } else {
        (0u64, 0u64)
    };
    PartitionModel {
        name: s.name@,
        mountpoint: s.mountpoint@,
        bytes_read: s.bytes_read,
        bytes_written: s.bytes_written,
        bytes_read_recently: r,
        bytes_written_recently: w,
        used_percent: s.used_percent,
        bytes_free: s.bytes_free,
    }
}

/// The partitions after a reading, in the order read; of a partition listed more than
/// once (mounted at several places), the first listing counts.
pub open spec fn read_partitions(previous: Seq<PartitionModel>, samples: Seq<PartitionSample>) -> Seq<PartitionModel>
    decreases samples.len(),
{
    if samples.len() == 0 {
        Seq::empty()
    } else {
        let acc = read_partitions(previous, samples.drop_last());
        if has_partition(acc, samples.last().name@) {
            acc
        } else {
            acc.push(refreshed(previous, samples.last()))
        }
    }
}

/// The disk table: one row per partition.
pub struct DiskWidget {
    pub update_interval: Rational,
    pub partitions: Vec<Partition>,
}

fn find_partition(ps: &Vec<Partition>, name: &String) -> (r: Option<usize>)
    ensures
        match r {
            Some(i) => i < ps@.len() && ps@[i as int].name@ == name@,
            None => !has_partition(partition_models(ps@), name@),
        },
{
    let mut i: usize = 0;
    while i < ps.len()
        invariant
            i <= ps@.len(),
            forall|j: int| 0 <= j < i ==> #[trigger] ps@[j].name@ != name@,
        decreases ps@.len() - i,
    {
        if ps[i].name == *name {
            return Some(i);
        }
        i = i + 1;
    }
    proof {
        assert forall|j: int| 0 <= j < ps@.len() implies #[trigger] partition_models(ps@)[j].name != name@ by {
            assert(partition_models(ps@)[j] == ps@[j]@);
        }
    }
    None
}

impl DiskWidget {
    /// How often the widget refreshes, in seconds.
    pub fn get_update_interval(&self) -> (r: Rational)
        ensures
            r == self.update_interval,
    {
        self.update_interval
    }

    /// Partition names are unique.
    pub open spec fn wf(&self) -> bool {
        partition_names_unique(partition_models(self.partitions@))
    }

    /// A disk table with no partitions yet, refreshed every second.
    pub fn new() -> (r: DiskWidget)
        ensures
            r.wf(),
            r.update_interval.numer == 1,
            r.update_interval.denom == 1,
            r.partitions@.len() == 0,
    {
        DiskWidget { update_interval: Rational::from_integer(1), partitions: Vec::new() }
    }

    /// Takes in a reading of the partitions, in the order the system lists them.
    pub fn update(&mut self, samples: &Vec<PartitionSample>)
        requires
            old(self).wf(),
        ensures
            final(self).wf(),
            final(self).update_interval == old(self).update_interval,
            partition_models(final(self).partitions@) == read_partitions(
                partition_models(old(self).partitions@),
                samples@,
            ),
    {
        let ghost previous = partition_models(self.partitions@);
        let mut next: Vec<Partition> = Vec::new();
        let mut k: usize = 0;
        assert(samples@.take(0) =~= Seq::<PartitionSample>::empty());
        while k < samples.len()
            invariant
                k <= samples@.len(),
                previous == partition_models(self.partitions@),
                partition_names_unique(previous),
                partition_models(next@) == read_partitions(previous, samples@.take(k as int)),
                partition_names_unique(partition_models(next@)),
            decreases samples@.len() - k,
        {
            let s = &samples[k];
            assert(samples@.take(k + 1).drop_last() =~= samples@.take(k as int));
            assert(samples@.take(k + 1).last() == samples@[k as int]);
            let ghost acc = partition_models(next@);
            match find_partition(&next, &s.name) {
                Some(j) => {
                    proof {
                        assert(acc[j as int].name == s.name@);
                        assert(has_partition(acc, s.name@));
                    }
                },
                None => {
                    let (r, w) = match find_partition(&self.partitions, &s.name) {
                        Some(i) => {
                            let p = &self.partitions[i];
                            proof {
                                assert(previous[i as int].name == s.name@);
                                let c = choose|c: int| 0 <= c < previous.len() && #[trigger] previous[c].name == s.name@;
                                assert(c == i);
                            }
                            let r = if s.bytes_read >= p.bytes_read { s.bytes_read - p.bytes_read } else { 0 };
                            let w = if s.bytes_written >= p.bytes_written {
                                s.bytes_written - p.bytes_written
                            } else {
                                0
                            };
                            (r, w)
                        },
                        None => (0, 0),
                    };
                    next.push(Partition {
                        name: s.name.clone(),
                        mountpoint: s.mountpoint.clone(),
                        bytes_read: s.bytes_read,
                        bytes_written: s.bytes_written,
                        bytes_read_recently: r,
                        bytes_written_recently: w,
                        used_percent: s.used_percent,
                        bytes_free: s.bytes_free,
                    });
                    proof {
                        assert(partition_models(next@) =~= acc.push(refreshed(previous, *s)));
                    }
                },
            }
            k = k + 1;
        }
        assert(samples@.take(samples@.len() as int) =~= samples@);
        self.partitions = next;
    }
}

} // verus!
