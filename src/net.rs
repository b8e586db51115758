use crate::process::same_text;
use crate::ratio::Rational;
use vstd::prelude::*;

verus! {

/// The cumulative byte counters of one network interface.
pub struct NicCounters {
    pub name: String,
    pub bytes_recv: u64,
    pub bytes_sent: u64,
}

/// Whether the interface `name` counts towards the interface setting `interface`: `all`
/// counts every interface but the VPN tunnel `tun0` (whose traffic the hardware interfaces
/// carry already); any other setting counts the interface of that name.
pub open spec fn counted(interface: Seq<char>, name: Seq<char>) -> bool {
    (interface == "all"@ && name != "tun0"@) || name == interface
}

/// `x`, or the largest `u64` if it is larger.
pub open spec fn saturated(x: int) -> int {
    if x > u64::MAX {
        u64::MAX as int
    } else {
        x
    }
}

/// Bytes received over the counted interfaces.
pub open spec fn recv_total(cs: Seq<NicCounters>, interface: Seq<char>) -> int
    decreases cs.len(),
{
    if cs.len() == 0 {
        0
    } else {
        recv_total(cs.drop_last(), interface) + if counted(interface, cs.last().name@) {
            cs.last().bytes_recv as int
        } else {
            0
        }
    }
}

/// Bytes sent over the counted interfaces.
pub open spec fn sent_total(cs: Seq<NicCounters>, interface: Seq<char>) -> int
    decreases cs.len(),
{
    if cs.len() == 0 {
        0
    } else {
        sent_total(cs.drop_last(), interface) + if counted(interface, cs.last().name@) {
            cs.last().bytes_sent as int
        } else {
            0
        }
    }
}

/// `a - b`, or zero if `b` is larger (a counter that went back, as when an interface left).
pub open spec fn delta(a: int, b: int) -> int {
    if a >= b {
        a - b
    } else {
        0
    }
}

/// The network graph: bytes per update received and sent over the chosen interfaces.
pub struct NetWidget {
    pub update_interval: Rational,
    pub interface: String,
    pub show_bits: bool,
    pub bytes_recv: Vec<u64>,
    pub bytes_sent: Vec<u64>,
    pub total_bytes_recv: u64,
    pub total_bytes_sent: u64,
}

fn add_saturating(acc: u64, x: u64) -> (r: u64)
    ensures
        r == if acc as int + x as int > u64::MAX { u64::MAX as int } else { acc as int + x as int },
{
    if acc > u64::MAX - x {
        u64::MAX
    } else {
        acc + x
    }
}

impl NetWidget {
    /// How often the widget refreshes, in seconds.
    pub fn get_update_interval(&self) -> (r: Rational)
        ensures
            r == self.update_interval,
    {
        self.update_interval
    }

    /// A network graph over `interface` (`all` for every interface), refreshed every second.
    pub fn new(interface: String, show_bits: bool) -> (r: NetWidget)
        ensures
            r.update_interval.numer == 1,
            r.update_interval.denom == 1,
            r.interface@ == interface@,
            r.show_bits == show_bits,
            r.bytes_recv@.len() == 0,
            r.bytes_sent@.len() == 0,
            r.total_bytes_recv == 0,
            r.total_bytes_sent == 0,
    {
        NetWidget {
            update_interval: Rational::from_integer(1),
            interface,
            show_bits,
            bytes_recv: Vec::new(),
            bytes_sent: Vec::new(),
            total_bytes_recv: 0,
            total_bytes_sent: 0,
        }
    }

    /// Takes in the interfaces' cumulative counters: the totals become the sums over the
    /// counted interfaces (saturating), and the bytes since the last update are recorded,
    /// zero on the first update.
    pub fn update(&mut self, counters: &Vec<NicCounters>)
        ensures
            final(self).interface@ == old(self).interface@,
            final(self).show_bits == old(self).show_bits,
            final(self).total_bytes_recv == saturated(recv_total(counters@, old(self).interface@)),
            final(self).total_bytes_sent == saturated(sent_total(counters@, old(self).interface@)),
            final(self).bytes_recv@ == old(self).bytes_recv@.push(
                if old(self).total_bytes_recv == 0 {
                    0
                } else {
                    delta(final(self).total_bytes_recv as int, old(self).total_bytes_recv as int) as u64
                },
            ),
            final(self).bytes_sent@ == old(self).bytes_sent@.push(
                if old(self).total_bytes_recv == 0 {
                    0
                } else {
                    delta(final(self).total_bytes_sent as int, old(self).total_bytes_sent as int) as u64
                },
            ),
    {
        let all = same_text(self.interface.as_str(), "all");
        let mut recv: u64 = 0;
        let mut sent: u64 = 0;
        let mut i: usize = 0;
        let ghost iface = self.interface@;
        let ghost cs = counters@;
        assert(cs.take(0) =~= Seq::<NicCounters>::empty());
        while i < counters.len()
            invariant
                i <= cs.len(),
                cs == counters@,
                iface == self.interface@,
                all == (iface == "all"@),
                recv == saturated(recv_total(cs.take(i as int), iface)),
                sent == saturated(sent_total(cs.take(i as int), iface)),
            decreases cs.len() - i,
        {
            let c = &counters[i];
            let name = c.name.as_str();
            let take = (all && !same_text(name, "tun0")) || same_text(name, self.interface.as_str());
            assert(cs.take(i + 1).drop_last() =~= cs.take(i as int));
            assert(cs.take(i + 1).last() == cs[i as int]);
            proof {
                let pr = recv_total(cs.take(i as int), iface);
                let ps = sent_total(cs.take(i as int), iface);
                assert(pr >= 0 && ps >= 0) by {
                    lemma_totals_nonneg(cs.take(i as int), iface);
                }
            }
            if take {
                recv = add_saturating(recv, c.bytes_recv);
                sent = add_saturating(sent, c.bytes_sent);
            }
            i = i + 1;
        }
        assert(cs.take(cs.len() as int) =~= cs);
        if self.total_bytes_recv == 0 {
            self.bytes_recv.push(0);
            self.bytes_sent.push(0);
        } else {
            let dr = if recv >= self.total_bytes_recv { recv - self.total_bytes_recv } else { 0 };
            let ds = if sent >= self.total_bytes_sent { sent - self.total_bytes_sent } else { 0 };
            self.bytes_recv.push(dr);
            self.bytes_sent.push(ds);
        }
        self.total_bytes_recv = recv;
        self.total_bytes_sent = sent;
    }
}

proof fn lemma_totals_nonneg(cs: Seq<NicCounters>, interface: Seq<char>)
    ensures
        recv_total(cs, interface) >= 0,
        sent_total(cs, interface) >= 0,
    decreases cs.len(),
{
    if cs.len() > 0 {
        lemma_totals_nonneg(cs.drop_last(), interface);
    }
}

} // verus!
