//! Process-wide benchmark aggregator: the best observed USB throughput (or
//! the latest failure) per physical port.
//!
//! Throughput is carried in hundredths of a megabyte per second, so the
//! usual two-decimal display text is exact.

use vstd::prelude::*;

use crate::numfmt::{dec_seq, dec_u64, dec_two_digits, two_digit_seq};

verus! {

/// The fixed, closed set of physical ports a board exposes:
/// {USB 2.0, USB 3.2 Gen 2} x {USB-A, USB-C} x {Left, Right}.
#[derive(Clone, Copy, Debug, PartialEq, Eq, Structural)]
pub enum Port {
    Usb2ALeft,
    Usb2ARight,
    Usb2CLeft,
    Usb2CRight,
    Usb3ALeft,
    Usb3ARight,
    Usb3CLeft,
    Usb3CRight,
}

/// How many ports there are.
pub open spec fn port_count() -> int {
    8
}

/// The slot a port's sample occupies in the aggregator.
pub open spec fn port_slot(p: Port) -> int {
    match p {
        Port::Usb2ALeft => 0,
        Port::Usb2ARight => 1,
        Port::Usb2CLeft => 2,
        Port::Usb2CRight => 3,
        Port::Usb3ALeft => 4,
        Port::Usb3ARight => 5,
        Port::Usb3CLeft => 6,
        Port::Usb3CRight => 7,
    }
}

/// The textual descriptor of a port.
pub open spec fn port_desc_seq(p: Port) -> Seq<char> {
    match p {
        Port::Usb2ALeft => "USB 2.0: USB-A Left"@,
        Port::Usb2ARight => "USB 2.0: USB-A Right"@,
        Port::Usb2CLeft => "USB 2.0: USB-C Left"@,
        Port::Usb2CRight => "USB 2.0: USB-C Right"@,
        Port::Usb3ALeft => "USB 3.2 Gen 2: USB-A Left"@,
        Port::Usb3ARight => "USB 3.2 Gen 2: USB-A Right"@,
        Port::Usb3CLeft => "USB 3.2 Gen 2: USB-C Left"@,
        Port::Usb3CRight => "USB 3.2 Gen 2: USB-C Right"@,
    }
}

impl Port {
    /// Exec twin of `port_slot`.
    pub fn slot(self) -> (i: usize)
        ensures
            i == port_slot(self),
    {
        match self {
            Port::Usb2ALeft => 0,
            Port::Usb2ARight => 1,
            Port::Usb2CLeft => 2,
            Port::Usb2CRight => 3,
            Port::Usb3ALeft => 4,
            Port::Usb3ARight => 5,
            Port::Usb3CLeft => 6,
            Port::Usb3CRight => 7,
        }
    }

    /// The port's textual descriptor.
    pub fn description(self) -> (s: &'static str)
        ensures
            s@ == port_desc_seq(self),
    {
        match self {
            Port::Usb2ALeft => "USB 2.0: USB-A Left",
            Port::Usb2ARight => "USB 2.0: USB-A Right",
            Port::Usb2CLeft => "USB 2.0: USB-C Left",
            Port::Usb2CRight => "USB 2.0: USB-C Right",
            Port::Usb3ALeft => "USB 3.2 Gen 2: USB-A Left",
            Port::Usb3ARight => "USB 3.2 Gen 2: USB-A Right",
            Port::Usb3CLeft => "USB 3.2 Gen 2: USB-C Left",
            Port::Usb3CRight => "USB 3.2 Gen 2: USB-C Right",
        }
    }
}

/// Every port, in slot order.
pub open spec fn all_ports_seq() -> Seq<Port> {
    seq![
        Port::Usb2ALeft,
        Port::Usb2ARight,
        Port::Usb2CLeft,
        Port::Usb2CRight,
        Port::Usb3ALeft,
        Port::Usb3ARight,
        Port::Usb3CLeft,
        Port::Usb3CRight,
    ]
}

/// Exec twin of `all_ports_seq`.
pub fn all_ports() -> (v: Vec<Port>)
    ensures
        v@ == all_ports_seq(),
{
    let v = vec![
        Port::Usb2ALeft,
        Port::Usb2ARight,
        Port::Usb2CLeft,
        Port::Usb2CRight,
        Port::Usb3ALeft,
        Port::Usb3ARight,
        Port::Usb3CLeft,
        Port::Usb3CRight,
    ];
    proof {
        assert(v@ =~= all_ports_seq());
    }
    v
}

/// One benchmark outcome for one port: a throughput in hundredths of MB/s,
/// or the failure text the hardware call reported.
pub type BenchResult = Result<u64, String>;

/// The mathematical value of a benchmark outcome.
pub open spec fn sample_view(s: BenchResult) -> Result<u64, Seq<char>> {
    match s {
        Ok(v) => Ok(v),
        Err(e) => Err(e@),
    }
}

/// The text shown before any benchmark has run.
pub open spec fn no_bench_text() -> Seq<char> {
    "no benchmarks performed"@
}

/// The state every port starts in, and returns to on reset.
pub open spec fn initial_sample() -> Result<u64, Seq<char>> {
    Err(no_bench_text())
}

/// The aggregator state after a reset, whatever it held before.
pub open spec fn reset_state(m: Map<Port, Result<u64, Seq<char>>>) -> Map<
    Port,
    Result<u64, Seq<char>>,
> {
    Map::new(|p: Port| true, |p: Port| initial_sample())
}

/// The "keep the better result" policy for one port:
/// a stored success only gives way to a larger success, and a stored
/// failure is always overwritten by the latest outcome.
pub open spec fn merge_one(
    stored: Result<u64, Seq<char>>,
    fresh: Result<u64, Seq<char>>,
) -> Result<u64, Seq<char>> {
    match stored {
        Ok(v) => match fresh {
            Ok(w) => if w > v {
                Ok(w)
            } else {
                Ok(v)
            },
            Err(_) => stored,
        },
        Err(_) => fresh,
    }
}

/// The aggregator state after one full report has been merged, port by
/// port in report order.
pub open spec fn apply_report(
    m: Map<Port, Result<u64, Seq<char>>>,
    report: Seq<(Port, BenchResult)>,
) -> Map<Port, Result<u64, Seq<char>>>
    decreases report.len(),
{
    if report.len() == 0 {
        m
    } else {
        let prev = apply_report(m, report.drop_last());
        let (p, s) = report.last();
        prev.insert(p, merge_one(prev[p], sample_view(s)))
    }
}

/// The display text for one port's stored sample: `"<value> MB/s"` for a
/// success, the failure text otherwise.
pub open spec fn sample_text(s: Result<u64, Seq<char>>) -> Seq<char> {
    match s {
        Ok(v) => dec_seq((v as nat) / 100) + "."@ + two_digit_seq((v as nat) % 100) + " MB/s"@,
        Err(e) => e,
    }
}

/// Best-of-N benchmark results per port, owned by one service object and
/// mutated only through its exclusive-access methods.
pub struct BenchmarkState {
    samples: Vec<BenchResult>,
}

impl View for BenchmarkState {
    type V = Map<Port, Result<u64, Seq<char>>>;

    closed spec fn view(&self) -> Map<Port, Result<u64, Seq<char>>> {
        Map::new(|p: Port| true, |p: Port| sample_view(self.samples@[port_slot(p)]))
    }
}

impl BenchmarkState {
    /// One slot per port.
    pub closed spec fn wf(&self) -> bool {
        self.samples@.len() == port_count()
    }

    /// A fresh aggregator: no benchmark performed on any port.
    pub fn new() -> (s: Self)
        ensures
            s.wf(),
            s@ =~= reset_state(Map::empty()),
    {
        let mut samples: Vec<BenchResult> = Vec::new();
        let mut i: usize = 0;
        while i < 8
            invariant
                i <= 8,
                samples@.len() == i,
                forall|j: int| 0 <= j < i ==> sample_view(samples@[j]) == initial_sample(),
            decreases 8 - i,
        {
            samples.push(Err(String::from_str("no benchmarks performed")));
            i = i + 1;
        }
        let s = BenchmarkState { samples };
        proof {
            assert(s@ =~= reset_state(Map::empty()));
        }
        s
    }

    /// Restores every port to "no benchmark performed".
    pub fn reset(&mut self)
        requires
            old(self).wf(),
        ensures
            final(self).wf(),
            final(self)@ =~= reset_state(old(self)@),
    {
        *self = Self::new();
    }

    /// The stored outcome for one port.
    pub fn stored(&self, p: Port) -> (r: &BenchResult)
        requires
            self.wf(),
        ensures
            sample_view(*r) == self@[p],
    {
        &self.samples[p.slot()]
    }

    /// Merges one fresh outcome for one port under the
    /// "keep the better result" policy; every other port is untouched.
    pub fn merge_sample(&mut self, p: Port, fresh: BenchResult)
        requires
            old(self).wf(),
        ensures
            final(self).wf(),
            final(self)@ =~= old(self)@.insert(p, merge_one(old(self)@[p], sample_view(fresh))),
    {
        let slot = p.slot();
        let replace: bool = match &self.samples[slot] {
            Ok(v) => match &fresh {
                Ok(w) => *w > *v,
                Err(_) => false,
            },
            Err(_) => true,
        };
        if replace {
            self.samples.set(slot, fresh);
        }
        proof {
            assert(forall|q: Port, r: Port| port_slot(q) == port_slot(r) ==> q == r);
            assert(final(self)@ =~= old(self)@.insert(
                p,
                merge_one(old(self)@[p], sample_view(fresh)),
            ));
        }
    }

    /// Merges one full report, front to back, one port at a time, so a
    /// concurrent reader never sees a structurally invalid port set.
    pub fn merge(&mut self, report: Vec<(Port, BenchResult)>)
        requires
            old(self).wf(),
        ensures
            final(self).wf(),
            final(self)@ =~= apply_report(old(self)@, report@),
    {
        let ghost full_report: Seq<(Port, BenchResult)> = report@;
        let mut report = report;
        let ghost done: int = 0;
        while report.len() > 0
            invariant
                self.wf(),
                0 <= done <= full_report.len(),
                report@ =~= full_report.subrange(done, full_report.len() as int),
                self@ =~= apply_report(old(self)@, full_report.take(done)),
            decreases report.len(),
        {
            let (p, s) = report.remove(0);
            proof {
                assert(full_report[done] == (p, s));
            }
            self.merge_sample(p, s);
            proof {
                assert(full_report.take(done + 1).drop_last() =~= full_report.take(done));
                assert(full_report.take(done + 1).last() == (p, s));
                assert(self@ =~= apply_report(old(self)@, full_report.take(done + 1)));
                done = done + 1;
                assert(report@ =~= full_report.subrange(done, full_report.len() as int));
            }
        }
        proof {
            assert(full_report.take(full_report.len() as int) =~= full_report);
        }
    }

    /// The display text for one port, derived from the stored sample.
    pub fn port_text(&self, p: Port) -> (s: String)
        requires
            self.wf(),
        ensures
            s@ == sample_text(self@[p]),
    {
        match &self.samples[p.slot()] {
            Ok(v) => {
                let mut s = dec_u64(*v / 100);
                s.append(".");
                let frac = dec_two_digits(*v % 100);
                s.append(frac.as_str());
                s.append(" MB/s");
                proof {
                    assert(s@ =~= sample_text(self@[p]));
                }
                s
            },
            Err(e) => e.clone(),
        }
    }
}

/// The message shown on every port when a benchmark invocation fails
/// wholesale; no port state is updated then, and the caller may retry.
pub fn bench_failure_text(err: &String) -> (s: String)
    ensures
        s@ == "Benchmark failed to run: "@ + err@,
{
    let mut s = String::from_str("Benchmark failed to run: ");
    s.append(err.as_str());
    proof {
        assert(s@ =~= "Benchmark failed to run: "@ + err@);
    }
    s
}

/// The port set is closed: whatever has been merged, the aggregator always
/// holds exactly the eight known ports, never more and never fewer.
pub proof fn lemma_port_set_closed(s: BenchmarkState)
    ensures
        forall|p: Port| s@.dom().contains(p),
        s@.dom() =~= all_ports_seq().to_set(),
{
    assert forall|p: Port| all_ports_seq().to_set().contains(p) by {
        let ports = all_ports_seq();
        match p {
            Port::Usb2ALeft => assert(ports[0] == p),
            Port::Usb2ARight => assert(ports[1] == p),
            Port::Usb2CLeft => assert(ports[2] == p),
            Port::Usb2CRight => assert(ports[3] == p),
            Port::Usb3ALeft => assert(ports[4] == p),
            Port::Usb3ARight => assert(ports[5] == p),
            Port::Usb3CLeft => assert(ports[6] == p),
            Port::Usb3CRight => assert(ports[7] == p),
        }
    }
}

/// Resetting is idempotent: a second reset leaves exactly the state the
/// first one produced.
pub proof fn lemma_reset_idempotent(m: Map<Port, Result<u64, Seq<char>>>)
    ensures
        reset_state(reset_state(m)) == reset_state(m),
{
}

/// Merging keeps the best: a stored success `v` merged with a fresh
/// success `w` stores the larger of the two, and a fresh failure never
/// displaces a stored success.
pub proof fn lemma_merge_keeps_best(v: u64, w: u64, e: Seq<char>)
    ensures
        merge_one(Ok(v), Ok(w)) == Result::<u64, Seq<char>>::Ok(
            if w > v {
                w
            } else {
                v
            },
        ),
        merge_one(Ok(v), Err(e)) == Result::<u64, Seq<char>>::Ok(v),
{
}

/// A stored failure always gives way to the latest outcome, whatever it is.
pub proof fn lemma_failure_overwritten(e: Seq<char>, fresh: Result<u64, Seq<char>>)
    ensures
        merge_one(Err(e), fresh) == fresh,
{
}

} // verus!
