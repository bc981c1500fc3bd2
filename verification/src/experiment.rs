use vstd::prelude::*;
use crate::distributions::{ConsumingDistribution, Draw, ProducingDistribution};
use crate::events::{is_earliest, Event};
use crate::stats::{Observation, SysState, SysStateView};
use crate::system::{finished_by, System, SystemView};

verus! {

/// One simulation to run: a system and how long to watch it.
#[derive(Debug, Clone, Copy, PartialEq, Eq, Structural)]
pub struct Experiment {
    /// Number of service nodes.
    pub nodes_number: usize,
    /// Places in the waiting line.
    pub queue_capacity: usize,
    /// The horizon: the run ends once the clock has reached this tick.
    pub seconds: u64,
    /// Where gaps between arrivals come from.
    pub producing_distribution: ProducingDistribution,
    /// Where service times come from.
    pub consuming_distribution: ConsumingDistribution,
}

/// Why an experiment cannot be run.
#[derive(Debug, Clone, Copy, PartialEq, Eq, Structural)]
pub enum ConfigError {
    /// The system has no service node.
    NoNodes,
    /// The expected gap between arrivals is not positive.
    NoArrivalGap,
    /// The expected service time is not positive.
    NoServiceTime,
    /// Nodes and waiting places together are more than can be counted.
    TooLarge,
}

impl Experiment {
    /// The first reason for which the experiment cannot be run, if any.
    pub open spec fn fault(&self) -> Option<ConfigError> {
        if self.nodes_number == 0 {
            Some(ConfigError::NoNodes)
        } else if !self.producing_distribution.well_formed() {
            Some(ConfigError::NoArrivalGap)
        } else if !self.consuming_distribution.well_formed() {
            Some(ConfigError::NoServiceTime)
        } else if self.nodes_number + self.queue_capacity > usize::MAX {
            Some(ConfigError::TooLarge)
        } else {
            None
        }
    }

    /// Checks that the experiment can be run: it has a node, both expected
    /// times are positive, and its size can be counted.
    pub fn validate(&self) -> (checked: Result<(), ConfigError>)
        ensures
            match checked {
                Ok(_) => self.fault() is None,
                Err(error) => self.fault() == Some(error),
            },
    {
        if self.nodes_number == 0 {
            Err(ConfigError::NoNodes)
        } else if !self.producing_distribution.is_well_formed() {
            Err(ConfigError::NoArrivalGap)
        } else if !self.consuming_distribution.is_well_formed() {
            Err(ConfigError::NoServiceTime)
        } else if self.queue_capacity > usize::MAX - self.nodes_number {
            Err(ConfigError::TooLarge)
        } else {
            Ok(())
        }
    }
}

/// Index `x` is launched before index `y`: its horizon is longer, or as long
/// and it comes first.
pub open spec fn launched_before(horizons: Seq<u64>, x: int, y: int) -> bool {
    horizons[x] > horizons[y] || (horizons[x] == horizons[y] && x < y)
}

/// `order` lists every index of `horizons` once, longest horizon first, and
/// indices of equal horizons in rising order.
pub open spec fn is_launch_order(horizons: Seq<u64>, order: Seq<usize>) -> bool {
    &&& order.len() == horizons.len()
    &&& forall|k: int| 0 <= k < order.len() ==> (#[trigger] order[k]) < horizons.len()
    &&& forall|index: usize| index < horizons.len() ==> order.contains(index)
    &&& forall|a: int, b: int|
        0 <= a < b < order.len() ==> launched_before(
            horizons,
            (#[trigger] order[a]) as int,
            (#[trigger] order[b]) as int,
        )
}

/// The order in which to launch experiments with the given horizons: the
/// longest first, so that no long run starts last.
pub fn longest_first(horizons: &Vec<u64>) -> (order: Vec<usize>)
    ensures
        is_launch_order(horizons@, order@),
{
    let n: usize = horizons.len();
    let mut order: Vec<usize> = Vec::new();
    let mut i: usize = 0;
    while i < n
        invariant
            n == horizons.len(),
            i <= n,
            order.len() == i,
            forall|k: int| 0 <= k < order.len() ==> (#[trigger] order[k]) < i,
            forall|index: usize| index < i ==> order@.contains(index),
            forall|a: int, b: int|
                0 <= a < b < order.len() ==> launched_before(
                    horizons@,
                    (#[trigger] order[a]) as int,
                    (#[trigger] order[b]) as int,
                ),
        decreases n - i,
    {
        let ghost sorted = order@;
        order.push(i);
        let mut j: usize = i;
        while j > 0 && horizons[order[j - 1]] < horizons[i]
            invariant
                n == horizons.len(),
                i < n,
                j <= i,
                order.len() == i + 1,
                sorted.len() == i,
                forall|k: int| 0 <= k < sorted.len() ==> (#[trigger] sorted[k]) < i,
                forall|index: usize| index < i ==> sorted.contains(index),
                forall|a: int, b: int|
                    0 <= a < b < sorted.len() ==> launched_before(
                        horizons@,
                        (#[trigger] sorted[a]) as int,
                        (#[trigger] sorted[b]) as int,
                    ),
                forall|k: int| 0 <= k <= i && k != j ==> (#[trigger] order[k]) < i,
                forall|k: int| 0 <= k < j ==> order[k] == sorted[k],
                forall|k: int| j < k <= i ==> order[k] == sorted[k - 1],
                forall|k: int| j <= k < i ==> horizons[(#[trigger] sorted[k]) as int] < horizons[i as int],
            decreases j,
        {
            let shifted: usize = order[j - 1];
            order.set(j, shifted);
            j = j - 1;
        }
        order.set(j, i);
        proof {
            let placed = order@;
            assert forall|index: usize| index < i + 1 implies placed.contains(index) by {
                if index < i {
                    assert(sorted.contains(index));
                    let k: int = choose|k: int| 0 <= k < sorted.len() && sorted[k] == index;
                    if k < j {
                        assert(placed[k] == index);
                    } else {
                        assert(placed[k + 1] == index);
                    }
                } else {
                    assert(placed[j as int] == index);
                }
            }
            assert forall|a: int, b: int| 0 <= a < b < placed.len() implies launched_before(
                horizons@,
                (#[trigger] placed[a]) as int,
                (#[trigger] placed[b]) as int,
            ) by {
                let x: int = if a < j { a } else { a - 1 };
                let y: int = if b < j { b } else { b - 1 };
                if a == j {
                    assert(placed[b] == sorted[y]);
                } else if b == j {
                    assert(placed[a] == sorted[a]);
                    if a < j - 1 {
                        assert(launched_before(horizons@, sorted[a] as int, sorted[j - 1] as int));
                    }
                } else {
                    assert(placed[a] == sorted[x]);
                    assert(placed[b] == sorted[y]);
                    assert(launched_before(horizons@, sorted[x] as int, sorted[y] as int));
                }
            }
        }
        i = i + 1;
    }
    order
}

/// One experiment under way: its system, its statistics and its horizon.
#[derive(Debug)]
pub struct Simulation {
    system: System,
    state: SysState,
    seconds: u64,
}

impl Simulation {
    /// The system as the contracts see it.
    pub closed spec fn system(&self) -> SystemView {
        self.system@
    }

    /// The statistics as the contracts see them.
    pub closed spec fn state(&self) -> SysStateView {
        self.state@
    }

    /// The tick at which the run ends.
    pub closed spec fn horizon(&self) -> u64 {
        self.seconds
    }

    /// System and statistics are each in order, and the statistics are
    /// those of the steps taken.
    pub open spec fn wf(&self) -> bool {
        &&& self.system().valid()
        &&& self.state().valid()
        &&& self.state().time == self.system().now
    }

    /// The run is over: the clock has reached the horizon.
    pub open spec fn done(&self) -> bool {
        self.system().now >= self.horizon()
    }

    /// Sets up the run of `experiment`, or says why it cannot be run.
    pub fn new(experiment: Experiment) -> (made: Result<Self, ConfigError>)
        ensures
            match made {
                Ok(simulation) => {
                    &&& experiment.fault() is None
                    &&& simulation.wf()
                    &&& simulation.horizon() == experiment.seconds
                    &&& simulation.state() == SysStateView::empty()
                    &&& simulation.system() == SystemView::initial(
                        experiment.nodes_number as nat,
                        experiment.queue_capacity as nat,
                        experiment.consuming_distribution,
                        experiment.producing_distribution,
                    )
                },
                Err(error) => experiment.fault() == Some(error),
            },
    {
        match experiment.validate() {
            Err(error) => Err(error),
            Ok(_) => Ok(
                Simulation {
                    system: System::new(
                        experiment.nodes_number,
                        experiment.queue_capacity,
                        experiment.consuming_distribution,
                        experiment.producing_distribution,
                    ),
                    state: SysState::new(),
                    seconds: experiment.seconds,
                },
            ),
        }
    }

    /// Whether the run is over.
    pub fn is_done(&self) -> (done: bool)
        ensures
            done == self.done(),
    {
        self.system.current_tick() >= self.seconds
    }

    /// Number of steps taken so far.
    pub fn steps(&self) -> (steps: u64)
        ensures
            steps == self.state().iterations,
    {
        self.state.iterations()
    }

    /// Takes one step unless the run is over, and hands back the statistics
    /// after it: the next row of the run's record.
    pub fn advance(&mut self, opening: Draw, following: Draw) -> (row: Option<SysState>)
        requires
            old(self).wf(),
            old(self).state().iterations < u64::MAX,
        ensures
            final(self).wf(),
            final(self).horizon() == old(self).horizon(),
            old(self).done() ==> row is None && final(self).system() == old(self).system()
                && final(self).state() == old(self).state(),
            !old(self).done() ==> {
                &&& row matches Some(state)
                &&& state@ == final(self).state()
                &&& old(self).system().now <= final(self).system().now
                &&& exists|event: Event|
                    {
                        &&& #[trigger] is_earliest(
                            old(self).system().opened(opening).pending,
                            event,
                        )
                        &&& final(self).system() == old(self).system().after(
                            event,
                            opening,
                            following,
                        )
                        &&& final(self).state() == old(self).state().updated(
                            Observation {
                                time: event.time,
                                requests_in_system: final(self).system().population(),
                                last_finished: finished_by(event),
                            },
                        )
                    }
            },
    {
        if self.system.current_tick() >= self.seconds {
            return None;
        }
        let stats = self.system.next(opening, following);
        self.state.update(stats.current_tick, stats.requests_in_system, stats.last_finished);
        proof {
            let before = old(self).system();
            let event = choose|event: Event|
                {
                    &&& #[trigger] is_earliest(before.opened(opening).pending, event)
                    &&& self.system@ == before.after(event, opening, following)
                    &&& stats.last_finished == finished_by(event)
                    &&& stats.current_tick == event.time
                };
            assert(is_earliest(before.opened(opening).pending, event));
        }
        Some(self.state)
    }
}

} // verus!
