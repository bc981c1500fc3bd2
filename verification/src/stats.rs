use vstd::prelude::*;
use crate::request::Request;

verus! {

/// What one step of a system hands to the statistics.
pub struct Observation {
    /// The tick the clock stands at.
    pub time: u64,
    /// Requests in service or waiting.
    pub requests_in_system: nat,
    /// The request that left in the step, if one did.
    pub last_finished: Option<Request>,
}

/// The running statistics as the contracts see them.
///
/// A mean is kept as an exact fraction: the sum of the samples over their
/// number. The mean of no samples is taken to be zero.
pub struct SysStateView {
    /// Tick of the latest observation.
    pub time: u64,
    /// Requests in the system at the latest observation.
    pub requests_in_system: nat,
    /// Sum of the waiting times of the finished requests.
    pub waiting_total: nat,
    /// Number of finished requests.
    pub finished_requests: nat,
    /// Sum of the observed numbers of requests in the system.
    pub population_total: nat,
    /// Number of observations.
    pub iterations: nat,
}

impl SysStateView {
    /// The statistics of no observations.
    pub open spec fn empty() -> Self {
        SysStateView {
            time: 0,
            requests_in_system: 0,
            waiting_total: 0,
            finished_requests: 0,
            population_total: 0,
            iterations: 0,
        }
    }

    /// The statistics once `seen` has been taken in as well.
    pub open spec fn updated(self, seen: Observation) -> Self {
        SysStateView {
            time: seen.time,
            requests_in_system: seen.requests_in_system,
            waiting_total: match seen.last_finished {
                Some(request) => self.waiting_total + request.wait(),
                None => self.waiting_total,
            },
            finished_requests: match seen.last_finished {
                Some(_) => self.finished_requests + 1,
                None => self.finished_requests,
            },
            population_total: self.population_total + seen.requests_in_system,
            iterations: self.iterations + 1,
        }
    }

    /// The statistics of the observations `seen`, taken in one by one.
    pub open spec fn replay(seen: Seq<Observation>) -> Self
        decreases seen.len(),
    {
        if seen.len() == 0 {
            Self::empty()
        } else {
            Self::replay(seen.drop_last()).updated(seen.last())
        }
    }

    /// The sums fit the counts: no more requests finished than steps were
    /// observed, and no sample is larger than its type allows.
    pub open spec fn valid(self) -> bool {
        &&& self.finished_requests <= self.iterations
        &&& self.iterations <= u64::MAX
        &&& self.requests_in_system <= usize::MAX
        &&& self.waiting_total <= self.finished_requests * u64::MAX
        &&& self.population_total <= self.iterations * usize::MAX
    }

    /// `mean` is the mean waiting time rounded down to whole ticks, zero
    /// where no request has finished.
    pub open spec fn is_waiting_mean(self, mean: nat) -> bool {
        if self.finished_requests == 0 {
            mean == 0
        } else {
            mean * self.finished_requests <= self.waiting_total < (mean + 1)
                * self.finished_requests
        }
    }
}

/// Sum of the numbers of requests in the system over the observations.
pub open spec fn population_sum(seen: Seq<Observation>) -> nat
    decreases seen.len(),
{
    if seen.len() == 0 {
        0
    } else {
        population_sum(seen.drop_last()) + seen.last().requests_in_system
    }
}

/// Sum of the waiting times of the requests that the observations report
/// as finished.
pub open spec fn waiting_sum(seen: Seq<Observation>) -> nat
    decreases seen.len(),
{
    if seen.len() == 0 {
        0
    } else {
        waiting_sum(seen.drop_last()) + match seen.last().last_finished {
            Some(request) => request.wait(),
            None => 0,
        }
    }
}

/// Number of observations that report a finished request.
pub open spec fn finished_sum(seen: Seq<Observation>) -> nat
    decreases seen.len(),
{
    if seen.len() == 0 {
        0
    } else {
        finished_sum(seen.drop_last()) + match seen.last().last_finished {
            Some(_) => 1nat,
            None => 0nat,
        }
    }
}

/// Taking observations in one by one gives the same means as computing them
/// over the whole series: the mean number of requests in the system is the
/// sum of the observed numbers over the number of observations, and the mean
/// waiting time is the sum of the finished requests' waits over their number.
pub proof fn lemma_streaming_means(seen: Seq<Observation>)
    ensures
        SysStateView::replay(seen).iterations == seen.len(),
        SysStateView::replay(seen).population_total == population_sum(seen),
        SysStateView::replay(seen).finished_requests == finished_sum(seen),
        SysStateView::replay(seen).waiting_total == waiting_sum(seen),
        seen.len() > 0 ==> SysStateView::replay(seen).time == seen.last().time,
        seen.len() > 0 ==> SysStateView::replay(seen).requests_in_system
            == seen.last().requests_in_system,
    decreases seen.len(),
{
    if seen.len() > 0 {
        lemma_streaming_means(seen.drop_last());
    }
}

/// Means of the waiting time and of the number of requests in the system,
/// kept up to date from one observation to the next without the history.
#[derive(Debug, Clone, Copy, PartialEq, Eq)]
pub struct SysState {
    time: u64,
    requests_in_system: usize,
    waiting_total: u128,
    population_total: u128,
    iterations: u64,
    finished_requests: u64,
}

impl View for SysState {
    type V = SysStateView;

    closed spec fn view(&self) -> SysStateView {
        SysStateView {
            time: self.time,
            requests_in_system: self.requests_in_system as nat,
            waiting_total: self.waiting_total as nat,
            finished_requests: self.finished_requests as nat,
            population_total: self.population_total as nat,
            iterations: self.iterations as nat,
        }
    }
}

impl SysState {
    /// The sums fit the counts.
    pub open spec fn wf(&self) -> bool {
        self@.valid()
    }

    /// The statistics of no observations.
    pub fn new() -> (state: Self)
        ensures
            state.wf(),
            state@ == SysStateView::empty(),
    {
        SysState {
            time: 0,
            requests_in_system: 0,
            waiting_total: 0,
            population_total: 0,
            iterations: 0,
            finished_requests: 0,
        }
    }

    /// Takes in one observation: the finished request's wait, if there is
    /// one, enters the mean waiting time, and the number of requests in the
    /// system enters its mean.
    pub fn update(
        &mut self,
        time: u64,
        requests_in_system: usize,
        last_finished: Option<Request>,
    )
        requires
            old(self).wf(),
            old(self)@.iterations < u64::MAX,
            last_finished matches Some(request) ==> request.is_served(),
        ensures
            final(self).wf(),
            final(self)@ == old(self)@.updated(
                Observation { time, requests_in_system: requests_in_system as nat, last_finished },
            ),
    {
        if let Some(request) = last_finished {
            let waited: u64 = request.started_at.unwrap() - request.created_at.unwrap();
            proof {
                lemma_total_fits(
                    self.waiting_total as nat,
                    self.finished_requests as nat,
                    waited as nat,
                    u64::MAX as nat,
                );
            }
            self.waiting_total = self.waiting_total + waited as u128;
            self.finished_requests = self.finished_requests + 1;
        }
        proof {
            lemma_total_fits(
                self.population_total as nat,
                self.iterations as nat,
                requests_in_system as nat,
                usize::MAX as nat,
            );
        }
        self.population_total = self.population_total + requests_in_system as u128;
        self.requests_in_system = requests_in_system;
        self.iterations = self.iterations + 1;
        self.time = time;
    }

    /// Tick of the latest observation.
    pub fn time(&self) -> (time: u64)
        ensures
            time == self@.time,
    {
        self.time
    }

    /// Requests in the system at the latest observation.
    pub fn requests_in_system(&self) -> (count: usize)
        ensures
            count == self@.requests_in_system,
    {
        self.requests_in_system
    }

    /// Numerator of the mean waiting time: the sum of the finished requests'
    /// waits.
    pub fn waiting_total(&self) -> (total: u128)
        ensures
            total == self@.waiting_total,
    {
        self.waiting_total
    }

    /// Denominator of the mean waiting time: the number of finished requests.
    pub fn finished_requests(&self) -> (count: u64)
        ensures
            count == self@.finished_requests,
    {
        self.finished_requests
    }

    /// Numerator of the mean number of requests in the system: the sum of
    /// the observed numbers.
    pub fn population_total(&self) -> (total: u128)
        ensures
            total == self@.population_total,
    {
        self.population_total
    }

    /// Denominator of the mean number of requests in the system: the number
    /// of observations.
    pub fn iterations(&self) -> (count: u64)
        ensures
            count == self@.iterations,
    {
        self.iterations
    }

    /// The mean waiting time rounded down to whole ticks; zero where no
    /// request has finished.
    pub fn waiting_mean(&self) -> (mean: u64)
        requires
            self.wf(),
        ensures
            self@.is_waiting_mean(mean as nat),
    {
        if self.finished_requests == 0 {
            0
        } else {
            let count: u128 = self.finished_requests as u128;
            let mean: u128 = self.waiting_total / count;
            proof {
                lemma_floor_mean(self.waiting_total as nat, count as nat, u64::MAX as nat);
            }
            mean as u64
        }
    }
}

impl Default for SysState {
    fn default() -> (state: Self)
        ensures
            state.wf(),
            state@ == SysStateView::empty(),
    {
        SysState::new()
    }
}

/// A sum of `count` samples of at most `limit` each, with one more such
/// sample added, is a sum of `count + 1` samples of at most `limit` each,
/// and fits in 128 bits while count and limit fit in 64.
proof fn lemma_total_fits(total: nat, count: nat, sample: nat, limit: nat)
    requires
        total <= count * limit,
        sample <= limit,
        count < u64::MAX,
        limit <= u64::MAX,
    ensures
        total + sample <= (count + 1) * limit,
        total + sample <= u128::MAX,
{
    assert((count + 1) * limit == count * limit + limit) by (nonlinear_arith);
    assert((count + 1) * limit <= 0xffff_ffff_ffff_ffff * 0xffff_ffff_ffff_ffff) by (nonlinear_arith)
        requires
            count + 1 <= 0xffff_ffff_ffff_ffff,
            limit <= 0xffff_ffff_ffff_ffff,
    ;
}

/// The floor of a sum of `count` samples over `count` is a mean of them: it
/// is within one of the exact quotient and no larger than the largest sample
/// allowed.
proof fn lemma_floor_mean(total: nat, count: nat, limit: nat)
    requires
        count > 0,
        total <= count * limit,
    ensures
        (total / count) * count <= total < (total / count + 1) * count,
        total / count <= limit,
{
    vstd::arithmetic::div_mod::lemma_fundamental_div_mod(total as int, count as int);
    vstd::arithmetic::div_mod::lemma_mod_bound(total as int, count as int);
    let q: nat = total / count;
    assert(total == count * q + total % count);
    assert(count * q == q * count) by (nonlinear_arith);
    assert((q + 1) * count == q * count + count) by (nonlinear_arith);
    if q > limit {
        assert(q * count >= (limit + 1) * count) by (nonlinear_arith)
            requires
                q >= limit + 1,
                count > 0,
        ;
        assert((limit + 1) * count == count * limit + count) by (nonlinear_arith);
    }
}

} // verus!
