use vstd::prelude::*;

verus! {

/// How long a node works on a request, in ticks.
#[derive(Debug, Clone, Copy, PartialEq, Eq, Structural)]
pub enum ConsumingDistribution {
    /// Service times are exponential variates with the given mean.
    Exponential {
        /// Expected service time in ticks.
        mean: u64,
    },
    /// Every request takes the same time.
    Degenerate {
        /// The service time in ticks.
        value: u64,
    },
}

/// How long the system waits for its next request, in ticks.
#[derive(Debug, Clone, Copy, PartialEq, Eq, Structural)]
pub enum ProducingDistribution {
    /// Gaps between arrivals are exponential variates with the given mean.
    Exponential {
        /// Expected gap between arrivals in ticks.
        mean: u64,
    },
    /// Every gap is the same.
    Degenerate {
        /// The gap between arrivals in ticks.
        value: u64,
    },
}

/// The variates that one arrival consumes, drawn by the caller and already
/// scaled to ticks. A degenerate distribution ignores its variate.
#[derive(Debug, Clone, Copy, PartialEq, Eq, Structural)]
pub struct Draw {
    /// Variate for the gap until the arrival.
    pub inter_arrival: u64,
    /// Variate for the service time of the arriving request.
    pub service: u64,
}

impl ConsumingDistribution {
    /// The parameter is a positive number of ticks.
    pub open spec fn well_formed(&self) -> bool {
        match *self {
            ConsumingDistribution::Exponential { mean } => mean > 0,
            ConsumingDistribution::Degenerate { value } => value > 0,
        }
    }

    /// The service time that `variate` stands for.
    pub open spec fn duration(&self, variate: u64) -> u64 {
        match *self {
            ConsumingDistribution::Exponential { .. } => variate,
            ConsumingDistribution::Degenerate { value } => value,
        }
    }

    /// Whether the parameter is a positive number of ticks.
    pub fn is_well_formed(&self) -> (ok: bool)
        ensures
            ok == self.well_formed(),
    {
        match *self {
            ConsumingDistribution::Exponential { mean } => mean > 0,
            ConsumingDistribution::Degenerate { value } => value > 0,
        }
    }

    /// Turns `variate` into a service time: the variate itself where service
    /// is exponential, the fixed time where it is degenerate.
    pub fn sample(&self, variate: u64) -> (ticks: u64)
        ensures
            ticks == self.duration(variate),
            self.well_formed() && variate > 0 ==> ticks > 0,
    {
        match *self {
            ConsumingDistribution::Exponential { .. } => variate,
            ConsumingDistribution::Degenerate { value } => value,
        }
    }
}

impl ProducingDistribution {
    /// The parameter is a positive number of ticks.
    pub open spec fn well_formed(&self) -> bool {
        match *self {
            ProducingDistribution::Exponential { mean } => mean > 0,
            ProducingDistribution::Degenerate { value } => value > 0,
        }
    }

    /// The gap between arrivals that `variate` stands for.
    pub open spec fn duration(&self, variate: u64) -> u64 {
        match *self {
            ProducingDistribution::Exponential { .. } => variate,
            ProducingDistribution::Degenerate { value } => value,
        }
    }

    /// Whether the parameter is a positive number of ticks.
    pub fn is_well_formed(&self) -> (ok: bool)
        ensures
            ok == self.well_formed(),
    {
        match *self {
            ProducingDistribution::Exponential { mean } => mean > 0,
            ProducingDistribution::Degenerate { value } => value > 0,
        }
    }

    /// Turns `variate` into a gap between arrivals: the variate itself where
    /// arrivals are exponential, the fixed gap where they are degenerate.
    pub fn sample(&self, variate: u64) -> (ticks: u64)
        ensures
            ticks == self.duration(variate),
            self.well_formed() && variate > 0 ==> ticks > 0,
    {
        match *self {
            ProducingDistribution::Exponential { .. } => variate,
            ProducingDistribution::Degenerate { value } => value,
        }
    }
}

} // verus!
