use vstd::prelude::*;

verus! {

/// A unit of work that travels through the system.
///
/// All times are counted in whole ticks of virtual time.
#[derive(Debug, Clone, Copy, PartialEq, Eq)]
pub struct Request {
    /// Identifier, unique within one system.
    pub id: u64,
    /// Ticks of service the request needs, drawn when the request is made.
    pub time_to_finish: u64,
    /// Tick at which the request joined the waiting line; `None` until then.
    pub created_at: Option<u64>,
    /// Tick at which a node took the request; `None` until then.
    pub started_at: Option<u64>,
}

impl Request {
    /// Neither timestamp is set: the request has not reached the system yet.
    pub open spec fn is_fresh(&self) -> bool {
        self.created_at is None && self.started_at is None
    }

    /// The request joined the waiting line no later than `now` and no node
    /// has taken it.
    pub open spec fn is_waiting(&self, now: u64) -> bool {
        &&& self.created_at matches Some(created)
        &&& created <= now
        &&& self.started_at is None
    }

    /// Both timestamps are set and service began no earlier than the request
    /// joined the waiting line.
    pub open spec fn is_served(&self) -> bool {
        &&& self.created_at matches Some(created)
        &&& self.started_at matches Some(started)
        &&& created <= started
    }

    /// Ticks between joining the waiting line and the start of service.
    pub open spec fn wait(&self) -> nat
        recommends
            self.is_served(),
    {
        (self.started_at->0 - self.created_at->0) as nat
    }

    /// Makes a request that needs `time_to_finish` ticks of service and has
    /// not reached the system yet.
    pub fn new(id: u64, time_to_finish: u64) -> (request: Self)
        ensures
            request == (Request { id, time_to_finish, created_at: None, started_at: None }),
    {
        Request { id, time_to_finish, created_at: None, started_at: None }
    }

    /// Ticks the request waited, or `None` while a timestamp is missing or
    /// the timestamps are out of order.
    pub fn waiting_time(&self) -> (waited: Option<u64>)
        ensures
            waited is Some <==> self.is_served(),
            waited matches Some(w) ==> w == self.wait(),
    {
        match (self.created_at, self.started_at) {
            (Some(created), Some(started)) => {
                if created <= started {
                    Some(started - created)
                } else {
                    None
                }
            },
            _ => None,
        }
    }
}

} // verus!
