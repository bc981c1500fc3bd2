use vstd::prelude::*;
use std::collections::VecDeque;
use crate::request::Request;

verus! {

/// The waiting line of a system: requests in the order in which they came,
/// and the number of places the line is meant to have.
///
/// The line itself does not turn a request away; `has_space` is for whoever
/// lets requests in.
#[derive(Debug)]
pub struct Queue {
    requests: VecDeque<Request>,
    capacity: usize,
}

impl View for Queue {
    type V = Seq<Request>;

    /// The waiting requests, head first.
    closed spec fn view(&self) -> Seq<Request> {
        self.requests@
    }
}

impl Queue {
    /// Number of places in the line.
    pub closed spec fn capacity(&self) -> nat {
        self.capacity as nat
    }

    /// An empty line of `capacity` places.
    pub fn with_capacity(capacity: usize) -> (queue: Self)
        ensures
            queue@ == Seq::<Request>::empty(),
            queue.capacity() == capacity,
    {
        Queue { requests: VecDeque::new(), capacity }
    }

    /// Puts `request` at the end of the line.
    pub fn push(&mut self, request: Request)
        ensures
            final(self)@ == old(self)@.push(request),
            final(self).capacity() == old(self).capacity(),
    {
        self.requests.push_back(request);
    }

    /// Takes the request at the head of the line, if anyone waits.
    pub fn pop(&mut self) -> (head: Option<Request>)
        ensures
            final(self).capacity() == old(self).capacity(),
            match head {
                Some(request) => {
                    &&& old(self)@.len() > 0
                    &&& request == old(self)@[0]
                    &&& final(self)@ == old(self)@.drop_first()
                },
                None => {
                    &&& old(self)@.len() == 0
                    &&& final(self)@ == old(self)@
                },
            },
    {
        let head = self.requests.pop_front();
        proof {
            if head is Some {
                assert(self.requests@ =~= old(self).requests@.drop_first());
            }
        }
        head
    }

    /// Whether fewer requests wait than the line has places.
    pub fn has_space(&self) -> (space: bool)
        ensures
            space == (self@.len() < self.capacity()),
    {
        self.requests.len() < self.capacity
    }

    /// Number of waiting requests.
    pub fn len(&self) -> (waiting: usize)
        ensures
            waiting == self@.len(),
    {
        self.requests.len()
    }
}

} // verus!
