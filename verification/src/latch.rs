//! The shared base-URL state: a write-once latch. It starts empty, takes a
//! value at most once (when setup completes successfully), and never reverts
//! or changes thereafter. The host shell guards the cell with its own lock;
//! the latch itself carries the transition rule.

use vstd::prelude::*;

verus! {

/// What publishing a URL does to the latched value: fills an empty latch,
/// and leaves a filled one exactly as it was.
pub open spec fn publish_spec(v: Option<Seq<char>>, url: Seq<char>) -> Option<Seq<char>> {
    if v is None {
        Some(url)
    } else {
        v
    }
}

/// The discovered base URL, absent until the handshake completes.
pub struct BaseUrlLatch {
    value: Option<String>,
}

impl View for BaseUrlLatch {
    type V = Option<Seq<char>>;

    closed spec fn view(&self) -> Option<Seq<char>> {
        match self.value {
            Some(u) => Some(u@),
            None => None,
        }
    }
}

impl BaseUrlLatch {
    /// A fresh latch, holding nothing.
    pub fn new() -> (r: Self)
        ensures
            r@ is None,
    {
        BaseUrlLatch { value: None }
    }

    /// Publishes the discovered base URL. Only the first publication takes;
    /// the return value says whether this call was it.
    pub fn publish(&mut self, url: String) -> (wrote: bool)
        ensures
            final(self)@ == publish_spec(old(self)@, url@),
            wrote == (old(self)@ is None),
    {
        if self.value.is_none() {
            self.value = Some(url);
            true
        } else {
            false
        }
    }

    /// The query the host shell invokes on demand: a plain, non-blocking read
    /// of the latched value — `None` before setup completes, the published
    /// URL ever after.
    pub fn get_backend_base_url(&self) -> (r: Option<String>)
        ensures
            match r {
                Some(u) => self@ == Some(u@),
                None => self@ is None,
            },
    {
        match &self.value {
            Some(u) => Some(u.clone()),
            None => None,
        }
    }
}

/// The latch transitions at most once: whatever is published after the first
/// value changes nothing, so every query after a successful setup sees that
/// first value.
pub proof fn lemma_latch_write_once(v: Option<Seq<char>>, first: Seq<char>, later: Seq<char>)
    ensures
        publish_spec(publish_spec(v, first), later) == publish_spec(v, first),
{
}

} // verus!
