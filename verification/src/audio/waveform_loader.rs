//! Which graphs are wanted. A result for anything else is dropped.
use crate::utils::paths;
use vstd::prelude::*;

verus! {

/// One of the two graphs.
#[derive(Clone, Copy, Debug, PartialEq, Eq, Structural)]
pub enum WaveformSlot {
    Previous,
    Current,
}

impl WaveformSlot {
    /// The place of a graph among the two.
    pub fn index(self) -> (r: usize)
        ensures
            r == (match self {
                WaveformSlot::Previous => 0usize,
                WaveformSlot::Current => 1usize,
            }),
    {
        match self {
            WaveformSlot::Previous => 0,
            WaveformSlot::Current => 1,
        }
    }
}

/// A graph that was asked for.
#[derive(Debug)]
pub struct Request {
    pub generation: u64,
    pub slot: WaveformSlot,
    pub path: String,
}

/// What the contracts know of [`Request`].
#[verifier::ext_equal]
pub ghost struct RequestModel {
    pub generation: u64,
    pub slot: WaveformSlot,
    pub path: Seq<char>,
}

impl View for Request {
    type V = RequestModel;

    open spec fn view(&self) -> RequestModel {
        RequestModel { generation: self.generation, slot: self.slot, path: self.path@ }
    }
}

impl Clone for Request {
    fn clone(&self) -> (r: Self)
        ensures
            r@ == self@,
    {
        Request { generation: self.generation, slot: self.slot, path: self.path.clone() }
    }
}

/// The view of a request that may be there.
pub open spec fn request_view(r: Option<Request>) -> Option<RequestModel> {
    match r {
        Some(r) => Some(r@),
        None => None,
    }
}

/// Whether a request is the one that is wanted.
pub open spec fn is_wanted(wanted: Option<RequestModel>, r: RequestModel) -> bool {
    match wanted {
        Some(w) => w.generation == r.generation && w.slot == r.slot && paths::same_path_spec(
            w.path,
            r.path,
        ),
        None => false,
    }
}

/// The graphs that are wanted, and those that no worker has taken up yet: at most
/// one of each.
#[derive(Debug)]
pub struct WaveformLoader {
    desired: [Option<Request>; 2],
    pending: [Option<Request>; 2],
    generation: u64,
}

/// What the contracts know of [`WaveformLoader`].
#[verifier::ext_equal]
pub ghost struct LoaderModel {
    pub desired: Map<WaveformSlot, Option<RequestModel>>,
    pub pending: Map<WaveformSlot, Option<RequestModel>>,
    pub generation: u64,
}

/// Two requests by their graphs.
pub open spec fn by_slot(previous: Option<RequestModel>, current: Option<RequestModel>) -> Map<
    WaveformSlot,
    Option<RequestModel>,
> {
    map![WaveformSlot::Previous => previous, WaveformSlot::Current => current]
}

impl View for WaveformLoader {
    type V = LoaderModel;

    closed spec fn view(&self) -> LoaderModel {
        LoaderModel {
            desired: by_slot(
                request_view(self.desired@[0]),
                request_view(self.desired@[1]),
            ),
            pending: by_slot(
                request_view(self.pending@[0]),
                request_view(self.pending@[1]),
            ),
            generation: self.generation,
        }
    }
}

/// A loader that wants nothing.
pub open spec fn idle_loader() -> LoaderModel {
    LoaderModel { desired: by_slot(None, None), pending: by_slot(None, None), generation: 0 }
}

/// The generation after another one.
pub open spec fn next_generation(g: u64) -> u64 {
    if g == u64::MAX {
        0
    } else {
        (g + 1) as u64
    }
}

/// Whether a graph is wanted already.
pub open spec fn wants(m: LoaderModel, slot: WaveformSlot, path: Seq<char>) -> bool {
    m.desired[slot] matches Some(r) && paths::same_path_spec(r.path, path)
}

/// The loader after a graph was asked for.
pub open spec fn after_request(m: LoaderModel, slot: WaveformSlot, path: Seq<char>) -> LoaderModel {
    if wants(m, slot, path) {
        m
    } else {
        let r = RequestModel { generation: next_generation(m.generation), slot, path };
        LoaderModel {
            desired: m.desired.insert(slot, Some(r)),
            pending: m.pending.insert(slot, Some(r)),
            generation: r.generation,
        }
    }
}

/// The loader after a graph was given up.
pub open spec fn after_clear(m: LoaderModel, slot: WaveformSlot) -> LoaderModel {
    LoaderModel {
        desired: m.desired.insert(slot, None),
        pending: m.pending.insert(slot, None),
        ..m
    }
}

impl WaveformLoader {
    pub fn new() -> (r: Self)
        ensures
            r@ == idle_loader(),
    {
        WaveformLoader { desired: [None, None], pending: [None, None], generation: 0 }
    }

    /// Asks for a graph, in place of what was asked for before. Gives `false` if it
    /// is wanted already.
    pub fn request(&mut self, slot: WaveformSlot, path: String) -> (asked: bool)
        ensures
            asked == !wants(old(self)@, slot, path@),
            final(self)@ == after_request(old(self)@, slot, path@),
    {
        let ghost wanted = path@;
        let index: usize = slot.index();
        if let Some(r) = &self.desired[index] {
            if paths::same_path(r.path.as_str(), path.as_str()) {
                return false;
            }
        }
        self.generation = if self.generation == u64::MAX {
            0
        } else {
            self.generation + 1
        };
        let request = Request { generation: self.generation, slot, path };
        self.desired[index] = Some(request.clone());
        self.pending[index] = Some(request);
        proof {
            let m = after_request(old(self)@, slot, wanted);
            assert(self@.desired =~= m.desired);
            assert(self@.pending =~= m.pending);
        }
        true
    }

    /// Gives a graph up.
    pub fn clear(&mut self, slot: WaveformSlot)
        ensures
            final(self)@ == after_clear(old(self)@, slot),
    {
        let index: usize = slot.index();
        self.desired[index] = None;
        self.pending[index] = None;
        proof {
            let m = after_clear(old(self)@, slot);
            assert(self@.desired =~= m.desired);
            assert(self@.pending =~= m.pending);
        }
    }

    /// Hands the requests to a worker: the selected fragment before its predecessor.
    pub fn take_pending(&mut self) -> (r: (Option<Request>, Option<Request>))
        ensures
            request_view(r.0) == old(self)@.pending[WaveformSlot::Current],
            request_view(r.1) == old(self)@.pending[WaveformSlot::Previous],
            final(self)@ == (LoaderModel { pending: by_slot(None, None), ..old(self)@ }),
    {
        let mut none: [Option<Request>; 2] = [None, None];
        std::mem::swap(&mut none, &mut self.pending);
        let current = none[1].take();
        let previous = none[0].take();
        (current, previous)
    }

    /// Whether a result is the one that is wanted now. One that failed may be asked
    /// for again.
    pub fn settle(&mut self, request: &Request, failed: bool) -> (wanted: bool)
        ensures
            wanted == is_wanted(old(self)@.desired[request@.slot], request@),
            final(self)@ == (if wanted && failed {
                LoaderModel {
                    desired: old(self)@.desired.insert(request@.slot, None),
                    ..old(self)@
                }
            } else {
                old(self)@
            }),
    {
        let index: usize = request.slot.index();
        let wanted = match &self.desired[index] {
            Some(r) => r.generation == request.generation && r.slot == request.slot
                && paths::same_path(r.path.as_str(), request.path.as_str()),
            None => false,
        };
        if wanted && failed {
            self.desired[index] = None;
            assert(self@.desired =~= old(self)@.desired.insert(request@.slot, None));
        }
        wanted
    }
}

/// A result of a graph that was superseded or given up never gets through.
pub proof fn stale_results_are_dropped(m: LoaderModel, slot: WaveformSlot, path: Seq<char>)
    requires
        m.desired.dom().contains(slot),
        m.desired[slot] is Some,
        m.desired[slot]->0.generation == m.generation,
    ensures
        !is_wanted(after_clear(m, slot).desired[slot], m.desired[slot]->0),
        !wants(m, slot, path) ==> !is_wanted(
            after_request(m, slot, path).desired[slot],
            m.desired[slot]->0,
        ),
{
}

/// A graph that is asked for is wanted and waits, under a generation of its own, unless it
/// was wanted already; the other graph is left alone. A graph that is given up is neither
/// wanted nor waits.
pub proof fn requests_are_for_one_graph(
    m: LoaderModel,
    slot: WaveformSlot,
    path: Seq<char>,
    other: WaveformSlot,
)
    requires
        m.desired.dom().contains(slot),
        m.desired.dom().contains(other),
        m.pending.dom().contains(slot),
        m.pending.dom().contains(other),
        other != slot,
    ensures
        ({
            let a = after_request(m, slot, path);
            let c = after_clear(m, slot);
            &&& wants(a, slot, path) || a.desired[slot] == Some(
                RequestModel { generation: a.generation, slot, path },
            )
            &&& !wants(m, slot, path) ==> a.desired[slot] == Some(
                RequestModel { generation: a.generation, slot, path },
            ) && a.pending[slot] == a.desired[slot] && a.generation != m.generation
            &&& wants(m, slot, path) ==> a == m
            &&& a.desired[other] == m.desired[other]
            &&& a.pending[other] == m.pending[other]
            &&& c.desired[slot] is None
            &&& c.pending[slot] is None
            &&& c.desired[other] == m.desired[other]
            &&& c.pending[other] == m.pending[other]
            &&& c.generation == m.generation
        }),
{
}

} // verus!
