use vstd::prelude::*;
use vstd::multiset::Multiset;
use vstd::seq_lib::{to_multiset_build, to_multiset_remove, to_multiset_contains, to_multiset_len};
use super::simulation::{chunk_col, split_world_x};

verus! {

/// A request to bring chunk column `chunk_x` into memory, `distance` chunks
/// from the player, issued as the `seq`-th request.
#[derive(Clone, Copy, PartialEq, Eq, Debug, Structural)]
pub struct ChunkRequest {
    pub chunk_x: i32,
    pub distance: i32,
    pub seq: u64,
}

/// Whether `a` is served no later than `b`: nearer chunks first, and among
/// equally near ones the earlier request.
pub open spec fn served_before(a: ChunkRequest, b: ChunkRequest) -> bool {
    a.distance < b.distance || (a.distance == b.distance && a.seq <= b.seq)
}

/// Whether some request in `requests` is for column `chunk_x`.
pub open spec fn requested_column(requests: Multiset<ChunkRequest>, chunk_x: i32) -> bool {
    exists|q: ChunkRequest| #[trigger] requests.count(q) > 0 && q.chunk_x == chunk_x
}

/// Pending chunk requests, served nearest first, then oldest first.
pub struct ChunkRequestQueue {
    items: Vec<ChunkRequest>,
}

impl View for ChunkRequestQueue {
    type V = Multiset<ChunkRequest>;

    closed spec fn view(&self) -> Multiset<ChunkRequest> {
        self.items@.to_multiset()
    }
}

impl ChunkRequestQueue {
    /// An empty queue.
    pub fn new() -> (r: Self)
        ensures
            r@ == Multiset::<ChunkRequest>::empty(),
    {
        let r = ChunkRequestQueue { items: Vec::new() };
        proof {
            to_multiset_len(r.items@);
            assert(r@.len() == 0);
            assert(r@ =~= Multiset::<ChunkRequest>::empty());
        }
        r
    }

    /// Number of queued requests.
    pub fn len(&self) -> (r: usize)
        ensures
            r == self@.len(),
    {
        proof {
            to_multiset_len(self.items@);
        }
        self.items.len()
    }

    /// Whether no request is queued.
    pub fn is_empty(&self) -> (r: bool)
        ensures
            r == (self@.len() == 0),
    {
        proof {
            to_multiset_len(self.items@);
        }
        self.items.len() == 0
    }

    /// The column of each queued request, one entry per request.
    pub fn columns(&self) -> (r: Vec<i32>)
        ensures
            r@.len() == self@.len(),
            forall|k: int| 0 <= k < r@.len() ==> #[trigger] requested_column(self@, r@[k]),
            forall|q: ChunkRequest| #[trigger] self@.count(q) > 0 ==> r@.contains(q.chunk_x),
    {
        proof {
            to_multiset_len(self.items@);
        }
        let mut out: Vec<i32> = Vec::new();
        let mut i: usize = 0;
        while i < self.items.len()
            invariant
                i <= self.items@.len(),
                out@.len() == i,
                forall|k: int| 0 <= k < i ==> #[trigger] out@[k] == self.items@[k].chunk_x,
            decreases self.items@.len() - i,
        {
            out.push(self.items[i].chunk_x);
            i = i + 1;
        }
        proof {
            assert forall|k: int| 0 <= k < out@.len() implies #[trigger] requested_column(self@, out@[k]) by {
                to_multiset_contains(self.items@, self.items@[k]);
                assert(self.items@.contains(self.items@[k]));
                assert(self@.count(self.items@[k]) > 0);
            }
            assert forall|q: ChunkRequest| #[trigger] self@.count(q) > 0 implies out@.contains(q.chunk_x) by {
                to_multiset_contains(self.items@, q);
                let k = choose|k: int| 0 <= k < self.items@.len() && self.items@[k] == q;
                assert(out@[k] == q.chunk_x);
            }
        }
        out
    }

    /// Queues a request.
    pub fn push(&mut self, request: ChunkRequest)
        ensures
            final(self)@ == old(self)@.insert(request),
    {
        proof {
            to_multiset_build(self.items@, request);
        }
        self.items.push(request);
    }

    /// Takes out the request to serve next: one that is served before every
    /// queued request. None when the queue is empty.
    pub fn pop(&mut self) -> (r: Option<ChunkRequest>)
        ensures
            old(self)@.len() == 0 ==> r is None && final(self)@ == old(self)@,
            old(self)@.len() > 0 ==> (r matches Some(best) && old(self)@.count(best) > 0
                && final(self)@ == old(self)@.remove(best) && forall|e: ChunkRequest|
                #[trigger] old(self)@.count(e) > 0 ==> served_before(best, e)),
    {
        proof {
            to_multiset_len(self.items@);
        }
        let n = self.items.len();
        if n == 0 {
            return None;
        }
        let mut best: usize = 0;
        let mut i: usize = 1;
        while i < n
            invariant
                n == self.items@.len(),
                best < n,
                1 <= i <= n,
                forall|k: int| 0 <= k < i ==> served_before(self.items@[best as int], #[trigger] self.items@[k]),
            decreases n - i,
        {
            let cand = self.items[i];
            let cur = self.items[best];
            if cand.distance < cur.distance || (cand.distance == cur.distance && cand.seq < cur.seq) {
                best = i;
            }
            i = i + 1;
        }
        let ghost before = self.items@;
        let chosen = self.items.remove(best);
        proof {
            to_multiset_remove(before, best as int);
            to_multiset_contains(before, chosen);
            assert(before.contains(chosen)) by {
                assert(before[best as int] == chosen);
            }
            assert forall|e: ChunkRequest| #[trigger] before.to_multiset().count(e) > 0 implies served_before(
                chosen,
                e,
            ) by {
                to_multiset_contains(before, e);
                let k = choose|k: int| 0 <= k < before.len() && before[k] == e;
                assert(served_before(before[best as int], before[k]));
            }
        }
        Some(chosen)
    }
}

/// Chunks on each side of the player's chunk that are loaded at once.
pub const ACTIVE_CHUNK_RADIUS: i32 = 1;

/// Chunks on each side of the player's chunk that are requested ahead.
pub const PREFETCH_CHUNK_RADIUS: i32 = 3;

/// Which chunks to bring in around the player's chunk: those from
/// `active_min` to `active_max` at once, and those of `prefetch` (in
/// increasing order) by request.
pub struct ChunkLoadPlan {
    pub active_min: i32,
    pub active_max: i32,
    pub prefetch: Vec<i32>,
}

/// `lead` where it is positive, else 0.
pub open spec fn lead_right(lead: int) -> int {
    if lead > 0 {
        lead
    } else {
        0
    }
}

/// `lead` where it is negative, else 0.
pub open spec fn lead_left(lead: int) -> int {
    if lead < 0 {
        lead
    } else {
        0
    }
}

/// The chunks to load around chunk `center_chunk` for a player moving
/// towards `motion_lead` (-1 left, 1 right, 0 neither): the active window
/// reaches one chunk each way and one more in the direction of motion;
/// the prefetch window reaches three chunks each way and one more in the
/// direction of motion, and requests the chunks of it outside the active
/// window, from left to right.
pub fn plan_chunk_loads(center_chunk: i32, motion_lead: i32) -> (r: ChunkLoadPlan)
    requires
        -0x4000_0000 <= center_chunk < 0x4000_0000,
        -1 <= motion_lead <= 1,
    ensures
        r.active_min == center_chunk - ACTIVE_CHUNK_RADIUS + lead_left(motion_lead as int),
        r.active_max == center_chunk + ACTIVE_CHUNK_RADIUS + lead_right(motion_lead as int),
        forall|i: int, j: int| 0 <= i < j < r.prefetch@.len() ==> r.prefetch@[i] < r.prefetch@[j],
        forall|c: i32|
            #[trigger] r.prefetch@.contains(c) <==> (center_chunk - PREFETCH_CHUNK_RADIUS + lead_left(motion_lead as int)
                <= c <= center_chunk + PREFETCH_CHUNK_RADIUS + lead_right(motion_lead as int) && !(r.active_min <= c
                <= r.active_max)),
{
    let left: i32 = if motion_lead < 0 {
        motion_lead
    } else {
        0
    };
    let right: i32 = if motion_lead > 0 {
        motion_lead
    } else {
        0
    };
    let active_min = center_chunk - ACTIVE_CHUNK_RADIUS + left;
    let active_max = center_chunk + ACTIVE_CHUNK_RADIUS + right;
    let prefetch_min = center_chunk - PREFETCH_CHUNK_RADIUS + left;
    let prefetch_max = center_chunk + PREFETCH_CHUNK_RADIUS + right;
    let mut prefetch: Vec<i32> = Vec::new();
    let mut c = prefetch_min;
    while c <= prefetch_max
        invariant
            -0x4000_0000 <= center_chunk < 0x4000_0000,
            prefetch_min == center_chunk - PREFETCH_CHUNK_RADIUS + left,
            prefetch_max == center_chunk + PREFETCH_CHUNK_RADIUS + right,
            -1 <= left <= 0,
            0 <= right <= 1,
            prefetch_min <= c <= prefetch_max + 1,
            forall|i: int| 0 <= i < prefetch@.len() ==> prefetch_min <= #[trigger] prefetch@[i] < c,
            forall|i: int, j: int| 0 <= i < j < prefetch@.len() ==> prefetch@[i] < prefetch@[j],
            forall|k: i32|
                #[trigger] prefetch@.contains(k) <==> (prefetch_min <= k < c && !(active_min <= k <= active_max)),
        decreases prefetch_max + 1 - c,
    {
        if c < active_min || c > active_max {
            let ghost before = prefetch@;
            prefetch.push(c);
            proof {
                assert forall|k: i32|
                    #[trigger] prefetch@.contains(k) <==> (prefetch_min <= k < c + 1 && !(active_min <= k
                        <= active_max)) by {
                    if prefetch_min <= k < c && !(active_min <= k <= active_max) {
                        assert(before.contains(k));
                        let i = choose|i: int| 0 <= i < before.len() && before[i] == k;
                        assert(prefetch@[i] == k);
                    }
                    if k == c {
                        assert(prefetch@[before.len() as int] == k);
                    }
                    if prefetch@.contains(k) {
                        let i = choose|i: int| 0 <= i < prefetch@.len() && prefetch@[i] == k;
                        if i < before.len() {
                            assert(before.contains(k));
                        }
                    }
                }
            }
        }
        c = c + 1;
    }
    ChunkLoadPlan { active_min, active_max, prefetch }
}

/// The first and last chunk columns within `search_radius` world columns
/// (none when it is negative) of world column `center_x`.
pub fn spawn_search_chunk_range(center_x: i32, search_radius: i32) -> (r: (i32, i32))
    requires
        i32::MIN <= center_x - (if search_radius > 0 { search_radius as int } else { 0 }),
        center_x + (if search_radius > 0 { search_radius as int } else { 0 }) <= i32::MAX,
    ensures
        r.0 == chunk_col(center_x - (if search_radius > 0 { search_radius as int } else { 0 })),
        r.1 == chunk_col(center_x + (if search_radius > 0 { search_radius as int } else { 0 })),
{
    let radius = if search_radius > 0 {
        search_radius
    } else {
        0
    };
    let (min_chunk, _) = split_world_x(center_x - radius);
    let (max_chunk, _) = split_world_x(center_x + radius);
    (min_chunk, max_chunk)
}

} // verus!
