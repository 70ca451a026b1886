use crate::ising_store::{Ising, energy_of, flipped, neighbors_of};
use priority_queue::DoublePriorityQueue;
use std::hash::Hash;
use vstd::prelude::*;

verus! {

#[verifier::external_type_specification]
#[verifier::external_body]
#[verifier::reject_recursive_types(I)]
#[verifier::reject_recursive_types(P)]
#[verifier::reject_recursive_types(H)]
pub struct ExDoublePriorityQueue<I: Hash + Eq, P: Ord, H>(DoublePriorityQueue<I, P, H>);

/// The entries of the calendar: site index to scheduled flip time.
pub uninterp spec fn calendar_of(q: DoublePriorityQueue<usize, u64>) -> Map<usize, u64>;

/// Relies on `DoublePriorityQueue::new`: an empty queue.
#[verifier::external_body]
fn calendar_new() -> (r: DoublePriorityQueue<usize, u64>)
    ensures
        calendar_of(r).is_empty(),
{
    DoublePriorityQueue::new()
}

/// Relies on `DoublePriorityQueue::push`: inserts the item, or updates the
/// priority of the equal item already there.
#[verifier::external_body]
fn calendar_push(q: &mut DoublePriorityQueue<usize, u64>, item: usize, priority: u64)
    ensures
        calendar_of(*final(q)) == calendar_of(*old(q)).insert(item, priority),
{
    q.push(item, priority);
}

/// Relies on `DoublePriorityQueue::peek_min`: an item of lowest priority, or
/// `None` when the queue is empty.
#[verifier::external_body]
fn calendar_peek_min(q: &DoublePriorityQueue<usize, u64>) -> (r: Option<(usize, u64)>)
    ensures
        r is None <==> calendar_of(*q).is_empty(),
        r matches Some((i, p)) ==> {
            &&& calendar_of(*q).dom().contains(i)
            &&& calendar_of(*q)[i] == p
            &&& forall|k: usize| #[trigger]
                calendar_of(*q).dom().contains(k) ==> p <= calendar_of(*q)[k]
        },
{
    q.peek_min().map(|(i, p)| (*i, *p))
}

/// Relies on `DoublePriorityQueue::len`: the number of items.
#[verifier::external_body]
fn calendar_len(q: &DoublePriorityQueue<usize, u64>) -> (r: usize)
    ensures
        r == calendar_of(*q).dom().len(),
{
    q.len()
}


/// The number of clock ticks in one unit of simulated time.
pub const TICKS_PER_UNIT: u64 = 1000000;

/// The batch size that each buffer starts with.
pub const DEFAULT_BUF_SIZE: usize = 100;

/// The batch size at which a buffer stops growing.
pub const MAX_BUF_SIZE: usize = 131072;

/// The batch size that follows a refill at size `n`: doubled, up to the cap.
pub open spec fn next_batch_size(n: int) -> int {
    if 2 * n < MAX_BUF_SIZE {
        2 * n
    } else {
        MAX_BUF_SIZE as int
    }
}

/// Maps an energy in [-4, 4] to its slot in [0, 8].
pub fn energy_to_index(energy: i8) -> (r: usize)
    requires
        -4 <= energy <= 4,
    ensures
        r == energy + 4,
{
    (energy + 4) as usize
}

/// Pre-drawn waiting times, one buffer per energy, each refilled by a batch
/// whose size doubles on every refill up to `MAX_BUF_SIZE`.
pub struct TimeDistributionsResultBuffer {
    bufs: Vec<Vec<u64>>,
    buf_sizes: Vec<usize>,
}

impl TimeDistributionsResultBuffer {
    /// The waiting times buffered for each of the nine energy slots; the last
    /// of a slot is handed out first.
    pub closed spec fn buffers(&self) -> Seq<Seq<u64>> {
        Seq::new(9, |i: int| self.bufs@[i]@)
    }

    /// The waiting times buffered for energy slot `i`.
    pub open spec fn buffer(&self, i: int) -> Seq<u64> {
        self.buffers()[i]
    }

    /// The size of the next batch for energy slot `i`.
    pub closed spec fn batch_size(&self, i: int) -> int {
        self.buf_sizes@[i] as int
    }

    pub closed spec fn wf(&self) -> bool {
        &&& self.bufs@.len() == 9
        &&& self.buf_sizes@.len() == 9
        &&& forall|i: int|
            0 <= i < 9 ==> DEFAULT_BUF_SIZE <= #[trigger] self.buf_sizes@[i] <= MAX_BUF_SIZE
    }

    /// Nine empty buffers, each with the default batch size.
    pub fn new() -> (r: TimeDistributionsResultBuffer)
        ensures
            r.wf(),
            forall|i: int| 0 <= i < 9 ==> #[trigger] r.buffer(i).len() == 0,
            forall|i: int| 0 <= i < 9 ==> #[trigger] r.batch_size(i) == DEFAULT_BUF_SIZE,
    {
        let mut bufs: Vec<Vec<u64>> = Vec::new();
        let mut buf_sizes: Vec<usize> = Vec::new();
        let mut k: usize = 0;
        while k < 9
            invariant
                k <= 9,
                bufs@.len() == k,
                buf_sizes@.len() == k,
                forall|i: int| 0 <= i < k ==> #[trigger] bufs@[i]@.len() == 0,
                forall|i: int| 0 <= i < k ==> #[trigger] buf_sizes@[i] == DEFAULT_BUF_SIZE,
            decreases 9 - k,
        {
            bufs.push(Vec::new());
            buf_sizes.push(DEFAULT_BUF_SIZE);
            k = k + 1;
        }
        TimeDistributionsResultBuffer { bufs, buf_sizes }
    }

    /// The size of the batch to draw for `energy` before its next sample, or
    /// `None` while its buffer still holds a waiting time.
    pub fn batch_needed(&self, energy: i8) -> (r: Option<usize>)
        requires
            self.wf(),
            -4 <= energy <= 4,
        ensures
            r == (if self.buffer(energy + 4).len() == 0 {
                Some(self.batch_size(energy + 4) as usize)
            } else {
                None::<usize>
            }),
    {
        let index = energy_to_index(energy);
        if self.bufs[index].len() == 0 {
            Some(self.buf_sizes[index])
        } else {
            None
        }
    }

    /// Puts a freshly drawn batch for `energy` beneath what its buffer holds,
    /// and grows that buffer's batch size.
    pub fn refill(&mut self, energy: i8, batch: Vec<u64>)
        requires
            old(self).wf(),
            -4 <= energy <= 4,
        ensures
            final(self).wf(),
            final(self).buffer(energy + 4) == batch@ + old(self).buffer(energy + 4),
            final(self).batch_size(energy + 4) == next_batch_size(
                old(self).batch_size(energy + 4),
            ),
            forall|i: int|
                0 <= i < 9 && i != energy + 4 ==> #[trigger] final(self).buffer(i) == old(
                    self,
                ).buffer(i) && final(self).batch_size(i) == old(self).batch_size(i),
    {
        let index = energy_to_index(energy);
        let mut merged = batch;
        let ghost start = merged@;
        let mut j: usize = 0;
        let n = self.bufs[index].len();
        while j < n
            invariant
                self.wf(),
                self == old(self),
                index == energy + 4,
                index < 9,
                n == self.bufs@[index as int]@.len(),
                j <= n,
                merged@ == start + self.bufs@[index as int]@.subrange(0, j as int),
            decreases n - j,
        {
            merged.push(self.bufs[index][j]);
            j = j + 1;
            proof {
                assert(merged@ =~= start + self.bufs@[index as int]@.subrange(0, j as int));
            }
        }
        proof {
            assert(self.bufs@[index as int]@.subrange(0, n as int) =~= self.bufs@[index as int]@);
        }
        std::mem::swap(&mut merged, &mut self.bufs[index]);
        let size = self.buf_sizes[index];
        let grown = if size < MAX_BUF_SIZE / 2 {
            2 * size
        } else {
            MAX_BUF_SIZE
        };
        self.buf_sizes.set(index, grown);
    }

    /// Hands out the most recently buffered waiting time for `energy`.
    pub fn sample(&mut self, energy: i8) -> (r: u64)
        requires
            old(self).wf(),
            -4 <= energy <= 4,
            old(self).buffer(energy + 4).len() > 0,
        ensures
            final(self).wf(),
            r == old(self).buffer(energy + 4).last(),
            final(self).buffer(energy + 4) == old(self).buffer(energy + 4).drop_last(),
            forall|i: int|
                0 <= i < 9 && i != energy + 4 ==> #[trigger] final(self).buffer(i) == old(
                    self,
                ).buffer(i),
            forall|i: int| 0 <= i < 9 ==> #[trigger] final(self).batch_size(i) == old(self).batch_size(i),
            final(self).buffers() == old(self).buffers().update(
                energy + 4,
                old(self).buffers()[energy + 4].drop_last(),
            ),
    {
        let index = energy_to_index(energy);
        proof {
            assert(self.buffers()[index as int] == self.bufs@[index as int]@);
        }
        let r = match self.bufs[index].pop() {
            Some(v) => v,
            None => 0,
        };
        proof {
            assert(self.buffers() =~= old(self).buffers().update(
                energy + 4,
                old(self).buffers()[energy + 4].drop_last(),
            ));
        }
        r
    }
}


/// What one call of `IsingEvolutionManager::advance` came to.
pub enum Advance {
    /// The buffer for `energy` is empty: draw `size` waiting times for it and
    /// hand them to `refill` before advancing again.
    NeedBatch { energy: i8, size: usize },
    /// One spin flip was processed and every affected site rescheduled.
    Flipped,
    /// The clock has reached the target time; no flip was made.
    Finished,
}

/// The clock plus a waiting time, saturating at the largest tick.
pub open spec fn later(clock: u64, w: u64) -> u64 {
    if clock + w > u64::MAX {
        u64::MAX
    } else {
        (clock + w) as u64
    }
}

/// Draws new flip times for the waiting sites `pending[cursor..]`, in order:
/// each site gets `clock` plus the last waiting time buffered for its energy,
/// which leaves the buffer. Stops at the first site whose buffer is empty.
/// Returns the calendar, the buffers, and the position where it stopped.
pub open spec fn drain_result(
    s: Seq<bool>,
    w: int,
    h: int,
    clock: u64,
    pending: Seq<usize>,
    cal: Map<usize, u64>,
    bufs: Seq<Seq<u64>>,
    cursor: int,
) -> (Map<usize, u64>, Seq<Seq<u64>>, int)
    decreases pending.len() - cursor,
{
    if 0 <= cursor < pending.len() {
        let site = pending[cursor];
        let i = energy_of(s, site as int, w, h) + 4;
        if bufs[i].len() == 0 {
            (cal, bufs, cursor)
        } else {
            drain_result(
                s,
                w,
                h,
                clock,
                pending,
                cal.insert(site, later(clock, bufs[i].last())),
                bufs.update(i, bufs[i].drop_last()),
                cursor + 1,
            )
        }
    } else {
        (cal, bufs, cursor)
    }
}

/// The sites of a flip at `ix`, in the order their times are redrawn: the
/// site itself, then its left, right, up and down neighbours.
pub open spec fn event_sites(ix: usize, w: int, h: int) -> Seq<usize> {
    let nb = neighbors_of(ix as int, w, h);
    seq![ix, nb[0] as usize, nb[1] as usize, nb[2] as usize, nb[3] as usize]
}

/// The count plus one, saturating at the largest `u64`.
pub open spec fn count_after(n: u64) -> u64 {
    if n == u64::MAX {
        n
    } else {
        (n + 1) as u64
    }
}

/// The next-reaction engine: a calendar of one scheduled flip time per site,
/// a clock, the lattice it evolves and the buffered waiting times it draws.
///
/// Times are counted in integer ticks. Sites whose flip time must be drawn
/// anew wait in `pending`, from `cursor` on; `event_open` marks a flip whose
/// rescheduling is not finished yet.
pub struct IsingEvolutionManager {
    ising: Ising,
    time: u64,
    pq: DoublePriorityQueue<usize, u64>,
    buffers: TimeDistributionsResultBuffer,
    pending: Vec<usize>,
    cursor: usize,
    event_open: bool,
    events: u64,
}

/// The set of site indices of a lattice with `n` sites.
pub open spec fn sites(n: nat) -> Set<usize> {
    Set::new(|k: usize| k < n)
}

/// The site set of `n` sites has `n` members.
pub proof fn lemma_sites_len(n: nat)
    requires
        n <= usize::MAX,
    ensures
        sites(n).finite(),
        sites(n).len() == n,
    decreases n,
{
    if n == 0 {
        assert(sites(0) =~= Set::<usize>::empty());
    } else {
        let m = (n - 1) as nat;
        lemma_sites_len(m);
        assert(sites(n) =~= sites(m).insert(m as usize));
    }
}

/// `r` asks for a batch for the energy of the site waiting at the stop
/// position of `m`, at that energy's batch size.
pub open spec fn asks_for_next(m: IsingEvolutionManager, r: Advance) -> bool {
    match r {
        Advance::NeedBatch { energy, size } => {
            let site = m.waiting()[m.next_waiting()];
            &&& energy == m.lattice().spec_energy(site as int)
            &&& size == m.sampler().batch_size(energy + 4)
        },
        _ => false,
    }
}

/// `n` is `o` with the outstanding draws made as far as the buffers allow.
pub open spec fn drained_from(o: IsingEvolutionManager, n: IsingEvolutionManager) -> bool {
    let d = o.drained();
    &&& n.calendar() == d.0
    &&& n.sampler().buffers() == d.1
    &&& n.next_waiting() == d.2
    &&& n.waiting() == o.waiting()
    &&& n.clock() == o.clock()
    &&& n.lattice() == o.lattice()
    &&& n.event_count() == o.event_count()
}

/// What one call of `advance(t_final)` does, from state `o` to state `n` with
/// result `r`. First the outstanding draws are made; if a buffer runs dry it
/// asks for a batch. Otherwise an open event is completed with `Flipped`; with
/// none open and the clock at or past `t_final` it is `Finished`; otherwise
/// the earliest site `ix` is popped, the clock set to its time, the site
/// flipped, and new times drawn for it and its four neighbours from their
/// post-flip energies.
pub open spec fn advance_post(
    o: IsingEvolutionManager,
    n: IsingEvolutionManager,
    r: Advance,
    t_final: u64,
) -> bool {
    let d = o.drained();
    let w = o.lattice().spec_width() as int;
    let h = o.lattice().spec_height() as int;
    &&& n.lattice().spec_width() == o.lattice().spec_width()
    &&& n.lattice().spec_height() == o.lattice().spec_height()
    &&& n.lattice().spec_n_cells() == o.lattice().spec_n_cells()
    &&& forall|i: int| 0 <= i < 9 ==> #[trigger] n.sampler().batch_size(i) == o.sampler().batch_size(i)
    &&& if d.2 < o.waiting().len() {
        &&& drained_from(o, n)
        &&& n.in_event() == o.in_event()
        &&& asks_for_next(n, r)
    } else if o.in_event() {
        &&& drained_from(o, n)
        &&& n.idle()
        &&& r is Flipped
    } else if o.clock() >= t_final {
        &&& drained_from(o, n)
        &&& n.idle()
        &&& r is Finished
    } else {
        exists|ix: usize|
            #![trigger d.0[ix]]
            {
                &&& d.0.dom().contains(ix)
                &&& n.clock() == d.0[ix]
                &&& forall|k: usize| #[trigger] d.0.dom().contains(k) ==> d.0[ix] <= d.0[k]
                &&& n.lattice().spins() == flipped(o.lattice().spins(), ix as int)
                &&& n.waiting() == event_sites(ix, w, h)
                &&& (n.calendar(), n.sampler().buffers(), n.next_waiting()) == drain_result(
                    n.lattice().spins(),
                    w,
                    h,
                    n.clock(),
                    n.waiting(),
                    d.0,
                    d.1,
                    0,
                )
                &&& n.event_count() == count_after(o.event_count())
                &&& if n.next_waiting() < 5 {
                    n.in_event() && asks_for_next(n, r)
                } else {
                    n.idle() && r is Flipped
                }
            }
    }
}

/// Whether `advance` finishes depends on the target time only through
/// whether the clock has reached it: two targets on the same side of the
/// clock allow exactly the same moves. So a run to `t1` followed by a run to
/// `t2 > t1` makes the moves of a single run to `t2`.
pub proof fn advance_depends_on_target_only_through_clock(
    o: IsingEvolutionManager,
    n: IsingEvolutionManager,
    r: Advance,
    t1: u64,
    t2: u64,
)
    requires
        (o.clock() < t1) == (o.clock() < t2),
    ensures
        advance_post(o, n, r, t1) == advance_post(o, n, r, t2),
{
}

/// With every first flip time drawn and nothing outstanding, advancing to a
/// target the clock has already reached makes no flip and no draw: the
/// lattice, clock, calendar and buffers stay as they are.
pub proof fn advance_past_target_changes_nothing(
    o: IsingEvolutionManager,
    n: IsingEvolutionManager,
    r: Advance,
    t_final: u64,
)
    requires
        o.idle(),
        o.clock() >= t_final,
        advance_post(o, n, r, t_final),
    ensures
        r is Finished,
        n.lattice() == o.lattice(),
        n.clock() == o.clock(),
        n.calendar() == o.calendar(),
        n.sampler().buffers() == o.sampler().buffers(),
        n.event_count() == o.event_count(),
{
}

impl IsingEvolutionManager {
    pub closed spec fn lattice(&self) -> Ising {
        self.ising
    }

    pub closed spec fn clock(&self) -> u64 {
        self.time
    }

    pub closed spec fn calendar(&self) -> Map<usize, u64> {
        calendar_of(self.pq)
    }

    pub closed spec fn sampler(&self) -> TimeDistributionsResultBuffer {
        self.buffers
    }

    /// The sites whose flip times are redrawn, in order.
    pub closed spec fn waiting(&self) -> Seq<usize> {
        self.pending@
    }

    /// The position in `waiting()` of the next site still owed a draw.
    pub closed spec fn next_waiting(&self) -> int {
        self.cursor as int
    }

    /// The number of flips made since construction, saturating.
    pub closed spec fn event_count(&self) -> u64 {
        self.events
    }

    /// A flip has been made whose rescheduling is still outstanding.
    pub closed spec fn in_event(&self) -> bool {
        self.event_open
    }

    /// No rescheduling is outstanding: the calendar holds every site's real
    /// next flip time.
    pub closed spec fn idle(&self) -> bool {
        self.cursor == self.pending@.len() && !self.event_open
    }

    /// The calendar, buffers and stop position after the outstanding draws.
    pub open spec fn drained(&self) -> (Map<usize, u64>, Seq<Seq<u64>>, int) {
        drain_result(
            self.lattice().spins(),
            self.lattice().spec_width() as int,
            self.lattice().spec_height() as int,
            self.clock(),
            self.waiting(),
            self.calendar(),
            self.sampler().buffers(),
            self.next_waiting(),
        )
    }

    pub closed spec fn wf(&self) -> bool {
        &&& self.ising.wf()
        &&& self.ising.spec_n_cells() > 0
        &&& self.buffers.wf()
        &&& self.calendar().dom() == sites(self.ising.spec_n_cells())
        &&& forall|k: usize| #[trigger]
            self.calendar().dom().contains(k) ==> self.time <= self.calendar()[k]
        &&& self.cursor <= self.pending@.len()
        &&& forall|j: int|
            0 <= j < self.pending@.len() ==> #[trigger] self.pending@[j]
                < self.ising.spec_n_cells()
    }

    /// The calendar holds exactly one entry per site, and none earlier than
    /// the clock.
    pub proof fn lemma_calendar(&self)
        requires
            self.wf(),
        ensures
            self.calendar().dom() == sites(self.lattice().spec_n_cells()),
            self.calendar().dom().len() == self.lattice().spec_n_cells(),
            forall|k: usize| #[trigger]
                self.calendar().dom().contains(k) ==> self.clock() <= self.calendar()[k],
            self.lattice().wf(),
            self.sampler().wf(),
            self.next_waiting() <= self.waiting().len(),
    {
        self.lattice().lemma_wf();
        lemma_sites_len(self.lattice().spec_n_cells());
    }

    /// Takes over the lattice with the clock at 0. Every site, in index
    /// order, waits for its first flip time, which `advance` draws before any
    /// flip; until then the calendar holds 0 for each site.
    pub fn new(ising: Ising) -> (r: IsingEvolutionManager)
        requires
            ising.wf(),
            ising.spec_n_cells() > 0,
        ensures
            r.wf(),
            r.clock() == 0,
            r.lattice() == ising,
            r.waiting() == Seq::new(ising.spec_n_cells(), |i: int| i as usize),
            r.next_waiting() == 0,
            r.calendar() == Map::new(|k: usize| k < ising.spec_n_cells(), |k: usize| 0u64),
            !r.in_event(),
            r.event_count() == 0,
            forall|i: int| 0 <= i < 9 ==> #[trigger] r.sampler().buffer(i).len() == 0,
            forall|i: int| 0 <= i < 9 ==> #[trigger] r.sampler().batch_size(i) == DEFAULT_BUF_SIZE,
    {
        let (_, _, n) = ising.get_size();
        let mut pq = calendar_new();
        let mut pending: Vec<usize> = Vec::new();
        let mut k: usize = 0;
        while k < n
            invariant
                k <= n,
                n == ising.spec_n_cells(),
                calendar_of(pq) == Map::new(|j: usize| j < k, |j: usize| 0u64),
                pending@ == Seq::new(k as nat, |i: int| i as usize),
            decreases n - k,
        {
            calendar_push(&mut pq, k, 0);
            pending.push(k);
            k = k + 1;
            proof {
                assert(calendar_of(pq) =~= Map::new(|j: usize| j < k, |j: usize| 0u64));
                assert(pending@ =~= Seq::new(k as nat, |i: int| i as usize));
            }
        }
        proof {
            assert(calendar_of(pq).dom() =~= sites(n as nat));
        }
        let buffers = TimeDistributionsResultBuffer::new();
        IsingEvolutionManager {
            ising,
            time: 0,
            pq,
            buffers,
            pending,
            cursor: 0,
            event_open: false,
            events: 0,
        }
    }

    /// Draws new flip times for the waiting sites, in order, until none is
    /// left or a buffer runs dry.
    fn drain(&mut self) -> (r: Option<(i8, usize)>)
        requires
            old(self).wf(),
        ensures
            final(self).wf(),
            drained_from(*old(self), *final(self)),
            final(self).in_event() == old(self).in_event(),
            forall|i: int|
                0 <= i < 9 ==> #[trigger] final(self).sampler().batch_size(i) == old(
                    self,
                ).sampler().batch_size(i),
            r is None <==> final(self).next_waiting() == final(self).waiting().len(),
            r matches Some((e, size)) ==> asks_for_next(
                *final(self),
                Advance::NeedBatch { energy: e, size },
            ),
    {
        while self.cursor < self.pending.len()
            invariant
                self.wf(),
                self.drained() == old(self).drained(),
                self.time == old(self).time,
                self.ising == old(self).ising,
                self.event_open == old(self).event_open,
                self.events == old(self).events,
                self.pending@ == old(self).pending@,
                forall|i: int|
                    0 <= i < 9 ==> #[trigger] self.sampler().batch_size(i) == old(
                        self,
                    ).sampler().batch_size(i),
            decreases self.pending@.len() - self.cursor,
        {
            let site = self.pending[self.cursor];
            let e = self.ising.energy(site);
            match self.buffers.batch_needed(e) {
                Some(size) => {
                    return Some((e, size));
                },
                None => {},
            }
            let tau = self.buffers.sample(e);
            let t = if tau > u64::MAX - self.time {
                u64::MAX
            } else {
                self.time + tau
            };
            calendar_push(&mut self.pq, site, t);
            self.cursor = self.cursor + 1;
            proof {
                assert(self.calendar().dom() =~= sites(self.ising.spec_n_cells()));
            }
        }
        None
    }

    /// Hands a freshly drawn batch of waiting times for `energy` to the
    /// sampler.
    pub fn refill(&mut self, energy: i8, batch: Vec<u64>)
        requires
            old(self).wf(),
            -4 <= energy <= 4,
        ensures
            final(self).wf(),
            final(self).clock() == old(self).clock(),
            final(self).lattice() == old(self).lattice(),
            final(self).calendar() == old(self).calendar(),
            final(self).waiting() == old(self).waiting(),
            final(self).next_waiting() == old(self).next_waiting(),
            final(self).in_event() == old(self).in_event(),
            final(self).event_count() == old(self).event_count(),
            final(self).sampler().buffer(energy + 4) == batch@ + old(self).sampler().buffer(
                energy + 4,
            ),
            final(self).sampler().batch_size(energy + 4) == next_batch_size(
                old(self).sampler().batch_size(energy + 4),
            ),
            forall|i: int|
                0 <= i < 9 && i != energy + 4 ==> #[trigger] final(self).sampler().buffer(i)
                    == old(self).sampler().buffer(i) && final(self).sampler().batch_size(i)
                    == old(self).sampler().batch_size(i),
    {
        self.buffers.refill(energy, batch);
    }

    /// Moves the simulation on by at most one spin flip; see `advance_post`.
    /// Stops early with `NeedBatch` when a buffer must be refilled; the next
    /// call resumes where this one stopped.
    pub fn advance(&mut self, t_final: u64) -> (r: Advance)
        requires
            old(self).wf(),
        ensures
            final(self).wf(),
            old(self).clock() <= final(self).clock(),
            advance_post(*old(self), *final(self), r, t_final),
    {
        match self.drain() {
            Some((energy, size)) => {
                return Advance::NeedBatch { energy, size };
            },
            None => {},
        }
        if self.event_open {
            self.event_open = false;
            return Advance::Flipped;
        }
        if self.time >= t_final {
            return Advance::Finished;
        }
        let (ix, t) = match calendar_peek_min(&self.pq) {
            Some(entry) => entry,
            None => {
                proof {
                    assert(self.calendar().dom().contains(0usize));
                    assert(!Set::<usize>::empty().contains(0usize));
                }
                return Advance::Finished;
            },
        };
        let ghost mid = *self;
        self.time = t;
        self.ising.flip_ix(ix);
        let nb = self.ising.neighbor_indices(ix);
        let mut pending: Vec<usize> = Vec::new();
        pending.push(ix);
        pending.push(nb.data[0]);
        pending.push(nb.data[1]);
        pending.push(nb.data[2]);
        pending.push(nb.data[3]);
        self.pending = pending;
        self.cursor = 0;
        self.event_open = true;
        if self.events < u64::MAX {
            self.events = self.events + 1;
        }
        proof {
            let w = self.ising.spec_width() as int;
            let h = self.ising.spec_height() as int;
            assert(self.pending@ =~= event_sites(ix, w, h));
            assert(self.calendar() == mid.calendar());
        }
        let res = match self.drain() {
            Some((energy, size)) => Advance::NeedBatch { energy, size },
            None => {
                self.event_open = false;
                Advance::Flipped
            },
        };
        proof {
            assert(mid.calendar()[ix] == self.time);
        }
        res
    }

    pub fn get_time(&self) -> (r: u64)
        ensures
            r == self.clock(),
    {
        self.time
    }

    pub fn get_ising(&self) -> (r: &Ising)
        ensures
            *r == self.lattice(),
    {
        &self.ising
    }

    /// The number of flips made since construction (saturating).
    pub fn get_event_count(&self) -> (r: u64)
        ensures
            r == self.event_count(),
    {
        self.events
    }

    /// The number of entries in the calendar.
    pub fn calendar_len(&self) -> (r: usize)
        ensures
            r == self.calendar().dom().len(),
    {
        calendar_len(&self.pq)
    }

    /// Whether every scheduled flip time is drawn.
    pub fn is_idle(&self) -> (r: bool)
        ensures
            r == self.idle(),
    {
        self.cursor == self.pending.len() && !self.event_open
    }
}

} // verus!
