use bit_vec::BitVec;
use rand_pcg::Pcg64Mcg;
use vstd::prelude::*;

verus! {

#[verifier::external_type_specification]
#[verifier::external_body]
#[verifier::reject_recursive_types(B)]
pub struct ExBitVec<B>(BitVec<B>);

#[verifier::external_type_specification]
#[verifier::external_body]
pub struct ExPcg64Mcg(Pcg64Mcg);

/// The bits held by a bit vector, in index order.
pub uninterp spec fn bits_of(b: BitVec) -> Seq<bool>;

/// Bit `k` of a byte, counting from the most significant bit.
pub open spec fn byte_bit(byte: u8, k: int) -> bool {
    (byte >> ((7 - k) as u8)) & 1u8 == 1u8
}

/// Relies on `RngCore::fill_bytes`: it overwrites the bytes in place and keeps
/// their number.
#[verifier::external_body]
fn fill_random(rng: &mut Pcg64Mcg, bytes: &mut Vec<u8>)
    ensures
        final(bytes)@.len() == old(bytes)@.len(),
{
    rand::RngCore::fill_bytes(rng, bytes.as_mut_slice())
}

/// Relies on `BitVec::from_bytes`: eight bits per byte, most significant bit
/// first; it panics when the bit count overflows `usize`.
#[verifier::external_body]
fn bits_from_bytes(bytes: &Vec<u8>) -> (r: BitVec)
    requires
        bytes@.len() * 8 <= usize::MAX,
    ensures
        bits_of(r).len() == bytes@.len() * 8,
        forall|i: int|
            0 <= i < bits_of(r).len() ==> bits_of(r)[i] == byte_bit(#[trigger] bytes@[i / 8], i % 8),
{
    BitVec::from_bytes(bytes.as_slice())
}

/// Relies on `BitVec`'s indexing: the bit at `i`; it panics out of bounds.
#[verifier::external_body]
fn bit_at(b: &BitVec, i: usize) -> (r: bool)
    requires
        i < bits_of(*b).len(),
    ensures
        r == bits_of(*b)[i as int],
{
    b[i]
}

/// Relies on `BitVec::set`: it overwrites the bit at `i` and nothing else; it
/// panics out of bounds.
#[verifier::external_body]
fn set_bit(b: &mut BitVec, i: usize, x: bool)
    requires
        i < bits_of(*old(b)).len(),
    ensures
        bits_of(*final(b)) == bits_of(*old(b)).update(i as int, x),
{
    b.set(i, x)
}

/// The number of `true` entries of a sequence.
pub open spec fn count_true(s: Seq<bool>) -> nat
    decreases s.len(),
{
    if s.len() == 0 {
        0
    } else {
        count_true(s.drop_last()) + if s.last() { 1nat } else { 0nat }
    }
}

/// Relies on `BitVec::count_ones`: the number of set bits.
#[verifier::external_body]
fn ones_count(b: &BitVec) -> (r: u64)
    ensures
        r == count_true(bits_of(*b)),
{
    b.count_ones()
}


/// The spin value of a site: +1 when up, -1 when down.
pub open spec fn spin_value(up: bool) -> int {
    if up {
        1
    } else {
        -1
    }
}

/// The column of the site to the left of column `x`, wrapping at the edge.
pub open spec fn left_of(x: int, w: int) -> int {
    if x == 0 {
        w - 1
    } else {
        x - 1
    }
}

/// The column of the site to the right of column `x`, wrapping at the edge.
pub open spec fn right_of(x: int, w: int) -> int {
    if x + 1 == w {
        0
    } else {
        x + 1
    }
}

/// The four toroidal neighbours of site `ix` on a `w`-wide, `h`-high lattice:
/// left, right, up, down.
pub open spec fn neighbors_of(ix: int, w: int, h: int) -> Seq<int> {
    let x = ix % w;
    let y = ix / w;
    seq![
        y * w + left_of(x, w),
        y * w + right_of(x, w),
        left_of(y, h) * w + x,
        right_of(y, h) * w + x,
    ]
}

/// The cost of flipping site `ix`: minus the product of its spin with the sum
/// of its four neighbours' spins.
pub open spec fn energy_of(s: Seq<bool>, ix: int, w: int, h: int) -> int {
    let nb = neighbors_of(ix, w, h);
    let total = spin_value(s[nb[0]]) + spin_value(s[nb[1]]) + spin_value(s[nb[2]])
        + spin_value(s[nb[3]]);
    if s[ix] {
        -total
    } else {
        total
    }
}

/// The spins after flipping site `ix`.
pub open spec fn flipped(s: Seq<bool>, ix: int) -> Seq<bool> {
    s.update(ix, !s[ix])
}

/// Four values, one per neighbour of a site: left, right, up, down.
pub struct NeighborData<T> {
    pub data: [T; 4],
}

/// A toroidal grid of two-state spins, stored one bit per site.
pub struct Ising {
    store: BitVec,
    width: usize,
    height: usize,
    n_cells: usize,
}

impl Ising {
    /// The number of neighbours of a site, not counting the site itself.
    pub const NUM_NEIGHBORS: u8 = 4;

    /// The number of values that a site's energy can take.
    pub const NUM_ENERGIES: u8 = 9;

    /// The spins, by linear index `y * width + x`.
    pub closed spec fn spins(&self) -> Seq<bool> {
        bits_of(self.store)
    }

    pub closed spec fn spec_width(&self) -> nat {
        self.width as nat
    }

    pub closed spec fn spec_height(&self) -> nat {
        self.height as nat
    }

    pub closed spec fn spec_n_cells(&self) -> nat {
        self.n_cells as nat
    }

    pub closed spec fn wf(&self) -> bool {
        &&& self.n_cells == self.width * self.height
        &&& self.n_cells % 8 == 0
        &&& bits_of(self.store).len() == self.n_cells
    }

    pub proof fn lemma_wf(&self)
        requires
            self.wf(),
        ensures
            self.spec_n_cells() == self.spec_width() * self.spec_height(),
            self.spec_n_cells() % 8 == 0,
            self.spins().len() == self.spec_n_cells(),
            self.spec_n_cells() <= usize::MAX,
    {
    }

    /// The energy of site `ix` in the current state.
    pub open spec fn spec_energy(&self, ix: int) -> int {
        energy_of(self.spins(), ix, self.spec_width() as int, self.spec_height() as int)
    }

    /// Builds a `width` by `height` lattice with every spin drawn uniformly at
    /// random from `rng`.
    pub fn new(width: usize, height: usize, rng: &mut Pcg64Mcg) -> (r: Ising)
        requires
            width * height <= usize::MAX,
            (width * height) % 8 == 0,
        ensures
            r.wf(),
            r.spec_width() == width,
            r.spec_height() == height,
            r.spec_n_cells() == width * height,
    {
        let n_cells = width * height;
        let n_bytes = n_cells / 8;
        let mut bytes: Vec<u8> = vec![0u8; n_bytes];
        fill_random(rng, &mut bytes);
        let store = bits_from_bytes(&bytes);
        Ising { store, width, height, n_cells }
    }

    pub fn xy_to_ix(&self, x: usize, y: usize) -> (r: usize)
        requires
            self.wf(),
            x < self.spec_width(),
            y < self.spec_height(),
        ensures
            r == y * self.spec_width() + x,
            r < self.spec_n_cells(),
    {
        proof {
            lemma_index_in_grid(x as int, y as int, self.width as int, self.height as int);
        }
        y * self.width + x
    }

    pub fn ix_to_xy(&self, ix: usize) -> (r: (usize, usize))
        requires
            self.wf(),
            ix < self.spec_n_cells(),
        ensures
            r.0 == (ix as int) % (self.spec_width() as int),
            r.1 == (ix as int) / (self.spec_width() as int),
            r.0 < self.spec_width(),
            r.1 < self.spec_height(),
    {
        proof {
            lemma_coords_in_grid(ix as int, self.width as int, self.height as int);
        }
        (ix % self.width, ix / self.width)
    }

    pub fn get_size(&self) -> (r: (usize, usize, usize))
        ensures
            r.0 == self.spec_width(),
            r.1 == self.spec_height(),
            r.2 == self.spec_n_cells(),
    {
        (self.width, self.height, self.n_cells)
    }

    /// The indices of the four toroidal neighbours of `ix`: left, right, up,
    /// down. On a lattice one or two sites wide or high some of them coincide.
    pub fn neighbor_indices(&self, ix: usize) -> (r: NeighborData<usize>)
        requires
            self.wf(),
            ix < self.spec_n_cells(),
        ensures
            forall|k: int|
                0 <= k < 4 ==> r.data@[k] == neighbors_of(
                    ix as int,
                    self.spec_width() as int,
                    self.spec_height() as int,
                )[k],
            forall|k: int| 0 <= k < 4 ==> r.data@[k] < self.spec_n_cells(),
    {
        let (x, y) = self.ix_to_xy(ix);
        let left_x = if x == 0 {
            self.width - 1
        } else {
            x - 1
        };
        let right_x = if x + 1 == self.width {
            0
        } else {
            x + 1
        };
        let up_y = if y == 0 {
            self.height - 1
        } else {
            y - 1
        };
        let down_y = if y + 1 == self.height {
            0
        } else {
            y + 1
        };
        let left_ix = self.xy_to_ix(left_x, y);
        let right_ix = self.xy_to_ix(right_x, y);
        let up_ix = self.xy_to_ix(x, up_y);
        let down_ix = self.xy_to_ix(x, down_y);
        NeighborData { data: [left_ix, right_ix, up_ix, down_ix] }
    }

    /// The spins of the four neighbours of `ix`, in the order of
    /// `neighbor_indices`.
    pub fn neighbor_states(&self, ix: usize) -> (r: NeighborData<bool>)
        requires
            self.wf(),
            ix < self.spec_n_cells(),
        ensures
            forall|k: int|
                0 <= k < 4 ==> r.data@[k] == self.spins()[neighbors_of(
                    ix as int,
                    self.spec_width() as int,
                    self.spec_height() as int,
                )[k]],
    {
        let nb = self.neighbor_indices(ix);
        let s0 = bit_at(&self.store, nb.data[0]);
        let s1 = bit_at(&self.store, nb.data[1]);
        let s2 = bit_at(&self.store, nb.data[2]);
        let s3 = bit_at(&self.store, nb.data[3]);
        NeighborData { data: [s0, s1, s2, s3] }
    }

    /// The energetic cost of flipping site `ix`, always in [-4, 4].
    pub fn energy(&self, ix: usize) -> (r: i8)
        requires
            self.wf(),
            ix < self.spec_n_cells(),
        ensures
            r == self.spec_energy(ix as int),
            -4 <= r <= 4,
    {
        let states = self.neighbor_states(ix);
        let mut total: i8 = 0;
        let mut k: usize = 0;
        while k < 4
            invariant
                0 <= k <= 4,
                -(k as int) <= total <= k as int,
                total == sum_spins(states.data@, k as int),
            decreases 4 - k,
        {
            if states.data[k] {
                total = total + 1;
            } else {
                total = total - 1;
            }
            k = k + 1;
        }
        proof {
            let d = states.data@;
            assert(sum_spins(d, 0) == 0);
            assert(sum_spins(d, 1) == spin_value(d[0]));
            assert(sum_spins(d, 2) == spin_value(d[0]) + spin_value(d[1]));
            assert(sum_spins(d, 3) == spin_value(d[0]) + spin_value(d[1]) + spin_value(d[2]));
        }
        if bit_at(&self.store, ix) {
            -total
        } else {
            total
        }
    }

    /// Whether site `ix` is up.
    pub fn _get_ix(&self, ix: usize) -> (r: bool)
        requires
            self.wf(),
            ix < self.spec_n_cells(),
        ensures
            r == self.spins()[ix as int],
    {
        bit_at(&self.store, ix)
    }

    /// Reverses the spin of site `ix`.
    pub fn flip_ix(&mut self, ix: usize)
        requires
            old(self).wf(),
            ix < old(self).spec_n_cells(),
        ensures
            final(self).wf(),
            final(self).spins() == flipped(old(self).spins(), ix as int),
            final(self).spec_width() == old(self).spec_width(),
            final(self).spec_height() == old(self).spec_height(),
            final(self).spec_n_cells() == old(self).spec_n_cells(),
    {
        let cur = bit_at(&self.store, ix);
        set_bit(&mut self.store, ix, !cur);
    }

    /// The number of up spins.
    pub fn count_up(&self) -> (r: u64)
        ensures
            r == count_true(self.spins()),
    {
        ones_count(&self.store)
    }

    /// The magnetization `(2 * up - n) / n` as its numerator and denominator.
    pub fn magnetization(&self) -> (r: (i128, u64))
        requires
            self.wf(),
        ensures
            r.0 == 2 * count_true(self.spins()) - self.spec_n_cells(),
            r.1 == self.spec_n_cells(),
            -(r.1 as int) <= r.0 <= r.1,
    {
        let up = ones_count(&self.store);
        proof {
            lemma_count_true_bounds(self.spins());
        }
        let n = self.n_cells as u64;
        let num: i128 = 2 * (up as i128) - (n as i128);
        (num, n)
    }
}

/// The sum of the spin values of the first `k` entries.
pub open spec fn sum_spins(s: Seq<bool>, k: int) -> int
    decreases k,
{
    if k <= 0 {
        0
    } else {
        sum_spins(s, k - 1) + spin_value(s[k - 1])
    }
}

proof fn lemma_index_in_grid(x: int, y: int, w: int, h: int)
    requires
        0 <= x < w,
        0 <= y < h,
    ensures
        y * w + x < w * h,
{
    assert(y * w + x < w * h) by (nonlinear_arith)
        requires
            0 <= x < w,
            0 <= y < h,
    ;
}

proof fn lemma_coords_in_grid(ix: int, w: int, h: int)
    requires
        0 <= ix < w * h,
        0 <= w,
        0 <= h,
    ensures
        w > 0,
        0 <= ix % w < w,
        0 <= ix / w < h,
{
    assert(w > 0) by (nonlinear_arith)
        requires
            0 <= ix < w * h,
            0 <= w,
            0 <= h,
    ;
    assert(ix / w < h) by (nonlinear_arith)
        requires
            0 <= ix < w * h,
            w > 0,
    ;
}

pub proof fn lemma_count_true_bounds(s: Seq<bool>)
    ensures
        count_true(s) <= s.len(),
    decreases s.len(),
{
    if s.len() > 0 {
        lemma_count_true_bounds(s.drop_last());
    }
}

/// Every site's energy lies in [-4, 4], whatever the spins.
pub proof fn energy_in_range(s: Seq<bool>, ix: int, w: int, h: int)
    ensures
        -4 <= energy_of(s, ix, w, h) <= 4,
{
}

/// Flipping a site twice restores every spin, and with them every site's
/// energy.
pub proof fn flip_twice_restores(s: Seq<bool>, ix: int, w: int, h: int)
    requires
        0 <= ix < s.len(),
    ensures
        flipped(flipped(s, ix), ix) == s,
        forall|j: int| #[trigger] energy_of(flipped(flipped(s, ix), ix), j, w, h) == energy_of(s, j, w, h),
{
    assert(flipped(flipped(s, ix), ix) =~= s);
}

/// On a lattice with every spin up, every site has energy -4.
pub proof fn all_up_energy(s: Seq<bool>, ix: int, w: int, h: int)
    requires
        w > 0,
        h > 0,
        s.len() == w * h,
        0 <= ix < s.len(),
        forall|i: int| 0 <= i < s.len() ==> #[trigger] s[i],
    ensures
        energy_of(s, ix, w, h) == -4,
{
    lemma_coords_in_grid(ix, w, h);
    let x = ix % w;
    let y = ix / w;
    lemma_index_in_grid(left_of(x, w), y, w, h);
    lemma_index_in_grid(right_of(x, w), y, w, h);
    lemma_index_in_grid(x, left_of(y, h), w, h);
    lemma_index_in_grid(x, right_of(y, h), w, h);
}

/// The magnetization numerator `2 * up - n` equals `n` on an all-up lattice
/// and `-n` on an all-down one.
pub proof fn uniform_magnetization(s: Seq<bool>)
    ensures
        (forall|i: int| 0 <= i < s.len() ==> #[trigger] s[i]) ==> 2 * count_true(s) - s.len()
            == s.len(),
        (forall|i: int| 0 <= i < s.len() ==> !#[trigger] s[i]) ==> 2 * count_true(s) - s.len()
            == -(s.len() as int),
    decreases s.len(),
{
    if s.len() > 0 {
        uniform_magnetization(s.drop_last());
        assert(forall|i: int| 0 <= i < s.len() - 1 ==> #[trigger] s.drop_last()[i] == s[i]);
    }
}

} // verus!
