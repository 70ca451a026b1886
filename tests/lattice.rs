use ising_nrm::ising_store::Ising;
use rand::SeedableRng;
use rand_pcg::Pcg64Mcg;

fn lattice(width: usize, height: usize, seed: u64) -> Ising {
    let mut rng = Pcg64Mcg::seed_from_u64(seed);
    Ising::new(width, height, &mut rng)
}

fn set_all(ising: &mut Ising, up: bool) {
    let (_, _, n) = ising.get_size();
    for ix in 0..n {
        if ising._get_ix(ix) != up {
            ising.flip_ix(ix);
        }
    }
}

#[test]
fn new_lattice_has_requested_size() {
    let ising = lattice(8, 4, 1);
    assert_eq!(ising.get_size(), (8, 4, 32));
}

#[test]
fn coordinates_round_trip() {
    let ising = lattice(8, 4, 2);
    assert_eq!(ising.xy_to_ix(3, 2), 19);
    assert_eq!(ising.ix_to_xy(19), (3, 2));
    for ix in 0..32 {
        let (x, y) = ising.ix_to_xy(ix);
        assert_eq!(ising.xy_to_ix(x, y), ix);
    }
}

#[test]
fn neighbors_wrap_around_the_torus() {
    let ising = lattice(4, 4, 3);
    assert_eq!(ising.neighbor_indices(0).data, [3, 1, 12, 4]);
    assert_eq!(ising.neighbor_indices(15).data, [14, 12, 11, 3]);
    assert_eq!(ising.neighbor_indices(5).data, [4, 6, 1, 9]);
}

#[test]
fn narrow_lattice_counts_repeated_neighbors() {
    let mut ising = lattice(2, 4, 4);
    set_all(&mut ising, true);
    assert_eq!(ising.neighbor_indices(0).data, [1, 1, 6, 2]);
    for ix in 0..8 {
        assert_eq!(ising.neighbor_states(ix).data, [true, true, true, true]);
        assert_eq!(ising.energy(ix), -4);
    }
}

#[test]
fn energy_formula_on_a_mixed_neighborhood() {
    let mut ising = lattice(4, 4, 5);
    set_all(&mut ising, true);
    // Site 5 up with one neighbour (6) down: total = 2, energy = -2.
    ising.flip_ix(6);
    assert_eq!(ising.energy(5), -2);
    // Site 6 down with four up neighbours: energy = +4.
    assert_eq!(ising.energy(6), 4);
    // Site 5 down as well: its total is 2 and it is down, so +2.
    ising.flip_ix(5);
    assert_eq!(ising.energy(5), 2);
}

#[test]
fn energy_stays_in_range_on_random_lattices() {
    for seed in 0..5 {
        let ising = lattice(16, 8, seed);
        for ix in 0..128 {
            let e = ising.energy(ix);
            assert!((-4..=4).contains(&e));
        }
    }
}

#[test]
fn flipping_twice_restores_spin_and_energy() {
    let mut ising = lattice(8, 8, 6);
    for ix in [0usize, 7, 31, 63] {
        let spin = ising._get_ix(ix);
        let energies: Vec<i8> = (0..64).map(|i| ising.energy(i)).collect();
        ising.flip_ix(ix);
        assert_ne!(ising._get_ix(ix), spin);
        assert_eq!(ising.energy(ix), -energies[ix]);
        ising.flip_ix(ix);
        assert_eq!(ising._get_ix(ix), spin);
        let again: Vec<i8> = (0..64).map(|i| ising.energy(i)).collect();
        assert_eq!(again, energies);
    }
}

#[test]
fn magnetization_of_uniform_lattices() {
    let mut ising = lattice(8, 4, 7);
    set_all(&mut ising, true);
    assert_eq!(ising.magnetization(), (32, 32));
    assert_eq!(ising.count_up(), 32);
    set_all(&mut ising, false);
    assert_eq!(ising.magnetization(), (-32, 32));
    assert_eq!(ising.count_up(), 0);
}

#[test]
fn magnetization_counts_up_spins() {
    let mut ising = lattice(8, 4, 8);
    set_all(&mut ising, false);
    ising.flip_ix(3);
    ising.flip_ix(9);
    ising.flip_ix(30);
    assert_eq!(ising.count_up(), 3);
    assert_eq!(ising.magnetization(), (6 - 32, 32));
}

#[test]
fn random_lattice_is_mixed_and_bounded() {
    let ising = lattice(32, 32, 9);
    let up = (0..1024).filter(|&ix| ising._get_ix(ix)).count() as u64;
    assert_eq!(ising.count_up(), up);
    assert!(up > 0 && up < 1024);
    let (num, den) = ising.magnetization();
    assert_eq!(den, 1024);
    assert!(-(den as i128) <= num && num <= den as i128);
}
