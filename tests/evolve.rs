use ising_nrm::ising_evolve::{
    energy_to_index, Advance, IsingEvolutionManager, TimeDistributionsResultBuffer,
    MAX_BUF_SIZE, TICKS_PER_UNIT,
};
use ising_nrm::ising_store::Ising;
use rand::SeedableRng;
use rand_distr::{Distribution, Exp};
use rand_pcg::Pcg64Mcg;

fn draw(beta: f64, energy: i8, size: usize, rng: &mut Pcg64Mcg) -> Vec<u64> {
    let rate = (beta * energy as f64).exp();
    let d = Exp::new(rate).unwrap();
    (0..size)
        .map(|_| (d.sample(rng) * TICKS_PER_UNIT as f64) as u64)
        .collect()
}

fn evolve(
    m: &mut IsingEvolutionManager,
    beta: f64,
    t_final: u64,
    rng: &mut Pcg64Mcg,
    times: &mut Vec<u64>,
) -> u32 {
    let mut ct: u32 = 0;
    loop {
        match m.advance(t_final) {
            Advance::NeedBatch { energy, size } => {
                let batch = draw(beta, energy, size, rng);
                m.refill(energy, batch);
            }
            Advance::Flipped => {
                ct += 1;
                times.push(m.get_time());
            }
            Advance::Finished => return ct,
        }
    }
}

fn spins(m: &IsingEvolutionManager) -> Vec<bool> {
    let ising: &Ising = m.get_ising();
    let (_, _, n) = ising.get_size();
    (0..n).map(|ix| ising._get_ix(ix)).collect()
}

fn manager(width: usize, height: usize, seed: u64) -> (IsingEvolutionManager, Pcg64Mcg) {
    let mut rng = Pcg64Mcg::seed_from_u64(seed);
    let ising = Ising::new(width, height, &mut rng);
    (IsingEvolutionManager::new(ising), rng)
}

#[test]
fn energy_index_covers_all_slots() {
    assert_eq!(energy_to_index(-4), 0);
    assert_eq!(energy_to_index(0), 4);
    assert_eq!(energy_to_index(4), 8);
}

#[test]
fn buffer_refills_when_empty_and_hands_out_last_first() {
    let mut b = TimeDistributionsResultBuffer::new();
    for e in -4i8..=4 {
        assert_eq!(b.batch_needed(e), Some(100));
    }
    b.refill(2, vec![10, 20, 30]);
    assert_eq!(b.batch_needed(2), None);
    assert_eq!(b.batch_needed(1), Some(100));
    assert_eq!(b.sample(2), 30);
    assert_eq!(b.sample(2), 20);
    assert_eq!(b.sample(2), 10);
    assert_eq!(b.batch_needed(2), Some(200));
}

#[test]
fn buffer_refill_goes_beneath_what_is_left() {
    let mut b = TimeDistributionsResultBuffer::new();
    b.refill(-1, vec![1, 2]);
    b.refill(-1, vec![7, 8]);
    assert_eq!(b.sample(-1), 2);
    assert_eq!(b.sample(-1), 1);
    assert_eq!(b.sample(-1), 8);
    assert_eq!(b.sample(-1), 7);
}

#[test]
fn buffer_batch_size_doubles_up_to_the_cap() {
    let mut b = TimeDistributionsResultBuffer::new();
    let mut expected = 100usize;
    for _ in 0..14 {
        assert_eq!(b.batch_needed(0), Some(expected));
        b.refill(0, vec![5]);
        assert_eq!(b.sample(0), 5);
        expected = std::cmp::min(2 * expected, MAX_BUF_SIZE);
    }
    assert_eq!(b.batch_needed(0), Some(131072));
}

#[test]
fn buffered_samples_have_exponential_mean() {
    let mut rng = Pcg64Mcg::seed_from_u64(11);
    let beta = 0.5;
    for e in [-4i8, 0, 3] {
        let mut b = TimeDistributionsResultBuffer::new();
        let mut total = 0.0f64;
        let n = 20000;
        for _ in 0..n {
            if let Some(size) = b.batch_needed(e) {
                b.refill(e, draw(beta, e, size, &mut rng));
            }
            total += b.sample(e) as f64 / TICKS_PER_UNIT as f64;
        }
        let mean = total / n as f64;
        let expected = 1.0 / (beta * e as f64).exp();
        assert!((mean - expected).abs() < 0.05 * expected, "{} vs {}", mean, expected);
    }
}

#[test]
fn fresh_scheduler_until_zero_processes_nothing() {
    let (mut m, mut rng) = manager(8, 8, 1);
    let before = spins(&m);
    let mut times = Vec::new();
    assert_eq!(evolve(&mut m, 0.4, 0, &mut rng, &mut times), 0);
    assert_eq!(m.get_time(), 0);
    assert_eq!(spins(&m), before);
    assert!(m.is_idle());
    assert_eq!(m.calendar_len(), 64);
}

#[test]
fn calendar_keeps_one_entry_per_site() {
    let (mut m, mut rng) = manager(8, 4, 2);
    assert_eq!(m.calendar_len(), 32);
    let mut times = Vec::new();
    for k in 1..5u64 {
        evolve(&mut m, 0.4, k * TICKS_PER_UNIT, &mut rng, &mut times);
        assert_eq!(m.calendar_len(), 32);
    }
}

#[test]
fn clock_never_goes_back() {
    let (mut m, mut rng) = manager(16, 16, 3);
    let mut times = Vec::new();
    let ct = evolve(&mut m, 0.44, 3 * TICKS_PER_UNIT, &mut rng, &mut times);
    assert!(ct > 0);
    assert_eq!(times.len(), ct as usize);
    for w in times.windows(2) {
        assert!(w[0] <= w[1]);
    }
    assert!(m.get_time() >= 3 * TICKS_PER_UNIT);
    assert_eq!(m.get_event_count(), ct as u64);
    assert_eq!(*times.last().unwrap(), m.get_time());
}

#[test]
fn split_evolution_matches_a_single_run() {
    let (mut a, mut rng_a) = manager(16, 8, 4);
    let (mut b, mut rng_b) = manager(16, 8, 4);
    let mut ta = Vec::new();
    let mut tb = Vec::new();
    let first = evolve(&mut a, 0.5, 2 * TICKS_PER_UNIT, &mut rng_a, &mut ta);
    let second = evolve(&mut a, 0.5, 5 * TICKS_PER_UNIT, &mut rng_a, &mut ta);
    let whole = evolve(&mut b, 0.5, 5 * TICKS_PER_UNIT, &mut rng_b, &mut tb);
    assert_eq!(first + second, whole);
    assert_eq!(a.get_event_count(), b.get_event_count());
    assert_eq!(a.get_time(), b.get_time());
    assert_eq!(spins(&a), spins(&b));
    assert_eq!(ta, tb);
}

#[test]
fn zero_beta_flips_every_energy_class_at_unit_rate() {
    let (mut m, mut rng) = manager(16, 16, 5);
    let mut times = Vec::new();
    let ct = evolve(&mut m, 0.0, 4 * TICKS_PER_UNIT, &mut rng, &mut times);
    // 256 sites flipping at rate 1 for 4 time units: about 1024 flips.
    assert!(ct > 850 && ct < 1200, "{}", ct);
}

#[test]
fn initialized_scheduler_past_target_does_nothing() {
    let (mut m, mut rng) = manager(8, 8, 6);
    let mut times = Vec::new();
    evolve(&mut m, 0.4, TICKS_PER_UNIT, &mut rng, &mut times);
    let spins_before = spins(&m);
    let time_before = m.get_time();
    let count_before = m.get_event_count();
    assert!(matches!(m.advance(TICKS_PER_UNIT), Advance::Finished));
    assert!(matches!(m.advance(0), Advance::Finished));
    assert_eq!(spins(&m), spins_before);
    assert_eq!(m.get_time(), time_before);
    assert_eq!(m.get_event_count(), count_before);
}

#[test]
fn each_flip_changes_exactly_one_spin() {
    let (mut m, mut rng) = manager(8, 8, 7);
    let beta = 0.4;
    let mut prev = spins(&m);
    let mut flips = 0;
    while flips < 200 {
        match m.advance(u64::MAX) {
            Advance::NeedBatch { energy, size } => {
                let batch = draw(beta, energy, size, &mut rng);
                m.refill(energy, batch);
            }
            Advance::Flipped => {
                let now = spins(&m);
                let changed = now.iter().zip(prev.iter()).filter(|(a, b)| a != b).count();
                assert_eq!(changed, 1);
                prev = now;
                flips += 1;
            }
            Advance::Finished => panic!("the target is never reached"),
        }
    }
    assert_eq!(m.get_event_count(), 200);
    assert_eq!(m.calendar_len(), 64);
}
