use ising2d::AcceptanceTable;
use ising2d::IsingError;
use ising2d::Lattice;
use ising2d::RandomSource;
use ising2d::SweepEngine;
use ising2d::f64_bits_lt;
use ising2d::ising2d_sum_of_adjacent_spins;
use ising2d::render_pbm;
use ising2d::unit_bits_from_draw;
use ising2d::UNIT_ONE_BITS;

/// The nine Metropolis probabilities exp(-2 * beta * k), k in -4..=4, as
/// bit patterns, the way a caller of the library prepares a table.
fn table_bits(beta: f64) -> Vec<u64> {
    let mut v: Vec<u64> = Vec::new();
    for k in -4i32..=4i32 {
        v.push((-2.0 * beta * (k as f64)).exp().to_bits());
    }
    v
}

fn all_plus_one(rows: usize, cols: usize) -> Lattice {
    let spins: Vec<i8> = vec![1i8; rows * cols];
    Lattice::from_spins(rows, cols, spins).unwrap()
}

fn spins_of(lat: &Lattice) -> Vec<i8> {
    let mut out: Vec<i8> = Vec::new();
    for i in 0..lat.rows() {
        for j in 0..lat.cols() {
            out.push(lat.get(i, j));
        }
    }
    out
}

#[test]
fn spins_stay_valid_through_init_and_run() {
    let mut rng = RandomSource::from_seed(42);
    let mut lat = Lattice::initialize_random(5, 7, &mut rng).unwrap();
    for v in spins_of(&lat) {
        assert!(v == -1 || v == 1);
    }
    let table = AcceptanceTable::from_bits(table_bits(0.4407));
    SweepEngine::run(&mut lat, &table, 3 * 5 * 7, &mut rng);
    for v in spins_of(&lat) {
        assert!(v == -1 || v == 1);
    }
}

#[test]
fn neighbor_sum_wraps_at_corner() {
    // a 3 x 4 grid with an irregular pattern
    let spins: Vec<i8> = vec![
        1, -1, 1, 1, //
        -1, -1, 1, -1, //
        1, 1, -1, -1,
    ];
    let lat = Lattice::from_spins(3, 4, spins).unwrap();
    let expected = lat.get(1, 0) as i32
        + lat.get(2, 0) as i32
        + lat.get(0, 1) as i32
        + lat.get(0, 3) as i32;
    assert_eq!(lat.neighbor_sum(0, 0) as i32, expected);
    // and at the opposite corner
    let expected2 = lat.get(0, 3) as i32
        + lat.get(1, 3) as i32
        + lat.get(2, 0) as i32
        + lat.get(2, 2) as i32;
    assert_eq!(lat.neighbor_sum(2, 3) as i32, expected2);
}

#[test]
fn neighbor_sum_free_function_matches_method() {
    let spins: Vec<i8> = vec![1, -1, -1, 1, 1, -1];
    let lat = Lattice::from_spins(2, 3, spins.clone()).unwrap();
    for i in 0..2 {
        for j in 0..3 {
            assert_eq!(
                ising2d_sum_of_adjacent_spins(&spins, 2, 3, i, j),
                lat.neighbor_sum(i, j)
            );
        }
    }
}

#[test]
fn probability_matches_exponential() {
    let beta_crit = (1.0 + 2.0f64.sqrt()).ln() / 2.0;
    for beta in [0.0, beta_crit, 10.0] {
        let table = AcceptanceTable::from_bits(table_bits(beta));
        for k in -4i8..=4i8 {
            let got = f64::from_bits(table.probability(k));
            let want = (-2.0 * beta * (k as f64)).exp();
            assert!((got - want).abs() <= 1e-12 * want.abs().max(1.0));
        }
    }
}

#[test]
fn probability_at_beta_zero_is_one() {
    let table = AcceptanceTable::from_bits(table_bits(0.0));
    for k in -4i8..=4i8 {
        assert_eq!(f64::from_bits(table.probability(k)), 1.0);
    }
}

#[test]
fn fewer_updates_than_sites_change_nothing() {
    let mut rng = RandomSource::from_seed(7);
    let mut lat = Lattice::initialize_random(6, 6, &mut rng).unwrap();
    let before = spins_of(&lat);
    let table = AcceptanceTable::from_bits(table_bits(0.1));
    SweepEngine::run(&mut lat, &table, 35, &mut rng);
    assert_eq!(spins_of(&lat), before);
    assert_eq!(lat.rows(), 6);
    assert_eq!(lat.cols(), 6);
}

#[test]
fn zero_updates_change_nothing() {
    let mut rng = RandomSource::from_seed(7);
    let mut lat = all_plus_one(4, 4);
    let table = AcceptanceTable::from_bits(table_bits(1.0));
    SweepEngine::run(&mut lat, &table, 0, &mut rng);
    assert_eq!(spins_of(&lat), vec![1i8; 16]);
}

#[test]
fn same_seed_gives_identical_runs() {
    let beta_crit = (1.0 + 2.0f64.sqrt()).ln() / 2.0;
    let table = AcceptanceTable::from_bits(table_bits(beta_crit));
    let mut rng1 = RandomSource::from_seed(123456789);
    let mut rng2 = RandomSource::from_seed(123456789);
    let mut lat1 = Lattice::initialize_random(10, 10, &mut rng1).unwrap();
    let mut lat2 = Lattice::initialize_random(10, 10, &mut rng2).unwrap();
    assert_eq!(spins_of(&lat1), spins_of(&lat2));
    SweepEngine::run(&mut lat1, &table, 5 * 100, &mut rng1);
    SweepEngine::run(&mut lat2, &table, 5 * 100, &mut rng2);
    assert_eq!(spins_of(&lat1), spins_of(&lat2));
}

#[test]
fn different_seeds_give_different_grids() {
    // not a guarantee in principle, but for these seeds the 100-site
    // grids differ, which shows the seed actually feeds the generator
    let mut rng1 = RandomSource::from_seed(1);
    let mut rng2 = RandomSource::from_seed(2);
    let lat1 = Lattice::initialize_random(10, 10, &mut rng1).unwrap();
    let lat2 = Lattice::initialize_random(10, 10, &mut rng2).unwrap();
    assert_ne!(spins_of(&lat1), spins_of(&lat2));
}

#[test]
fn high_draw_freezes_cold_grid() {
    // all spins +1, beta = 1, one full sweep, every draw 0.99: every site
    // has k = +4 and probability exp(-8), so nothing flips
    let mut lat = all_plus_one(2, 2);
    let table = AcceptanceTable::from_bits(table_bits(1.0));
    let mut rng = RandomSource::constant_unit((0.99f64).to_bits());
    SweepEngine::run(&mut lat, &table, 4, &mut rng);
    assert_eq!(spins_of(&lat), vec![1i8, 1, 1, 1]);
}

#[test]
fn zero_draw_flips_every_site_in_raster_order() {
    // all spins +1, beta = 1, one full sweep, every draw 0.0: every
    // probability is positive, so every site flips as it is visited
    let mut lat = all_plus_one(2, 2);
    let table = AcceptanceTable::from_bits(table_bits(1.0));
    let mut rng = RandomSource::constant_unit(0);
    SweepEngine::run(&mut lat, &table, 4, &mut rng);
    assert_eq!(spins_of(&lat), vec![-1i8, -1, -1, -1]);
}

#[test]
fn flips_propagate_within_a_sweep() {
    // handcrafted table: accept surely at k = +4, never at k = 0; with
    // draws of 0.99 the first and last site of a 2 x 2 grid flip and the
    // middle sites see the first flip immediately
    let mut bits: Vec<u64> = vec![0u64; 9];
    bits[8] = (1.0f64).to_bits();
    let mut lat = all_plus_one(2, 2);
    let table = AcceptanceTable::from_bits(bits);
    let mut rng = RandomSource::constant_unit((0.99f64).to_bits());
    SweepEngine::run(&mut lat, &table, 4, &mut rng);
    assert_eq!(spins_of(&lat), vec![-1i8, 1, 1, -1]);
}

#[test]
fn non_square_sweep_follows_row_major_order() {
    // 2 x 3 grid, all +1; accept surely at k = +4, never elsewhere.
    // site (0,0) has sum +4 and flips; that flip is seen live, so of the
    // remaining sites only (1,1) still reaches k = +4 and flips
    let mut bits: Vec<u64> = vec![0u64; 9];
    bits[8] = (1.0f64).to_bits();
    let mut lat = all_plus_one(2, 3);
    let table = AcceptanceTable::from_bits(bits);
    let mut rng = RandomSource::constant_unit((0.5f64).to_bits());
    SweepEngine::run(&mut lat, &table, 6, &mut rng);
    assert_eq!(spins_of(&lat), vec![-1i8, 1, 1, 1, -1, 1]);
}

#[test]
fn render_non_square_grid_lists_cols_then_rows() {
    let lat = Lattice::from_spins(2, 3, vec![1i8, 1, 1, -1, -1, -1]).unwrap();
    let bytes = render_pbm(&lat);
    assert_eq!(bytes, b"P1\n3 2\n1 1 1 \n0 0 0 \n\n".to_vec());
}

#[test]
fn remainder_updates_are_dropped() {
    // 7 updates on 4 sites: one sweep runs, the partial sweep does not
    let mut lat1 = all_plus_one(2, 2);
    let mut lat2 = all_plus_one(2, 2);
    let table = AcceptanceTable::from_bits(table_bits(1.0));
    let mut rng1 = RandomSource::constant_unit(0);
    let mut rng2 = RandomSource::constant_unit(0);
    SweepEngine::run(&mut lat1, &table, 7, &mut rng1);
    SweepEngine::run(&mut lat2, &table, 4, &mut rng2);
    assert_eq!(spins_of(&lat1), spins_of(&lat2));
}

#[test]
fn negative_beta_is_permitted_and_favors_disorder() {
    // beta = -1 turns the table upside down: entries above 1.0 behave as
    // "always accept". On an all +1 grid with draws of 0.99 the first
    // three sites flip (k = +4 then k = 0 twice); the last site then
    // sees k = -4 with probability exp(-8) and stays
    let mut lat = all_plus_one(2, 2);
    let table = AcceptanceTable::from_bits(table_bits(-1.0));
    let mut rng = RandomSource::constant_unit((0.99f64).to_bits());
    SweepEngine::run(&mut lat, &table, 4, &mut rng);
    assert_eq!(spins_of(&lat), vec![-1i8, -1, -1, 1]);
}

#[test]
fn zero_dimension_is_rejected() {
    let mut rng = RandomSource::from_seed(3);
    assert!(matches!(
        Lattice::initialize_random(0, 5, &mut rng),
        Err(IsingError::InvalidDimension)
    ));
    assert!(matches!(
        Lattice::initialize_random(5, 0, &mut rng),
        Err(IsingError::InvalidDimension)
    ));
    assert!(matches!(
        Lattice::from_spins(0, 5, Vec::new()),
        Err(IsingError::InvalidDimension)
    ));
}

#[test]
fn mismatched_buffer_is_rejected() {
    let spins: Vec<i8> = vec![1, 1, 1];
    assert!(matches!(
        Lattice::from_spins(2, 2, spins),
        Err(IsingError::InvalidDimension)
    ));
}

#[test]
fn constant_source_is_constant() {
    let bits = (0.25f64).to_bits();
    let mut rng = RandomSource::constant_unit(bits);
    for _ in 0..5 {
        assert_eq!(rng.next_unit_bits(), bits);
        assert_eq!(rng.next_spin(), 1);
    }
}

#[test]
fn seeded_draws_are_unit_interval() {
    let mut rng = RandomSource::from_seed(99);
    for _ in 0..1000 {
        let r = rng.next_unit_bits();
        assert!(r < UNIT_ONE_BITS);
        let v = f64::from_bits(r);
        assert!(0.0 <= v && v < 1.0);
    }
}

#[test]
fn seeded_spins_are_spins() {
    let mut rng = RandomSource::from_seed(5);
    let mut saw_plus = false;
    let mut saw_minus = false;
    for _ in 0..1000 {
        let s = rng.next_spin();
        assert!(s == -1 || s == 1);
        if s == 1 {
            saw_plus = true;
        } else {
            saw_minus = true;
        }
    }
    assert!(saw_plus && saw_minus);
}

#[test]
fn bit_order_matches_double_order() {
    let samples: Vec<f64> = vec![
        0.0,
        -0.0,
        1.0,
        -1.0,
        0.5,
        0.25,
        2.5,
        -3.75,
        1e-300,
        -1e-300,
        5e-324,
        -5e-324,
        f64::INFINITY,
        f64::NEG_INFINITY,
        f64::NAN,
        f64::MAX,
        f64::MIN,
        0.000335462627902512,
        2980.9579870417283,
    ];
    for &a in &samples {
        for &b in &samples {
            assert_eq!(
                f64_bits_lt(a.to_bits(), b.to_bits()),
                a < b,
                "mismatch for {a} < {b}"
            );
        }
    }
}

#[test]
fn unit_encoding_matches_double_arithmetic() {
    let scale = 1.0 / 9007199254740992.0; // 2^-53
    let draws: Vec<u64> = vec![
        0,
        1,
        0x7FF,
        0x800,
        0xFFFF_FFFF_FFFF_FFFF,
        0x8000_0000_0000_0000,
        1 << 11,
        (1 << 11) - 1,
        123_456_789_012_345_678,
        0x0123_4567_89AB_CDEF,
    ];
    for &u in &draws {
        let m = u >> 11;
        let expected = ((m as f64) * scale).to_bits();
        assert_eq!(unit_bits_from_draw(u), expected, "mismatch for draw {u}");
    }
}

#[test]
fn render_small_grid() {
    let lat = Lattice::from_spins(1, 2, vec![1i8, -1]).unwrap();
    let bytes = render_pbm(&lat);
    assert_eq!(bytes, b"P1\n2 1\n1 0 \n\n".to_vec());
}

#[test]
fn render_multi_digit_dimensions() {
    let lat = Lattice::from_spins(1, 12, vec![1i8; 12]).unwrap();
    let bytes = render_pbm(&lat);
    assert_eq!(bytes, b"P1\n12 1\n1 1 1 1 1 1 1 1 1 1 1 1 \n\n".to_vec());
}

#[test]
fn render_marks_spins_as_bits() {
    let lat = Lattice::from_spins(2, 2, vec![1i8, -1, -1, 1]).unwrap();
    let bytes = render_pbm(&lat);
    assert_eq!(bytes, b"P1\n2 2\n1 0 \n0 1 \n\n".to_vec());
}

#[test]
fn set_and_get_round_trip() {
    let mut lat = all_plus_one(3, 3);
    lat.set(1, 2, -1);
    assert_eq!(lat.get(1, 2), -1);
    assert_eq!(lat.get(1, 1), 1);
    assert_eq!(lat.site_count(), 9);
}
