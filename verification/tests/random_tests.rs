use field_layers::random::{Random, N};

#[test]
fn first_draws_follow_the_reference_sequence() {
    let mut random = Random::new(42);
    let draws: Vec<u32> = (0..5).map(|_| random.u32()).collect();
    assert_eq!(draws, vec![2746317213, 478163327, 107420369, 3184935163, 1181241943]);
}

#[test]
fn seed_zero_and_seed_max_follow_the_reference_sequence() {
    let mut zero = Random::new(0);
    let draws: Vec<u32> = (0..5).map(|_| zero.u32()).collect();
    assert_eq!(draws, vec![3626764237, 1654615998, 3255389356, 3823568514, 1806341205]);
    let mut max = Random::new(u32::MAX);
    let draws: Vec<u32> = (0..5).map(|_| max.u32()).collect();
    assert_eq!(draws, vec![2728839433, 2661025012, 872737089, 924893097, 2608619700]);
}

#[test]
fn draws_across_regenerations_follow_the_reference_sequence() {
    let mut random = Random::new(42);
    let draws: Vec<u32> = (0..10000).map(|_| random.u32()).collect();
    assert_eq!(draws[623], 2929454134);
    assert_eq!(draws[624], 1071722055);
    assert_eq!(draws[1247], 3190649866);
    assert_eq!(draws[1248], 2301518177);
    assert_eq!(draws[9999], 3981887252);
}

#[test]
fn same_seed_gives_the_same_draws() {
    let mut a = Random::new(20240229);
    let mut b = Random::new(20240229);
    for _ in 0..10000 {
        assert_eq!(a.u32(), b.u32());
    }
    assert_eq!(a.i, b.i);
    assert!(a.mt == b.mt);
}

#[test]
fn different_seeds_give_different_draws() {
    let mut a = Random::new(1);
    let mut b = Random::new(2);
    let da: Vec<u32> = (0..8).map(|_| a.u32()).collect();
    let db: Vec<u32> = (0..8).map(|_| b.u32()).collect();
    assert_ne!(da, db);
}

#[test]
fn new_leaves_the_cursor_at_the_end_and_the_sentinel_in_front() {
    let random = Random::new(7);
    assert_eq!(random.i, N);
    assert_eq!(random.mt[0], 0x8000_0000);
}

#[test]
fn cursor_advances_and_wraps() {
    let mut random = Random::new(7);
    random.u32();
    assert_eq!(random.i, 1);
    for _ in 1..N {
        random.u32();
    }
    assert_eq!(random.i, N);
    random.u32();
    assert_eq!(random.i, 1);
}

#[test]
fn init_builds_the_linear_state() {
    let mut random = Random::new(0);
    random.init(5489);
    assert_eq!(random.i, N);
    assert_eq!(random.mt[0], 5489);
    assert_eq!(random.mt[1], 1301868182);
    assert_eq!(random.mt[2], 2938499221);
}

#[test]
fn cursor_beyond_the_end_reseeds_with_the_default_seed() {
    let mut random = Random::new(3);
    random.i = N + 1;
    let draws: Vec<u32> = (0..5).map(|_| random.u32()).collect();
    assert_eq!(draws, vec![3499211612, 581869302, 3890346734, 3586334585, 545404204]);
}

#[test]
fn a_clone_continues_the_same_sequence() {
    let mut random = Random::new(99);
    for _ in 0..700 {
        random.u32();
    }
    let mut copy = random.clone();
    for _ in 0..1300 {
        assert_eq!(random.u32(), copy.u32());
    }
}

#[test]
fn equal_states_draw_alike_whatever_their_history() {
    let mut late = Random::new(5);
    for _ in 0..N {
        late.u32();
    }
    let mut rebuilt = Random::new(0);
    rebuilt.mt = late.mt;
    rebuilt.i = late.i;
    for _ in 0..2000 {
        assert_eq!(late.u32(), rebuilt.u32());
    }
}
