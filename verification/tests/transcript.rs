use plonk_prover::sponge::Sponge;

#[test]
fn challenges_are_deterministic() {
    let mut a = Sponge::new();
    let mut b = Sponge::new();
    a.absorb(5);
    b.absorb(5);
    a.absorb(9);
    b.absorb(9);
    assert_eq!(a.challenge(), b.challenge());
    assert_eq!(a.challenge(), b.challenge());
}

#[test]
fn absorption_order_changes_the_challenge() {
    let mut a = Sponge::new();
    let mut b = Sponge::new();
    a.absorb(5);
    a.absorb(9);
    b.absorb(9);
    b.absorb(5);
    assert_ne!(a.challenge(), b.challenge());
}

#[test]
fn snapshot_forks_the_transcript() {
    let mut a = Sponge::new();
    a.absorb(123);
    let mut snap = a;
    let c1 = a.challenge();
    a.absorb(7);
    // the snapshot still sits before the challenge
    assert_eq!(snap.challenge(), c1);
}

#[test]
fn absorbing_a_vector_equals_absorbing_elementwise() {
    let mut a = Sponge::new();
    let mut b = Sponge::new();
    a.absorb_vec(&vec![1, 2, 3]);
    b.absorb(1);
    b.absorb(2);
    b.absorb(3);
    assert_eq!(a.challenge(), b.challenge());
}
