use rune_indexer::commitment::{
    commitment_of, commits_to_rune, holds_commitment, is_mature, CommitInput,
};
use rune_indexer::rune::Rune;

fn input(pushes: Vec<Vec<u8>>, taproot: bool, confirmations: u32) -> CommitInput {
    CommitInput { pushes, taproot, confirmations }
}

#[test]
fn commitment_is_the_number_without_trailing_zero_bytes() {
    for n in [0u128, 1, 255, 256, 65536, 0x0100_0000_0000, u128::MAX, 1 << 120] {
        let expected = ordinals::Rune(n).commitment();
        assert_eq!(commitment_of(Rune(n)), expected);
        assert!(holds_commitment(Rune(n), &vec![vec![9, 9], expected.clone()]));
        let mut longer = expected.clone();
        longer.push(0);
        assert!(!holds_commitment(Rune(n), &vec![longer]));
    }
    assert_eq!(commitment_of(Rune(0)), Vec::<u8>::new());
    assert_eq!(commitment_of(Rune(0x0100)), vec![0, 1]);
    assert_eq!(commitment_of(Rune(u128::MAX)), vec![255; 16]);
    assert!(holds_commitment(Rune(0), &vec![vec![]]));
    assert!(holds_commitment(Rune(256), &vec![vec![0, 1]]));
    assert!(!holds_commitment(Rune(256), &vec![vec![1, 0], vec![0, 1, 0]]));
    assert!(!holds_commitment(Rune(7), &vec![]));
}

#[test]
fn commitment_needs_six_confirmations() {
    assert!(!is_mature(0));
    assert!(!is_mature(5));
    assert!(is_mature(6));
    assert!(is_mature(u32::MAX));
}

#[test]
fn transaction_commits_if_one_input_does() {
    let rune = Rune(0x0203);
    let commitment = vec![3u8, 2];
    assert!(commits_to_rune(rune, &vec![input(vec![commitment.clone()], true, 6)]));
    assert!(commits_to_rune(
        rune,
        &vec![
            input(vec![vec![1]], true, 100),
            input(vec![vec![7], commitment.clone()], true, 9),
        ]
    ));
    // Too young, not taproot, or another name.
    assert!(!commits_to_rune(rune, &vec![input(vec![commitment.clone()], true, 5)]));
    assert!(!commits_to_rune(rune, &vec![input(vec![commitment.clone()], false, 6)]));
    assert!(!commits_to_rune(rune, &vec![input(vec![vec![2, 3]], true, 6)]));
    assert!(!commits_to_rune(
        rune,
        &vec![input(vec![commitment.clone()], false, 9), input(vec![], true, 9)]
    ));
    assert!(!commits_to_rune(rune, &vec![]));
}
