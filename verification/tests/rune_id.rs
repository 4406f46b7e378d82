use rune_indexer::rune_id::RuneId;

#[test]
fn delta() {
    let mut expected = [
        RuneId::new(3, 1),
        RuneId::new(4, 2),
        RuneId::new(1, 2),
        RuneId::new(1, 1),
        RuneId::new(3, 1),
        RuneId::new(2, 0),
    ];

    expected.sort();

    assert_eq!(
        expected,
        [
            RuneId::new(1, 1),
            RuneId::new(1, 2),
            RuneId::new(2, 0),
            RuneId::new(3, 1),
            RuneId::new(3, 1),
            RuneId::new(4, 2),
        ]
    );

    let mut previous = RuneId::default();
    let mut deltas = Vec::new();
    for id in expected {
        deltas.push(previous.delta(id).unwrap());
        previous = id;
    }

    assert_eq!(deltas, [(1, 1), (0, 1), (1, 0), (1, 1), (0, 0), (1, 2)]);

    let mut previous = RuneId::default();
    let mut actual = Vec::new();
    for (block, tx) in deltas {
        let next = previous.next(block, tx).unwrap();
        actual.push(next);
        previous = next;
    }

    assert_eq!(actual, expected);
}

#[test]
fn rune_id_display() {
    assert_eq!(RuneId::new(1, 2).to_string(), "1:2");
}

#[test]
fn rune_id_from_str() {
    assert!("123".parse::<RuneId>().is_err());
    assert!(":".parse::<RuneId>().is_err());
    assert!("1:".parse::<RuneId>().is_err());
    assert!(":2".parse::<RuneId>().is_err());
    assert!("a:2".parse::<RuneId>().is_err());
    assert!("1:a".parse::<RuneId>().is_err());
    assert_eq!("1:2".parse::<RuneId>().unwrap(), RuneId::new(1, 2));
    // block == 0 && tx > 0 is now valid
    assert_eq!("0:1".parse::<RuneId>().unwrap(), RuneId::new(0, 1));
}

#[test]
fn to_bytes() {
    let rune_id = RuneId::new(0x1234567890ABCDEF, 0x12345678);
    let bytes = rune_id.to_bytes();

    // Check little-endian encoding
    assert_eq!(bytes[0..8], 0x1234567890ABCDEFu64.to_le_bytes());
    assert_eq!(bytes[8..12], 0x12345678u32.to_le_bytes());
}

#[test]
fn get_sorted_rune_ids() {
    let rune1 = RuneId::new(1, 1);
    let rune2 = RuneId::new(2, 2);

    let (a, b) = RuneId::get_sorted_rune_ids(&rune1, &rune2);
    assert!(a <= b);

    // Should be same regardless of order
    let (c, d) = RuneId::get_sorted_rune_ids(&rune2, &rune1);
    assert_eq!((a, b), (c, d));
}

#[test]
fn rune_id_parse_messages() {
    assert_eq!(
        "12".parse::<RuneId>().unwrap_err(),
        "Invalid format: expected 'block:tx'"
    );
    assert_eq!("x:1".parse::<RuneId>().unwrap_err(), "Invalid block number");
    assert_eq!(
        "1:4294967296".parse::<RuneId>().unwrap_err(),
        "Invalid transaction number"
    );
    assert_eq!(
        "18446744073709551615:4294967295".parse::<RuneId>().unwrap(),
        RuneId::new(u64::MAX, u32::MAX)
    );
    assert!("18446744073709551616:0".parse::<RuneId>().is_err());
    assert_eq!("+7:+3".parse::<RuneId>().unwrap(), RuneId::new(7, 3));
    assert_eq!("1:2:3".parse::<RuneId>().unwrap_err(), "Invalid transaction number");
}

#[test]
fn rune_id_next_limits() {
    let id = RuneId::new(u64::MAX - 1, 5);
    assert_eq!(id.next(1, 9), Some(RuneId::new(u64::MAX, 9)));
    assert_eq!(id.next(2, 9), None);
    assert_eq!(id.next(0, u128::from(u32::MAX) - 5), Some(RuneId::new(u64::MAX - 1, u32::MAX)));
    assert_eq!(id.next(0, u128::from(u32::MAX) - 4), None);
    assert_eq!(id.next(1, u128::from(u32::MAX) + 1), None);
    assert_eq!(id.next(u128::from(u64::MAX) + 1, 0), None);
    assert_eq!(RuneId::new(5, 5).delta(RuneId::new(4, 9)), None);
    assert_eq!(RuneId::new(5, 5).delta(RuneId::new(5, 4)), None);
}

#[test]
fn rune_id_display_large() {
    assert_eq!(
        RuneId::new(u64::MAX, u32::MAX).to_string(),
        "18446744073709551615:4294967295"
    );
    assert_eq!(RuneId::new(0, 0).to_string(), "0:0");
    assert_eq!(RuneId::new(840000, 10).to_string(), "840000:10");
}
