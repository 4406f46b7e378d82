use rune_indexer::rune::{Rune, RuneError};
use rune_indexer::spaced_rune::{SpacedRune, SpacedRuneError};

#[test]
fn spaced_rune_display() {
    assert_eq!("A.B".parse::<SpacedRune>().unwrap().to_string(), "A•B");
    assert_eq!("A.B.C".parse::<SpacedRune>().unwrap().to_string(), "A•B•C");
    assert_eq!(
        SpacedRune {
            rune: Rune(0),
            spacers: 1
        }
        .to_string(),
        "A"
    );
}

fn case(s: &str, rune: &str, spacers: u32) {
    assert_eq!(
        s.parse::<SpacedRune>().unwrap(),
        SpacedRune {
            rune: rune.parse().unwrap(),
            spacers
        },
    );
}

#[test]
fn spaced_rune_from_str() {
    assert_eq!(
        ".A".parse::<SpacedRune>().unwrap_err(),
        SpacedRuneError::LeadingSpacer,
    );

    assert_eq!(
        "A..B".parse::<SpacedRune>().unwrap_err(),
        SpacedRuneError::DoubleSpacer,
    );

    assert_eq!(
        "A.".parse::<SpacedRune>().unwrap_err(),
        SpacedRuneError::TrailingSpacer,
    );

    assert_eq!(
        "Ax".parse::<SpacedRune>().unwrap_err(),
        SpacedRuneError::Character('x')
    );

    case("A.B", "AB", 0b1);
    case("A.B.C", "ABC", 0b11);
    case("A•B", "AB", 0b1);
    case("A•B•C", "ABC", 0b11);
    case("A•BC", "ABC", 0b1);
}

#[test]
fn spaced_rune_new_keeps_fields() {
    let r = SpacedRune::new(Rune(26), 1);
    assert_eq!(r.rune, Rune(26));
    assert_eq!(r.spacers, 1);
    assert_eq!(r.to_string(), "A•A");
}

#[test]
fn spaced_rune_name_out_of_range() {
    // One letter more than the longest name that fits.
    assert_eq!(
        "BCGDENLQRQWDSLRUGSNLBTMFIJAW".parse::<SpacedRune>().unwrap_err(),
        SpacedRuneError::Rune(RuneError::Range)
    );
    assert_eq!(
        "BCGDENLQRQWDSLRUGSNLBTMFIJAV".parse::<SpacedRune>().unwrap(),
        SpacedRune::new(Rune(u128::MAX), 0)
    );
}

#[test]
fn spaced_rune_error_messages() {
    assert_eq!(SpacedRuneError::LeadingSpacer.to_string(), "leading spacer");
    assert_eq!(SpacedRuneError::TrailingSpacer.to_string(), "trailing spacer");
    assert_eq!(SpacedRuneError::DoubleSpacer.to_string(), "double spacer");
    assert_eq!(
        SpacedRuneError::Character('x').to_string(),
        "invalid character `x`"
    );
    assert_eq!(
        SpacedRuneError::Rune(RuneError::Range).to_string(),
        "name out of range"
    );
}

#[test]
fn rune_names() {
    assert_eq!(Rune(0).to_string(), "A");
    assert_eq!(Rune(25).to_string(), "Z");
    assert_eq!(Rune(26).to_string(), "AA");
    assert_eq!(Rune(27).to_string(), "AB");
    assert_eq!(Rune(701).to_string(), "ZZ");
    assert_eq!(Rune(702).to_string(), "AAA");
    assert_eq!(Rune(u128::MAX).to_string(), "BCGDENLQRQWDSLRUGSNLBTMFIJAV");
    assert_eq!("ZZ".parse::<Rune>().unwrap(), Rune(701));
    assert_eq!("".parse::<Rune>().unwrap(), Rune(0));
    assert_eq!("a".parse::<Rune>().unwrap_err(), RuneError::Character('a'));
    assert_eq!(
        "BCGDENLQRQWDSLRUGSNLBTMFIJAW".parse::<Rune>().unwrap_err(),
        RuneError::Range
    );
    assert_eq!(Rune(2055900680524219742).to_string(), "UNCOMMONGOODS");
    assert_eq!(Rune(7).n(), 7);
}

#[test]
fn rune_names_agree_with_ordinals() {
    let samples = [0u128, 1, 25, 26, 701, 702, 18277, 18278, 99246114928149462, u128::MAX - 1, u128::MAX];
    for n in samples {
        let name = Rune(n).to_string();
        assert_eq!(name, ordinals::Rune(n).to_string());
        assert_eq!(name.parse::<Rune>().unwrap(), Rune(n));
    }
}
