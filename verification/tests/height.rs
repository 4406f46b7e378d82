use rune_indexer::height::Height;

#[test]
fn n() {
    assert_eq!(Height(0).n(), 0);
    assert_eq!(Height(1).n(), 1);
}

#[test]
fn add() {
    assert_eq!(Height(0).add(1), 1);
    assert_eq!(Height(1).add(100), 101);
}

#[test]
fn sub() {
    assert_eq!(Height(1).sub(1), 0);
    assert_eq!(Height(100).sub(50), 50);
}

#[test]
fn eq() {
    assert_eq!(Height(0), 0);
    assert_eq!(Height(100), 100);
}

#[test]
fn height_from_str() {
    assert_eq!("0".parse::<Height>().unwrap(), 0);
    assert!("foo".parse::<Height>().is_err());
}

#[test]
fn period_offset() {
    let interval = bitcoin::blockdata::constants::DIFFCHANGE_INTERVAL;
    assert_eq!(Height(0).period_offset(), 0);
    assert_eq!(Height(1).period_offset(), 1);
    assert_eq!(Height(interval - 1).period_offset(), interval - 1);
    assert_eq!(Height(interval).period_offset(), 0);
    assert_eq!(Height(interval + 1).period_offset(), 1);
    assert_eq!(Height(2017).period_offset(), 1);
}

#[test]
fn height_display() {
    assert_eq!(Height(840000).to_string(), "840000");
    assert_eq!("4294967295".parse::<Height>().unwrap(), u32::MAX);
    assert!("4294967296".parse::<Height>().is_err());
    assert!("".parse::<Height>().is_err());
}
