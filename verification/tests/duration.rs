use bot_harness::duration::parse_duration;

#[test]
fn durations() {
    for (s, want) in [
        ("90m", Ok(5400)),
        ("2h", Ok(7200)),
        ("300s", Ok(300)),
        ("45", Ok(45)),
        ("0m", Err("out of range")),
        ("5d", Err("unit must be")),
        ("m", Err("not a duration")),
        ("-1m", Err("not a duration")),
    ] {
        match (parse_duration(s), want) {
            (Ok(got), Ok(w)) => assert_eq!(got, w, "{s}"),
            (Err(e), Err(w)) => assert!(e.contains(w), "{s}: {e}"),
            (got, w) => panic!("{s}: got {got:?}, want {w:?}"),
        }
    }
}

#[test]
fn duration_edges() {
    assert_eq!(parse_duration("18446744073709551615s"), Ok(u64::MAX));
    assert_eq!(parse_duration("+3m"), Ok(180));
    for (s, want) in [
        ("18446744073709551615m", "'18446744073709551615m' is out of range"),
        ("18446744073709551616", "'18446744073709551616' is not a duration like 90m"),
        ("0", "'0' is out of range"),
        ("", "'' is not a duration like 90m"),
        ("9H", "'9H': the unit must be s, m or h"),
        ("9é", "'9é' is not a duration like 90m"),
        ("1 m", "'1 m' is not a duration like 90m"),
    ] {
        assert_eq!(parse_duration(s), Err(want.to_owned()));
    }
}
