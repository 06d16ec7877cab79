use todos::filters::yes_no;

#[test]
fn yes_no_picks_the_first_alternative_when_true() {
    assert_eq!(yes_no(&true, "completed", "pending").unwrap(), "completed");
    assert_eq!(yes_no(&true, "", "nonempty").unwrap(), "");
    assert_eq!(yes_no(&true, "yes", "no").unwrap(), "yes");
}

#[test]
fn yes_no_picks_the_second_alternative_when_false() {
    assert_eq!(yes_no(&false, "completed", "pending").unwrap(), "pending");
    assert_eq!(yes_no(&false, "nonempty", "").unwrap(), "");
    assert_eq!(yes_no(&false, "yes", "no").unwrap(), "no");
}
