use ratatoskr::clock::get_unix_time;

#[test]
fn unix_time_is_after_2020() {
    assert!(get_unix_time() > 1_577_836_800);
}
