use rust_labs::request_counter::{decimal_string, get_user_friend, JsonResponse, RequestCounter};

#[test]
fn each_hit_reports_the_next_number() {
    let mut c = RequestCounter::new();
    assert_eq!(c.hit(), "Request number: 1");
    assert_eq!(c.hit(), "Request number: 2");
    assert_eq!(c.count, 2);
    for _ in 0..8 {
        c.hit();
    }
    assert_eq!(c.hit(), "Request number: 11");
}

#[test]
fn counters_are_independent() {
    let mut first = RequestCounter::new();
    let mut second = RequestCounter::new();
    first.hit();
    first.hit();
    assert_eq!(second.hit(), "Request number: 1");
}

#[test]
fn counter_just_below_the_limit() {
    let mut c = RequestCounter { count: i32::MAX - 1 };
    assert_eq!(c.hit(), "Request number: 2147483647");
}

#[test]
fn decimal_matches_display() {
    for n in [0, 7, 10, 99, 100, 12345, -1, -42, -1000, i32::MAX, i32::MIN] {
        assert_eq!(decimal_string(n), n.to_string());
    }
    assert_eq!(decimal_string(i32::MIN), "-2147483648");
}

#[test]
fn user_friend_carries_both_ids() {
    assert_eq!(get_user_friend(1, 2), JsonResponse { user_id: 1, friend_id: 2 });
}
