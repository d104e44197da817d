use host_bridge::port::{find_free_port, LOOPBACK_ANY_PORT};

#[test]
fn bind_address_is_loopback_with_any_port() {
    assert_eq!(LOOPBACK_ANY_PORT, "127.0.0.1:0");
}

#[test]
fn assigned_port_is_handed_on() {
    assert_eq!(find_free_port(Ok(8080)), Ok(8080));
    assert_eq!(find_free_port(Ok(49152)), Ok(49152));
}

#[test]
fn lowest_and_highest_port_are_valid() {
    assert_eq!(find_free_port(Ok(1)), Ok(1));
    assert_eq!(find_free_port(Ok(65535)), Ok(65535));
}

#[test]
fn port_read_back_as_zero_is_handed_on() {
    assert_eq!(find_free_port(Ok(0)), Ok(0));
}

#[test]
fn bind_failure_keeps_its_cause() {
    let cause = "Address already in use (os error 98)".to_string();
    assert_eq!(find_free_port(Err(cause.clone())), Err(cause));
}

#[test]
fn bind_failure_with_empty_cause_stays_a_failure() {
    assert_eq!(find_free_port(Err(String::new())), Err(String::new()));
}

#[test]
fn successful_bind_is_never_a_failure() {
    for port in 0..=u16::MAX {
        assert_eq!(find_free_port(Ok(port)), Ok(port));
    }
}

#[test]
fn every_assigned_port_lies_in_the_valid_range() {
    for assigned in 1..=u16::MAX {
        let port = find_free_port(Ok(assigned)).unwrap();
        assert!(1 <= port && u32::from(port) <= 65535);
    }
}
