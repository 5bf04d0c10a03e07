use static_http::throttle::{active_workers, admits, MAX_WORKERS};

#[test]
fn default_limit_is_128() {
    assert_eq!(MAX_WORKERS, 128);
}

#[test]
fn idle_server_admits() {
    assert!(admits(1, 128));
    assert!(admits(1, 1));
}

#[test]
fn server_admits_up_to_the_limit() {
    assert!(admits(127, 128));
    assert!(admits(128, 128));
}

#[test]
fn full_server_admits_none() {
    assert!(!admits(129, 128));
    assert!(!admits(usize::MAX, 128));
    assert!(!admits(2, 1));
}

#[test]
fn limit_of_zero_admits_none() {
    assert!(!admits(1, 0));
}

#[test]
fn connection_is_admitted_exactly_below_the_limit() {
    for max_workers in 0..6usize {
        for active in 0..8usize {
            assert_eq!(admits(active + 1, max_workers), active < max_workers);
        }
    }
}

#[test]
fn active_workers_leave_out_the_accept_loop() {
    assert_eq!(active_workers(1), 0);
    assert_eq!(active_workers(2), 1);
    assert_eq!(active_workers(129), 128);
}
