use nuclei::config::{IoUringConfiguration, NucleiConfig};

#[test]
fn default_configuration_values() {
    let c = IoUringConfiguration::default();
    assert_eq!(c.queue_len, 2048);
    assert_eq!(c.sqpoll_wake_interval, Some(2));
    assert_eq!(c.per_numa_bounded_worker_count, Some(256));
    assert_eq!(c.per_numa_unbounded_worker_count, Some(512));
    assert!(c.aggressive_poll);
    assert!(!c.iopoll_enabled);
}

#[test]
fn nuclei_config_default_uses_ring_default() {
    let n = NucleiConfig::default();
    assert_eq!(n.iouring.queue_len, 2048);
    assert_eq!(n.iouring.sqpoll_wake_interval, Some(2));
    assert!(n.iouring.aggressive_poll);
}

#[test]
fn interrupt_driven_disables_polling() {
    let c = IoUringConfiguration::interrupt_driven(64);
    assert_eq!(c.queue_len, 64);
    assert_eq!(c.sqpoll_wake_interval, None);
    assert_eq!(c.per_numa_bounded_worker_count, None);
    assert_eq!(c.per_numa_unbounded_worker_count, None);
    assert!(!c.aggressive_poll);
    assert!(!c.iopoll_enabled);
}

#[test]
fn low_latency_driven_polls_both_sides() {
    let c = IoUringConfiguration::low_latency_driven(128);
    assert_eq!(c.queue_len, 128);
    assert_eq!(c.sqpoll_wake_interval, Some(2));
    assert_eq!(c.per_numa_bounded_worker_count, Some(256));
    assert_eq!(c.per_numa_unbounded_worker_count, Some(512));
    assert!(c.aggressive_poll);
    assert!(!c.iopoll_enabled);
}

#[test]
fn kernel_poll_only_keeps_completion_polling_off() {
    let c = IoUringConfiguration::kernel_poll_only(4096);
    assert_eq!(c.queue_len, 4096);
    assert_eq!(c.sqpoll_wake_interval, Some(2));
    assert_eq!(c.per_numa_bounded_worker_count, Some(256));
    assert_eq!(c.per_numa_unbounded_worker_count, Some(512));
    assert!(!c.aggressive_poll);
    assert!(!c.iopoll_enabled);
}

#[test]
fn io_poll_enables_iopoll_on_defaults() {
    let c = IoUringConfiguration::io_poll(32);
    assert_eq!(c.queue_len, 32);
    assert_eq!(c.sqpoll_wake_interval, Some(2));
    assert_eq!(c.per_numa_bounded_worker_count, Some(256));
    assert_eq!(c.per_numa_unbounded_worker_count, Some(512));
    assert!(c.aggressive_poll);
    assert!(c.iopoll_enabled);
}
