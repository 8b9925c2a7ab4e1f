//! Nuclei's configuration options.
use vstd::prelude::*;

verus! {

/// Nuclei's proactor configuration.
#[derive(Clone, Debug)]
pub struct NucleiConfig {
    /// Configuration of the io_uring backend.
    pub iouring: IoUringConfiguration,
}

/// io_uring configuration (a 5.19+ kernel is required to operate io_uring).
#[derive(Clone, Debug)]
pub struct IoUringConfiguration {
    /// Allowed entries in both submission and completion queues (2048 by default).
    pub queue_len: u32,
    /// SQPOLL kernel thread wake up interval in milliseconds; `None` disables SQPOLL.
    pub sqpoll_wake_interval: Option<u32>,
    /// Limit of bounded io_uring workers per NUMA node (256 by default).
    pub per_numa_bounded_worker_count: Option<u32>,
    /// Limit of unbounded io_uring workers per NUMA node (512 by default).
    pub per_numa_unbounded_worker_count: Option<u32>,
    /// Reap the completion queue by busy polling from userspace (`true` by default).
    pub aggressive_poll: bool,
    /// Busy-wait for completions instead of IRQ notification (`false` by default).
    pub iopoll_enabled: bool,
}

/// Queue length of the default configuration: `1 << 11` entries.
pub const DEFAULT_QUEUE_LEN: u32 = 2048;

/// SQPOLL wake up interval used by the polling presets, in milliseconds.
pub const DEFAULT_SQPOLL_WAKE_INTERVAL: u32 = 2;

/// Default limit of bounded workers per NUMA node: `1 << 8`.
pub const DEFAULT_BOUNDED_WORKERS: u32 = 256;

/// Default limit of unbounded workers per NUMA node: `1 << 9`.
pub const DEFAULT_UNBOUNDED_WORKERS: u32 = 512;

impl IoUringConfiguration {
    /// The default configuration, as a value.
    pub open spec fn spec_default() -> IoUringConfiguration {
        IoUringConfiguration {
            queue_len: DEFAULT_QUEUE_LEN,
            sqpoll_wake_interval: Some(DEFAULT_SQPOLL_WAKE_INTERVAL),
            per_numa_bounded_worker_count: Some(DEFAULT_BOUNDED_WORKERS),
            per_numa_unbounded_worker_count: Some(DEFAULT_UNBOUNDED_WORKERS),
            aggressive_poll: true,
            iopoll_enabled: false,
        }
    }

    /// The default configuration with another queue length.
    pub open spec fn default_with_queue_len(queue_len: u32) -> IoUringConfiguration {
        IoUringConfiguration { queue_len, ..Self::spec_default() }
    }

    /// Standard way to use io_uring: no polling, IO completion is purely IRQ driven.
    pub fn interrupt_driven(queue_len: u32) -> (r: Self)
        ensures
            r == (IoUringConfiguration {
                queue_len,
                sqpoll_wake_interval: None,
                per_numa_bounded_worker_count: None,
                per_numa_unbounded_worker_count: None,
                aggressive_poll: false,
                iopoll_enabled: false,
            }),
    {
        Self {
            queue_len,
            sqpoll_wake_interval: None,
            per_numa_bounded_worker_count: None,
            per_numa_unbounded_worker_count: None,
            aggressive_poll: false,
            iopoll_enabled: false,
        }
    }

    /// Low latency configuration: kernel side submission polling and aggressive
    /// userspace completion polling.
    pub fn low_latency_driven(queue_len: u32) -> (r: Self)
        ensures
            r == (IoUringConfiguration {
                sqpoll_wake_interval: Some(DEFAULT_SQPOLL_WAKE_INTERVAL),
                aggressive_poll: true,
                ..Self::default_with_queue_len(queue_len)
            }),
    {
        Self {
            queue_len,
            sqpoll_wake_interval: Some(DEFAULT_SQPOLL_WAKE_INTERVAL),
            aggressive_poll: true,
            ..Self::default()
        }
    }

    /// Kernel poll only configuration: submission polling without aggressive
    /// polling of the completion queue.
    pub fn kernel_poll_only(queue_len: u32) -> (r: Self)
        ensures
            r == (IoUringConfiguration {
                sqpoll_wake_interval: Some(DEFAULT_SQPOLL_WAKE_INTERVAL),
                aggressive_poll: false,
                ..Self::default_with_queue_len(queue_len)
            }),
    {
        Self {
            queue_len,
            sqpoll_wake_interval: Some(DEFAULT_SQPOLL_WAKE_INTERVAL),
            aggressive_poll: false,
            ..Self::default()
        }
    }

    /// IOPOLL enabled configuration for low-latency operations on files.
    pub fn io_poll(queue_len: u32) -> (r: Self)
        ensures
            r == (IoUringConfiguration { iopoll_enabled: true, ..Self::default_with_queue_len(queue_len) }),
    {
        Self { queue_len, iopoll_enabled: true, ..Self::default() }
    }
}

impl Default for IoUringConfiguration {
    fn default() -> (r: Self)
        ensures
            r == Self::spec_default(),
    {
        Self {
            queue_len: DEFAULT_QUEUE_LEN,
            sqpoll_wake_interval: Some(DEFAULT_SQPOLL_WAKE_INTERVAL),
            per_numa_bounded_worker_count: Some(DEFAULT_BOUNDED_WORKERS),
            per_numa_unbounded_worker_count: Some(DEFAULT_UNBOUNDED_WORKERS),
            aggressive_poll: true,
            iopoll_enabled: false,
        }
    }
}

impl Default for NucleiConfig {
    fn default() -> (r: Self)
        ensures
            r.iouring == IoUringConfiguration::spec_default(),
    {
        NucleiConfig { iouring: IoUringConfiguration::default() }
    }
}

} // verus!
