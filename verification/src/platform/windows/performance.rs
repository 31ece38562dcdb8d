//! Performance settings for I/O, memory, networking and power.

use vstd::prelude::*;
use crate::platform::PlatformResult;

verus! {

/// Process priority class.
#[derive(Clone, Copy, Debug, PartialEq, Eq, Structural)]
pub enum ProcessPriority {
    Normal,
    High,
    Realtime,
}

/// Thread priority.
#[derive(Clone, Copy, Debug, PartialEq, Eq, Structural)]
pub enum ThreadPriority {
    Normal,
    AboveNormal,
}

/// I/O settings.
#[derive(Clone, Copy, Debug, PartialEq, Eq, Structural)]
pub struct IOOptimizations {
    pub use_overlapped_io: bool,
    pub use_completion_ports: bool,
    pub buffer_size: usize,
    pub max_concurrent_operations: usize,
}

/// Memory settings.
#[derive(Clone, Copy, Debug, PartialEq, Eq, Structural)]
pub struct MemoryOptimizations {
    pub use_large_pages: bool,
    pub working_set_size_mb: usize,
    pub commit_limit_mb: usize,
}

/// Network settings.
#[derive(Clone, Copy, Debug, PartialEq, Eq, Structural)]
pub struct NetworkOptimizations {
    pub tcp_nodelay: bool,
    pub socket_buffer_size: usize,
    pub use_iocp: bool,
    pub max_connections: usize,
}

/// Performance settings manager.
pub struct PerformanceOptimizer {
    process_priority: ProcessPriority,
}

impl PerformanceOptimizer {
    /// The process priority in force.
    pub closed spec fn priority_view(&self) -> ProcessPriority {
        self.process_priority
    }

    /// A manager at normal priority.
    pub fn new() -> (r: Self)
        ensures
            r.priority_view() == ProcessPriority::Normal,
    {
        Self { process_priority: ProcessPriority::Normal }
    }

    /// The process priority in force.
    pub fn process_priority(&self) -> (r: ProcessPriority)
        ensures
            r == self.priority_view(),
    {
        self.process_priority
    }

    /// Record the priority the system granted the process.
    pub fn record_process_priority(&mut self, priority: ProcessPriority)
        ensures
            final(self).priority_view() == priority,
    {
        self.process_priority = priority;
    }

    /// Overlapped I/O on completion ports, 64 KiB buffers, 32 operations at once.
    pub fn optimize_io(&self) -> (r: PlatformResult<IOOptimizations>)
        ensures
            r matches Ok(o) && o == (IOOptimizations {
                use_overlapped_io: true,
                use_completion_ports: true,
                buffer_size: 65536,
                max_concurrent_operations: 32,
            }),
    {
        Ok(IOOptimizations {
            use_overlapped_io: true,
            use_completion_ports: true,
            buffer_size: 65536,
            max_concurrent_operations: 32,
        })
    }

    /// No large pages (they need special privileges), a 512 MiB working set
    /// and a 1 GiB commit limit.
    pub fn optimize_memory(&self) -> (r: PlatformResult<MemoryOptimizations>)
        ensures
            r matches Ok(o) && o == (MemoryOptimizations {
                use_large_pages: false,
                working_set_size_mb: 512,
                commit_limit_mb: 1024,
            }),
    {
        Ok(MemoryOptimizations { use_large_pages: false, working_set_size_mb: 512, commit_limit_mb: 1024 })
    }

    /// No Nagle delay, 64 KiB socket buffers, completion ports, a thousand connections.
    pub fn optimize_network(&self) -> (r: PlatformResult<NetworkOptimizations>)
        ensures
            r matches Ok(o) && o == (NetworkOptimizations {
                tcp_nodelay: true,
                socket_buffer_size: 65536,
                use_iocp: true,
                max_connections: 1000,
            }),
    {
        Ok(NetworkOptimizations { tcp_nodelay: true, socket_buffer_size: 65536, use_iocp: true, max_connections: 1000 })
    }
}

impl Default for PerformanceOptimizer {
    fn default() -> (r: Self)
        ensures
            r.priority_view() == ProcessPriority::Normal,
    {
        Self::new()
    }
}

/// Power scheme.
#[derive(Clone, Copy, Debug, PartialEq, Eq, Structural)]
pub enum PowerScheme {
    Balanced,
    HighPerformance,
    PowerSaver,
}

/// Power management.
pub struct PowerManager;

impl PowerManager {
    /// A power manager.
    pub fn new() -> (r: Self) {
        Self
    }

    /// Keep the system awake (accepted).
    pub fn prevent_sleep(&self) -> (r: PlatformResult<()>)
        ensures
            r is Ok,
    {
        Ok(())
    }

    /// Let the system sleep (accepted).
    pub fn allow_sleep(&self) -> (r: PlatformResult<()>)
        ensures
            r is Ok,
    {
        Ok(())
    }

    /// The power scheme in force (taken to be balanced).
    pub fn get_power_scheme(&self) -> (r: PlatformResult<PowerScheme>)
        ensures
            r matches Ok(p) && p == PowerScheme::Balanced,
    {
        Ok(PowerScheme::Balanced)
    }
}

impl Default for PowerManager {
    fn default() -> (r: Self) {
        Self::new()
    }
}

} // verus!
