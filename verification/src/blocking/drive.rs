//! On which thread a blocking call is driven.
//!
//! A runtime is never asked to block a thread that is already driving it.
use vstd::prelude::*;
use vstd::string::StringExecFns;

verus! {

/// The fewest worker threads of an owned runtime: one for a blocked body, one for the monitors.
pub const LEAST_WORKERS: usize = 2;

/// The runtime that drives the calls of a supervisor.
#[derive(Debug, Clone, Copy, PartialEq, Eq, Structural)]
pub enum Driver {
    /// It belongs to the supervisor.
    Owned {
        /// Whether it runs on the thread of its caller only.
        current_thread: bool,
    },
    /// It was lent by the caller.
    Borrowed {
        /// Whether it runs on the thread of its caller only.
        current_thread: bool,
    },
}

/// The runtime that the calling thread is in.
#[derive(Debug, Clone, Copy, PartialEq, Eq, Structural)]
pub struct CallerRuntime {
    /// Whether it is the runtime that is to drive the call.
    pub driving: bool,
    /// Whether it runs on the thread of its caller only.
    pub current_thread: bool,
    /// Whether the calling thread may hand its other work on while it blocks.
    pub may_block_in_place: bool,
}

/// Where a call is driven.
#[derive(Debug, Clone, Copy, PartialEq, Eq, Structural)]
pub enum DriveMode {
    /// On the calling thread.
    Direct,
    /// On the calling thread, which hands its other work on first.
    InPlace,
    /// On a helper thread that is in no runtime.
    HelperThread,
}

/// Why a call cannot be driven at all.
#[derive(Debug, Clone, Copy, PartialEq, Eq, Structural)]
pub enum DriveRefusal {
    /// A borrowed current-thread runtime runs neither I/O nor timers for a blocked caller.
    BorrowedCurrentThread,
    /// The calling thread is the only one that could drive the runtime.
    NestedCurrentThread,
}

impl DriveRefusal {
    /// The message of the refusal.
    pub open spec fn text(self) -> Seq<char> {
        match self {
            DriveRefusal::BorrowedCurrentThread =>
                "shepherd::blocking::from_handle cannot drive a current-thread runtime: Handle::block_on does not run I/O or timers on current-thread. Use BlockingSupervisor::from_runtime(runtime) from synchronous code, or BlockingSupervisor::new()."@,
            DriveRefusal::NestedCurrentThread =>
                "shepherd::blocking cannot drive a current-thread runtime from the thread that is already running it (nested block_on deadlocks). Use BlockingSupervisor::new() or call from a thread that is not that runtime's driver."@,
        }
    }

    /// Renders the refusal for people.
    #[must_use]
    pub fn message(self) -> (message: String)
        ensures
            message@ == self.text(),
    {
        match self {
            DriveRefusal::BorrowedCurrentThread => String::from_str(
                "shepherd::blocking::from_handle cannot drive a current-thread runtime: Handle::block_on does not run I/O or timers on current-thread. Use BlockingSupervisor::from_runtime(runtime) from synchronous code, or BlockingSupervisor::new().",
            ),
            DriveRefusal::NestedCurrentThread => String::from_str(
                "shepherd::blocking cannot drive a current-thread runtime from the thread that is already running it (nested block_on deadlocks). Use BlockingSupervisor::new() or call from a thread that is not that runtime's driver.",
            ),
        }
    }
}

impl Driver {
    /// The thread outside of all runtimes that drives a call on this runtime must not be a guest
    /// of a current-thread one.
    pub open spec fn drivable(self) -> bool {
        !(self matches Driver::Borrowed { current_thread } && current_thread)
    }

    /// Where a call is driven, given the runtime that the calling thread is in, or why it cannot
    /// be driven.
    pub open spec fn mode(self, caller: Option<CallerRuntime>) -> Result<DriveMode, DriveRefusal> {
        match caller {
            None => if self.drivable() {
                Ok(DriveMode::Direct)
            } else {
                Err(DriveRefusal::BorrowedCurrentThread)
            },
            Some(inside) => if inside.driving && inside.current_thread {
                Err(DriveRefusal::NestedCurrentThread)
            } else if inside.driving && inside.may_block_in_place {
                Ok(DriveMode::InPlace)
            } else if self.drivable() {
                Ok(DriveMode::HelperThread)
            } else {
                Err(DriveRefusal::BorrowedCurrentThread)
            },
        }
    }

    /// Where a call is driven, given the runtime that the calling thread is in.
    ///
    /// # Errors
    /// Returns [`DriveRefusal`] where blocking would hang.
    pub fn drive_mode(self, caller: Option<CallerRuntime>) -> (mode: Result<
        DriveMode,
        DriveRefusal,
    >)
        ensures
            mode == self.mode(caller),
    {
        let drivable = match self {
            Driver::Owned { .. } => true,
            Driver::Borrowed { current_thread } => !current_thread,
        };
        match caller {
            None => if drivable {
                Ok(DriveMode::Direct)
            } else {
                Err(DriveRefusal::BorrowedCurrentThread)
            },
            Some(inside) => {
                if inside.driving {
                    if inside.current_thread {
                        return Err(DriveRefusal::NestedCurrentThread);
                    }
                    if inside.may_block_in_place {
                        return Ok(DriveMode::InPlace);
                    }
                }
                if drivable {
                    Ok(DriveMode::HelperThread)
                } else {
                    Err(DriveRefusal::BorrowedCurrentThread)
                }
            },
        }
    }

    /// Whether the body of a scoped block runs on a helper thread: on an owned current-thread
    /// runtime, the thread that drives the block could not drive the calls of its body.
    #[must_use]
    pub fn body_needs_helper(self) -> (helper: bool)
        ensures
            helper == (self == (Driver::Owned { current_thread: true })),
    {
        match self {
            Driver::Owned { current_thread } => current_thread,
            Driver::Borrowed { .. } => false,
        }
    }
}

/// The calling thread is the only one that could drive the runtime.
pub open spec fn nested(caller: Option<CallerRuntime>) -> bool {
    caller matches Some(inside) && inside.driving && inside.current_thread
}

/// An owned runtime drives every call, except one made from the only thread that could drive it.
pub proof fn owned_runtime_refuses_only_its_own_thread(
    driver: Driver,
    caller: Option<CallerRuntime>,
)
    requires
        driver is Owned,
    ensures
        driver.mode(caller) is Err <==> nested(caller),
{
}

/// The calling thread blocks only where it is in no runtime, or where it is a thread of the
/// driving runtime that hands its other work on.
pub proof fn calling_thread_blocks_only_where_it_may(driver: Driver, caller: Option<CallerRuntime>)
    ensures
        driver.mode(caller) == Ok::<_, DriveRefusal>(DriveMode::Direct) ==> caller is None,
        driver.mode(caller) == Ok::<_, DriveRefusal>(DriveMode::InPlace) ==> {
            &&& caller is Some
            &&& caller->0.driving
            &&& !caller->0.current_thread
            &&& caller->0.may_block_in_place
        },
{
}

/// How many worker threads an owned runtime gets.
#[must_use]
pub fn worker_threads(wanted: usize) -> (granted: usize)
    ensures
        granted == (if wanted < LEAST_WORKERS {
            LEAST_WORKERS
        } else {
            wanted
        }),
{
    if wanted < LEAST_WORKERS {
        LEAST_WORKERS
    } else {
        wanted
    }
}

} // verus!
