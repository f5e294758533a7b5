//! The immutable specification for spawning a process.
use vstd::prelude::*;
use vstd::string::StrSliceExecFns;
use crate::domain::time::Duration;

verus! {

/// A string in the platform's native encoding. Never assumed to be UTF-8.
#[derive(Debug, Clone, PartialEq, Eq)]
pub struct NativeString {
    /// The encoded bytes.
    pub bytes: Vec<u8>,
}

impl View for NativeString {
    type V = Seq<u8>;

    open spec fn view(&self) -> Seq<u8> {
        self.bytes@
    }
}

impl NativeString {
    /// The native form of `text`.
    #[must_use]
    pub fn new(text: &str) -> (native: Self)
        ensures
            native@ == vstd::utf8::encode_utf8(text@),
    {
        NativeString { bytes: text.as_bytes_vec() }
    }

    /// Whether the encoded bytes are exactly those of `text`.
    #[must_use]
    pub fn is(&self, text: &str) -> (same: bool)
        ensures
            same == (self@ == vstd::utf8::encode_utf8(text@)),
    {
        let bytes: &[u8] = text.as_bytes();
        if self.bytes.len() != bytes.len() {
            return false;
        }
        let mut i: usize = 0;
        while i < bytes.len()
            invariant
                i <= bytes.len(),
                self.bytes.len() == bytes.len(),
                bytes@ == vstd::utf8::encode_utf8(text@),
                forall|j: int| 0 <= j < i ==> self.bytes@[j] == bytes@[j],
            decreases bytes.len() - i,
        {
            if self.bytes[i] != bytes[i] {
                return false;
            }
            i = i + 1;
        }
        assert(self@ == vstd::utf8::encode_utf8(text@));
        true
    }
}

/// Environment-variable policy for a spawned process.
#[derive(Debug, Clone, PartialEq, Eq)]
pub enum EnvPolicy {
    /// Inherit the parent environment.
    Inherit,
    /// Inherit the parent environment, then apply these overrides (`None` removes a key).
    Overrides(Vec<(NativeString, Option<NativeString>)>),
    /// Start from an empty environment with exactly these entries.
    Clear(Vec<(NativeString, NativeString)>),
}

/// A termination signal.
///
/// On Windows these map onto Job Object soft-close / terminate semantics; only
/// [`Signal::Kill`] is universally deliverable there.
#[derive(Debug, Clone, Copy, PartialEq, Eq, Structural)]
pub enum Signal {
    /// Graceful termination request (`SIGTERM` on Unix).
    Term,
    /// Forceful, uncatchable termination (`SIGKILL` on Unix).
    Kill,
    /// Interrupt (`SIGINT` on Unix).
    Interrupt,
    /// A raw platform signal number (Unix only).
    Custom(i32),
}

/// The grace period to wait after a graceful request before escalating to force.
#[derive(Debug, Clone, Copy, PartialEq, Eq, Structural)]
pub struct GracePeriod(pub Duration);

impl GracePeriod {
    /// Creates a grace period.
    #[must_use]
    pub fn new(duration: Duration) -> (grace: Self)
        ensures
            grace.0 == duration,
    {
        Self(duration)
    }

    /// Returns the underlying duration.
    #[must_use]
    pub fn as_duration(self) -> (duration: Duration)
        ensures
            duration == self.0,
    {
        self.0
    }
}

impl Default for GracePeriod {
    /// Five seconds.
    fn default() -> (grace: Self)
        ensures
            grace.0.nanos == 5_000_000_000,
    {
        Self(Duration::from_secs(5))
    }
}

/// How stdout/stderr are handled. Bytes only; never assumes UTF-8.
#[derive(Debug, Clone, Copy, PartialEq, Eq, Structural)]
pub enum OutputMode {
    /// Drain and discard output.
    Discard,
    /// Drain into a bounded queue (drop-oldest on overflow) the caller consumes, and keep a
    /// capped tail for post-mortem.
    Capture {
        /// Maximum bytes buffered for live consumption before dropping oldest.
        buffer_bytes: usize,
        /// Maximum bytes retained for the post-mortem tail.
        tail_bytes: usize,
    },
}

impl Default for OutputMode {
    fn default() -> (mode: Self)
        ensures
            mode == OutputMode::Discard,
    {
        Self::Discard
    }
}

/// Immutable specification describing how to spawn a process.
///
/// Carries no product policy, only what the OS needs to start the process and how its
/// output and graceful termination are handled.
#[derive(Debug, Clone, PartialEq, Eq)]
pub struct ProcessSpec {
    /// The program to execute.
    pub program: NativeString,
    /// Arguments passed to the program.
    pub args: Vec<NativeString>,
    /// Environment-variable policy.
    pub env: EnvPolicy,
    /// Working directory, if overridden.
    pub cwd: Option<NativeString>,
    /// Signal used for the graceful phase of termination.
    pub graceful_signal: Signal,
    /// How stdout/stderr are handled.
    pub output: OutputMode,
}

impl ProcessSpec {
    /// Starts building a spec for `program` with sensible defaults
    /// (graceful signal = SIGTERM, inherit env, discard output).
    #[must_use]
    pub fn new(program: NativeString) -> (spec: Self)
        ensures
            spec.program == program,
            spec.args@ == Seq::<NativeString>::empty(),
            spec.env == EnvPolicy::Inherit,
            spec.cwd == None::<NativeString>,
            spec.graceful_signal == Signal::Term,
            spec.output == OutputMode::Discard,
    {
        Self {
            program,
            args: Vec::new(),
            env: EnvPolicy::Inherit,
            cwd: None,
            graceful_signal: Signal::Term,
            output: OutputMode::Discard,
        }
    }

    /// Appends a single argument.
    #[must_use]
    pub fn arg(self, arg: NativeString) -> (spec: Self)
        ensures
            spec.args@ == self.args@.push(arg),
            spec == (ProcessSpec { args: spec.args, ..self }),
    {
        let mut spec = self;
        spec.args.push(arg);
        spec
    }

    /// Appends multiple arguments.
    #[must_use]
    pub fn args(self, args: Vec<NativeString>) -> (spec: Self)
        ensures
            spec.args@ == self.args@ + args@,
            spec == (ProcessSpec { args: spec.args, ..self }),
    {
        let mut spec = self;
        let mut more = args;
        spec.args.append(&mut more);
        spec
    }

    /// Sets the environment policy.
    #[must_use]
    pub fn env(self, env: EnvPolicy) -> (spec: Self)
        ensures
            spec == (ProcessSpec { env, ..self }),
    {
        let mut spec = self;
        spec.env = env;
        spec
    }

    /// Sets the working directory.
    #[must_use]
    pub fn cwd(self, cwd: NativeString) -> (spec: Self)
        ensures
            spec == (ProcessSpec { cwd: Some(cwd), ..self }),
    {
        let mut spec = self;
        spec.cwd = Some(cwd);
        spec
    }

    /// Sets the graceful-termination signal.
    #[must_use]
    pub fn graceful_signal(self, signal: Signal) -> (spec: Self)
        ensures
            spec == (ProcessSpec { graceful_signal: signal, ..self }),
    {
        let mut spec = self;
        spec.graceful_signal = signal;
        spec
    }

    /// Sets the output mode.
    #[must_use]
    pub fn output(self, output: OutputMode) -> (spec: Self)
        ensures
            spec == (ProcessSpec { output, ..self }),
    {
        let mut spec = self;
        spec.output = output;
        spec
    }
}

} // verus!
