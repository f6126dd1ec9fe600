use vstd::prelude::*;

verus! {

/// Status codes reported by the hooking engine.
#[allow(non_camel_case_types)]
#[derive(Clone, Copy, Debug, PartialEq, Eq, Structural)]
pub enum MH_STATUS {
    /// Unknown error. Should not be returned.
    MH_UNKNOWN,
    /// Successful.
    MH_OK,
    /// The engine is already initialized.
    MH_ERROR_ALREADY_INITIALIZED,
    /// The engine is not initialized yet, or already uninitialized.
    MH_ERROR_NOT_INITIALIZED,
    /// The hook for the specified target function is already created.
    MH_ERROR_ALREADY_CREATED,
    /// The hook for the specified target function is not created yet.
    MH_ERROR_NOT_CREATED,
    /// The hook for the specified target function is already enabled.
    MH_ERROR_ENABLED,
    /// The hook for the specified target function is not enabled yet,
    /// or already disabled.
    MH_ERROR_DISABLED,
    /// The specified pointer points to non-allocated and/or non-executable memory.
    MH_ERROR_NOT_EXECUTABLE,
    /// The specified target function cannot be hooked.
    MH_ERROR_UNSUPPORTED_FUNCTION,
    /// Failed to allocate memory.
    MH_ERROR_MEMORY_ALLOC,
    /// Failed to change the memory protection.
    MH_ERROR_MEMORY_PROTECT,
    /// The specified module is not loaded.
    MH_ERROR_MODULE_NOT_FOUND,
    /// The specified function is not found.
    MH_ERROR_FUNCTION_NOT_FOUND,
    /// Failed to create, or to wait for the main mutex.
    MH_ERROR_MUTEX_FAILURE,
}

/// The method of suspending and resuming threads during activation.
#[allow(non_camel_case_types)]
#[derive(Clone, Copy, Debug, PartialEq, Eq, Structural)]
pub enum MH_THREAD_FREEZE_METHOD {
    /// Enumerate a process-wide thread snapshot and suspend each thread.
    MH_FREEZE_METHOD_ORIGINAL,
    /// Enumerate threads with the faster kernel next-thread primitive.
    MH_FREEZE_METHOD_FAST_UNDOCUMENTED,
    /// Threads are neither suspended nor have their instruction pointers adjusted.
    MH_FREEZE_METHOD_NONE_UNSAFE,
}

/// Errors of the hooking engine, one per failing status code.
#[derive(Clone, Copy, Debug, PartialEq, Eq, Structural)]
pub enum Error {
    /// The engine has already been initialized.
    AlreadyInitialized,
    /// The engine has not been initialized yet, or has already been uninitialized.
    NotInitialized,
    /// Hook for a target function has already been created.
    AlreadyCreated,
    /// Hook for a target function has not been created yet.
    NotCreated,
    /// Hook for a target function has already been enabled.
    HookEnabled,
    /// Hook for a target function has not been enabled yet, or has already been disabled.
    HookDisabled,
    /// The target pointer points to non-allocated and/or non-executable memory.
    PointerNotExecutable,
    /// The target function could not be hooked.
    UnsupportedFunction,
    /// Internal memory allocation failed.
    AllocationFailure,
    /// Internal memory protection change failed.
    ProtectionFailure,
    /// The target module could not be found.
    ModuleNotFound,
    /// The target function could not be found.
    FunctionNotFound,
    /// Internal mutex creation/wait failed.
    MutexFailure,
}

/// Method to use for suspending/resuming threads.
#[derive(Clone, Copy, Debug, PartialEq, Eq, Structural)]
pub enum ThreadFreezeMethod {
    /// Enumerate a process-wide thread snapshot: portable but slow.
    OriginalSnapshot,
    /// Enumerate threads with the kernel next-thread primitive: faster.
    KernelNextThread,
}

/// The error that a status code stands for; `None` for success and unknown.
pub open spec fn error_of(s: MH_STATUS) -> Option<Error> {
    match s {
        MH_STATUS::MH_UNKNOWN => None,
        MH_STATUS::MH_OK => None,
        MH_STATUS::MH_ERROR_ALREADY_INITIALIZED => Some(Error::AlreadyInitialized),
        MH_STATUS::MH_ERROR_NOT_INITIALIZED => Some(Error::NotInitialized),
        MH_STATUS::MH_ERROR_ALREADY_CREATED => Some(Error::AlreadyCreated),
        MH_STATUS::MH_ERROR_NOT_CREATED => Some(Error::NotCreated),
        MH_STATUS::MH_ERROR_ENABLED => Some(Error::HookEnabled),
        MH_STATUS::MH_ERROR_DISABLED => Some(Error::HookDisabled),
        MH_STATUS::MH_ERROR_NOT_EXECUTABLE => Some(Error::PointerNotExecutable),
        MH_STATUS::MH_ERROR_UNSUPPORTED_FUNCTION => Some(Error::UnsupportedFunction),
        MH_STATUS::MH_ERROR_MEMORY_ALLOC => Some(Error::AllocationFailure),
        MH_STATUS::MH_ERROR_MEMORY_PROTECT => Some(Error::ProtectionFailure),
        MH_STATUS::MH_ERROR_MODULE_NOT_FOUND => Some(Error::ModuleNotFound),
        MH_STATUS::MH_ERROR_FUNCTION_NOT_FOUND => Some(Error::FunctionNotFound),
        MH_STATUS::MH_ERROR_MUTEX_FAILURE => Some(Error::MutexFailure),
    }
}

/// The numeric code of a status in the engine's C interface.
pub open spec fn code_of(s: MH_STATUS) -> int {
    match s {
        MH_STATUS::MH_UNKNOWN => -1,
        MH_STATUS::MH_OK => 0,
        MH_STATUS::MH_ERROR_ALREADY_INITIALIZED => 1,
        MH_STATUS::MH_ERROR_NOT_INITIALIZED => 2,
        MH_STATUS::MH_ERROR_ALREADY_CREATED => 3,
        MH_STATUS::MH_ERROR_NOT_CREATED => 4,
        MH_STATUS::MH_ERROR_ENABLED => 5,
        MH_STATUS::MH_ERROR_DISABLED => 6,
        MH_STATUS::MH_ERROR_NOT_EXECUTABLE => 7,
        MH_STATUS::MH_ERROR_UNSUPPORTED_FUNCTION => 8,
        MH_STATUS::MH_ERROR_MEMORY_ALLOC => 9,
        MH_STATUS::MH_ERROR_MEMORY_PROTECT => 10,
        MH_STATUS::MH_ERROR_MODULE_NOT_FOUND => 11,
        MH_STATUS::MH_ERROR_FUNCTION_NOT_FOUND => 12,
        MH_STATUS::MH_ERROR_MUTEX_FAILURE => 13,
    }
}

/// The short text logged for each error.
pub open spec fn message_of(e: Error) -> Seq<char> {
    match e {
        Error::AlreadyInitialized => "minhook already initialized"@,
        Error::NotInitialized => "minhook not initialized"@,
        Error::AlreadyCreated => "hook for a target function already created"@,
        Error::NotCreated => "hook for a target function not yet created"@,
        Error::HookEnabled => "hook for a target function already enabled"@,
        Error::HookDisabled => "hook for a target function not enabled or already disabled"@,
        Error::PointerNotExecutable => "target function pointer not executable"@,
        Error::UnsupportedFunction => "target function not hookable"@,
        Error::AllocationFailure => "internal allocation failed"@,
        Error::ProtectionFailure => "internal protection change failed"@,
        Error::ModuleNotFound => "target module not found"@,
        Error::FunctionNotFound => "target function not found"@,
        Error::MutexFailure => "internal mutex creation or wait failed"@,
    }
}

/// The freeze method of the engine's C interface that a method stands for.
pub open spec fn freeze_method_of(m: ThreadFreezeMethod) -> MH_THREAD_FREEZE_METHOD {
    match m {
        ThreadFreezeMethod::OriginalSnapshot => MH_THREAD_FREEZE_METHOD::MH_FREEZE_METHOD_ORIGINAL,
        ThreadFreezeMethod::KernelNextThread => MH_THREAD_FREEZE_METHOD::MH_FREEZE_METHOD_FAST_UNDOCUMENTED,
    }
}

impl MH_STATUS {
    /// The numeric code of this status in the engine's C interface.
    pub fn code(&self) -> (r: i32)
        ensures
            r == code_of(*self),
    {
        match self {
            MH_STATUS::MH_UNKNOWN => -1,
            MH_STATUS::MH_OK => 0,
            MH_STATUS::MH_ERROR_ALREADY_INITIALIZED => 1,
            MH_STATUS::MH_ERROR_NOT_INITIALIZED => 2,
            MH_STATUS::MH_ERROR_ALREADY_CREATED => 3,
            MH_STATUS::MH_ERROR_NOT_CREATED => 4,
            MH_STATUS::MH_ERROR_ENABLED => 5,
            MH_STATUS::MH_ERROR_DISABLED => 6,
            MH_STATUS::MH_ERROR_NOT_EXECUTABLE => 7,
            MH_STATUS::MH_ERROR_UNSUPPORTED_FUNCTION => 8,
            MH_STATUS::MH_ERROR_MEMORY_ALLOC => 9,
            MH_STATUS::MH_ERROR_MEMORY_PROTECT => 10,
            MH_STATUS::MH_ERROR_MODULE_NOT_FOUND => 11,
            MH_STATUS::MH_ERROR_FUNCTION_NOT_FOUND => 12,
            MH_STATUS::MH_ERROR_MUTEX_FAILURE => 13,
        }
    }

    /// The status with numeric code `c`; `MH_UNKNOWN` for a code outside the table.
    pub fn from_code(c: i32) -> (r: MH_STATUS)
        ensures
            0 <= c <= 13 ==> code_of(r) == c,
            !(0 <= c <= 13) ==> r == MH_STATUS::MH_UNKNOWN,
    {
        if c == 0 {
            MH_STATUS::MH_OK
        } else if c == 1 {
            MH_STATUS::MH_ERROR_ALREADY_INITIALIZED
        } else if c == 2 {
            MH_STATUS::MH_ERROR_NOT_INITIALIZED
        } else if c == 3 {
            MH_STATUS::MH_ERROR_ALREADY_CREATED
        } else if c == 4 {
            MH_STATUS::MH_ERROR_NOT_CREATED
        } else if c == 5 {
            MH_STATUS::MH_ERROR_ENABLED
        } else if c == 6 {
            MH_STATUS::MH_ERROR_DISABLED
        } else if c == 7 {
            MH_STATUS::MH_ERROR_NOT_EXECUTABLE
        } else if c == 8 {
            MH_STATUS::MH_ERROR_UNSUPPORTED_FUNCTION
        } else if c == 9 {
            MH_STATUS::MH_ERROR_MEMORY_ALLOC
        } else if c == 10 {
            MH_STATUS::MH_ERROR_MEMORY_PROTECT
        } else if c == 11 {
            MH_STATUS::MH_ERROR_MODULE_NOT_FOUND
        } else if c == 12 {
            MH_STATUS::MH_ERROR_FUNCTION_NOT_FOUND
        } else if c == 13 {
            MH_STATUS::MH_ERROR_MUTEX_FAILURE
        } else {
            MH_STATUS::MH_UNKNOWN
        }
    }

    /// Success for `MH_OK` and `MH_UNKNOWN`, else the error the status stands for.
    pub fn into_result(self) -> (r: Result<(), Error>)
        ensures
            match error_of(self) {
                Some(e) => r == Err::<(), Error>(e),
                None => r == Ok::<(), Error>(()),
            },
    {
        match Error::try_from(self) {
            Ok(err) => Err(err),
            Err(_) => Ok(()),
        }
    }
}

impl Error {
    /// The error that `value` stands for, or a message when it is no error.
    pub fn try_from(value: MH_STATUS) -> (r: Result<Error, &'static str>)
        ensures
            match error_of(value) {
                Some(e) => r == Ok::<Error, &'static str>(e),
                None => r matches Err(m) && m@ == "minhook status did not represent an error"@,
            },
    {
        match value {
            MH_STATUS::MH_ERROR_ALREADY_INITIALIZED => Ok(Error::AlreadyInitialized),
            MH_STATUS::MH_ERROR_NOT_INITIALIZED => Ok(Error::NotInitialized),
            MH_STATUS::MH_ERROR_ALREADY_CREATED => Ok(Error::AlreadyCreated),
            MH_STATUS::MH_ERROR_NOT_CREATED => Ok(Error::NotCreated),
            MH_STATUS::MH_ERROR_ENABLED => Ok(Error::HookEnabled),
            MH_STATUS::MH_ERROR_DISABLED => Ok(Error::HookDisabled),
            MH_STATUS::MH_ERROR_NOT_EXECUTABLE => Ok(Error::PointerNotExecutable),
            MH_STATUS::MH_ERROR_UNSUPPORTED_FUNCTION => Ok(Error::UnsupportedFunction),
            MH_STATUS::MH_ERROR_MEMORY_ALLOC => Ok(Error::AllocationFailure),
            MH_STATUS::MH_ERROR_MEMORY_PROTECT => Ok(Error::ProtectionFailure),
            MH_STATUS::MH_ERROR_MODULE_NOT_FOUND => Ok(Error::ModuleNotFound),
            MH_STATUS::MH_ERROR_FUNCTION_NOT_FOUND => Ok(Error::FunctionNotFound),
            MH_STATUS::MH_ERROR_MUTEX_FAILURE => Ok(Error::MutexFailure),
            _ => Err("minhook status did not represent an error"),
        }
    }

    /// The short text logged for this error.
    pub fn message(&self) -> (r: &'static str)
        ensures
            r@ == message_of(*self),
    {
        match self {
            Error::AlreadyInitialized => "minhook already initialized",
            Error::NotInitialized => "minhook not initialized",
            Error::AlreadyCreated => "hook for a target function already created",
            Error::NotCreated => "hook for a target function not yet created",
            Error::HookEnabled => "hook for a target function already enabled",
            Error::HookDisabled => "hook for a target function not enabled or already disabled",
            Error::PointerNotExecutable => "target function pointer not executable",
            Error::UnsupportedFunction => "target function not hookable",
            Error::AllocationFailure => "internal allocation failed",
            Error::ProtectionFailure => "internal protection change failed",
            Error::ModuleNotFound => "target module not found",
            Error::FunctionNotFound => "target function not found",
            Error::MutexFailure => "internal mutex creation or wait failed",
        }
    }

    /// Same as `message`, as an owned string.
    pub fn to_string(&self) -> (r: String)
        ensures
            r@ == message_of(*self),
    {
        self.message().to_string()
    }
}

impl From<ThreadFreezeMethod> for MH_THREAD_FREEZE_METHOD {
    fn from(method: ThreadFreezeMethod) -> (r: MH_THREAD_FREEZE_METHOD) {
        match method {
            ThreadFreezeMethod::OriginalSnapshot => MH_THREAD_FREEZE_METHOD::MH_FREEZE_METHOD_ORIGINAL,
            ThreadFreezeMethod::KernelNextThread => MH_THREAD_FREEZE_METHOD::MH_FREEZE_METHOD_FAST_UNDOCUMENTED,
        }
    }
}

impl vstd::std_specs::convert::FromSpecImpl<ThreadFreezeMethod> for MH_THREAD_FREEZE_METHOD {
    open spec fn obeys_from_spec() -> bool {
        true
    }

    open spec fn from_spec(method: ThreadFreezeMethod) -> MH_THREAD_FREEZE_METHOD {
        freeze_method_of(method)
    }
}

} // verus!
