use minhook_ex::status::{Error, ThreadFreezeMethod, MH_STATUS, MH_THREAD_FREEZE_METHOD};

#[test]
fn try_from_maps_each_error_status() {
    assert_eq!(Error::try_from(MH_STATUS::MH_ERROR_ALREADY_INITIALIZED), Ok(Error::AlreadyInitialized));
    assert_eq!(Error::try_from(MH_STATUS::MH_ERROR_NOT_INITIALIZED), Ok(Error::NotInitialized));
    assert_eq!(Error::try_from(MH_STATUS::MH_ERROR_ALREADY_CREATED), Ok(Error::AlreadyCreated));
    assert_eq!(Error::try_from(MH_STATUS::MH_ERROR_NOT_CREATED), Ok(Error::NotCreated));
    assert_eq!(Error::try_from(MH_STATUS::MH_ERROR_ENABLED), Ok(Error::HookEnabled));
    assert_eq!(Error::try_from(MH_STATUS::MH_ERROR_DISABLED), Ok(Error::HookDisabled));
    assert_eq!(Error::try_from(MH_STATUS::MH_ERROR_NOT_EXECUTABLE), Ok(Error::PointerNotExecutable));
    assert_eq!(Error::try_from(MH_STATUS::MH_ERROR_UNSUPPORTED_FUNCTION), Ok(Error::UnsupportedFunction));
    assert_eq!(Error::try_from(MH_STATUS::MH_ERROR_MEMORY_ALLOC), Ok(Error::AllocationFailure));
    assert_eq!(Error::try_from(MH_STATUS::MH_ERROR_MEMORY_PROTECT), Ok(Error::ProtectionFailure));
    assert_eq!(Error::try_from(MH_STATUS::MH_ERROR_MODULE_NOT_FOUND), Ok(Error::ModuleNotFound));
    assert_eq!(Error::try_from(MH_STATUS::MH_ERROR_FUNCTION_NOT_FOUND), Ok(Error::FunctionNotFound));
    assert_eq!(Error::try_from(MH_STATUS::MH_ERROR_MUTEX_FAILURE), Ok(Error::MutexFailure));
}

#[test]
fn try_from_refuses_success_and_unknown() {
    assert_eq!(Error::try_from(MH_STATUS::MH_OK), Err("minhook status did not represent an error"));
    assert_eq!(Error::try_from(MH_STATUS::MH_UNKNOWN), Err("minhook status did not represent an error"));
}

#[test]
fn into_result_of_statuses() {
    assert_eq!(MH_STATUS::MH_OK.into_result(), Ok(()));
    assert_eq!(MH_STATUS::MH_UNKNOWN.into_result(), Ok(()));
    assert_eq!(MH_STATUS::MH_ERROR_ENABLED.into_result(), Err(Error::HookEnabled));
    assert_eq!(MH_STATUS::MH_ERROR_MUTEX_FAILURE.into_result(), Err(Error::MutexFailure));
}

#[test]
fn status_codes_round_trip() {
    assert_eq!(MH_STATUS::MH_UNKNOWN.code(), -1);
    assert_eq!(MH_STATUS::MH_OK.code(), 0);
    assert_eq!(MH_STATUS::MH_ERROR_MUTEX_FAILURE.code(), 13);
    for c in 0..14 {
        assert_eq!(MH_STATUS::from_code(c).code(), c);
    }
    assert_eq!(MH_STATUS::from_code(14), MH_STATUS::MH_UNKNOWN);
    assert_eq!(MH_STATUS::from_code(-7), MH_STATUS::MH_UNKNOWN);
}

#[test]
fn error_messages() {
    assert_eq!(Error::AlreadyInitialized.message(), "minhook already initialized");
    assert_eq!(Error::UnsupportedFunction.to_string(), "target function not hookable");
    assert_eq!(Error::MutexFailure.message(), "internal mutex creation or wait failed");
    assert_eq!(Error::HookDisabled.message(), "hook for a target function not enabled or already disabled");
    assert_ne!(Error::HookDisabled.message(), Error::NotCreated.message());
}

#[test]
fn freeze_method_conversion() {
    assert_eq!(
        MH_THREAD_FREEZE_METHOD::from(ThreadFreezeMethod::OriginalSnapshot),
        MH_THREAD_FREEZE_METHOD::MH_FREEZE_METHOD_ORIGINAL
    );
    assert_eq!(
        MH_THREAD_FREEZE_METHOD::from(ThreadFreezeMethod::KernelNextThread),
        MH_THREAD_FREEZE_METHOD::MH_FREEZE_METHOD_FAST_UNDOCUMENTED
    );
}
