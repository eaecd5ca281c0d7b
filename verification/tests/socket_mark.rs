use std::cell::Cell;
use zapret_checker::socket_mark::{mark_outcome, SoMarkError, SocketMarkSetter};

struct FakeSocket {
    requested_mark: Cell<Option<u32>>,
    supported: bool,
}

impl SocketMarkSetter for FakeSocket {
    fn set_mark(&self, mark: u32) -> Result<(), SoMarkError> {
        if !self.supported {
            return Err(SoMarkError::UnsupportedPlatform);
        }
        self.requested_mark.set(Some(mark));
        Ok(())
    }
}

#[test]
fn socket_mark_abstraction_reports_unsupported_platform() {
    let socket = FakeSocket { requested_mark: Cell::new(None), supported: false };
    assert_eq!(socket.set_mark(0x20000001), Err(SoMarkError::UnsupportedPlatform));
}

#[test]
fn socket_mark_abstraction_accepts_mark_on_supported_backend() {
    let socket = FakeSocket { requested_mark: Cell::new(None), supported: true };
    assert!(socket.set_mark(0x20000001).is_ok());
    assert_eq!(socket.requested_mark.get(), Some(0x20000001));
}

#[test]
fn a_code_other_than_zero_is_a_failure() {
    assert_eq!(mark_outcome(0, "ignored".to_string()), Ok(()));
    let error = mark_outcome(-1, "Operation not permitted".to_string()).unwrap_err();
    assert_eq!(error.message(), "failed to set SO_MARK: Operation not permitted");
    assert_eq!(SoMarkError::UnsupportedPlatform.message(), "SO_MARK is only supported on Linux");
}
