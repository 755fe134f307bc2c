use chainx_consensus::rpc::{
    default_rpc_config, maybe_start_server, BindFailure, IpAddress, SocketAddress, StartError,
    CHAIN_NAME, IMPL_NAME, IMPL_VERSION,
};
use std::cell::RefCell;

fn address(port: u16) -> SocketAddress {
    SocketAddress { ip: IpAddress::V4([127, 0, 0, 1]), port }
}

fn failure(kind: BindFailure, cause: &'static str) -> StartError<&'static str> {
    StartError { kind, cause }
}

#[test]
fn the_node_names_itself() {
    let config = default_rpc_config();
    assert_eq!(config.system_name(), "bud");
    assert_eq!(config.system_version(), "v0.1.0");
    assert_eq!(config.system_chain(), "chainx");
    assert_eq!(CHAIN_NAME, "chainx");
    assert_eq!(IMPL_NAME, "bud");
    assert_eq!(IMPL_VERSION, "v0.1.0");
    assert_eq!(config.clone().system_chain(), "chainx");
}

#[test]
fn without_an_address_no_server_is_started() {
    let calls: RefCell<Vec<SocketAddress>> = RefCell::new(Vec::new());
    let started = maybe_start_server(None, |at: SocketAddress| -> Result<u16, StartError<&str>> {
        calls.borrow_mut().push(at);
        Ok(at.port)
    });
    assert_eq!(started.unwrap(), None);
    assert!(calls.borrow().is_empty());
}

#[test]
fn a_server_that_binds_is_started_once() {
    let calls: RefCell<Vec<SocketAddress>> = RefCell::new(Vec::new());
    let started =
        maybe_start_server(Some(address(9933)), |at: SocketAddress| -> Result<u16, StartError<&str>> {
            calls.borrow_mut().push(at);
            Ok(at.port)
        });
    assert_eq!(started.unwrap(), Some(9933));
    assert_eq!(*calls.borrow(), vec![address(9933)]);
}

#[test]
fn a_taken_address_is_tried_again_on_any_port() {
    for kind in [BindFailure::AddrInUse, BindFailure::PermissionDenied] {
        let calls: RefCell<Vec<SocketAddress>> = RefCell::new(Vec::new());
        let started = maybe_start_server(Some(address(80)), |at: SocketAddress| {
            calls.borrow_mut().push(at);
            if at.port == 0 {
                Ok("bound")
            } else {
                Err(failure(kind, "first"))
            }
        });
        assert_eq!(started.unwrap(), Some("bound"));
        assert_eq!(*calls.borrow(), vec![address(80), address(0)]);
    }
}

#[test]
fn the_second_failure_is_handed_back() {
    let calls: RefCell<Vec<SocketAddress>> = RefCell::new(Vec::new());
    let started = maybe_start_server(Some(address(80)), |at: SocketAddress| -> Result<u8, _> {
        calls.borrow_mut().push(at);
        if at.port == 0 {
            Err(failure(BindFailure::AddrInUse, "second"))
        } else {
            Err(failure(BindFailure::PermissionDenied, "first"))
        }
    });
    let error = started.unwrap_err();
    assert_eq!(error.kind, BindFailure::AddrInUse);
    assert_eq!(error.cause, "second");
    assert_eq!(calls.borrow().len(), 2);
}

#[test]
fn any_other_failure_is_handed_back_at_once() {
    let calls: RefCell<Vec<SocketAddress>> = RefCell::new(Vec::new());
    let started = maybe_start_server(Some(address(80)), |at: SocketAddress| -> Result<u8, _> {
        calls.borrow_mut().push(at);
        Err(failure(BindFailure::Other, "refused"))
    });
    let error = started.unwrap_err();
    assert_eq!(error.kind, BindFailure::Other);
    assert_eq!(error.cause, "refused");
    assert_eq!(*calls.borrow(), vec![address(80)]);
}
