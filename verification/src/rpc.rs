//! What the node tells of itself over RPC, and how its servers are started.

use vstd::prelude::*;

verus! {

/// The name of the chain.
pub const CHAIN_NAME: &'static str = "chainx";

/// The name of the implementation.
pub const IMPL_NAME: &'static str = "bud";

/// The version of the implementation.
pub const IMPL_VERSION: &'static str = "v0.1.0";

/// What the system API answers.
#[derive(Clone)]
pub struct RpcConfig {
    chain_name: String,
    impl_name: &'static str,
    impl_version: &'static str,
}

impl RpcConfig {
    /// The chain's name.
    pub closed spec fn chain_name(&self) -> Seq<char> {
        self.chain_name@
    }

    /// The implementation's name.
    pub closed spec fn impl_name(&self) -> Seq<char> {
        self.impl_name@
    }

    /// The implementation's version.
    pub closed spec fn impl_version(&self) -> Seq<char> {
        self.impl_version@
    }

    /// The name of the node's implementation.
    pub fn system_name(&self) -> (r: String)
        ensures
            r@ == self.impl_name(),
    {
        self.impl_name.to_owned()
    }

    /// The version of the node's implementation.
    pub fn system_version(&self) -> (r: String)
        ensures
            r@ == self.impl_version(),
    {
        self.impl_version.to_owned()
    }

    /// The name of the chain that the node follows.
    pub fn system_chain(&self) -> (r: String)
        ensures
            r@ == self.chain_name(),
    {
        self.chain_name.clone()
    }
}

/// The answers of this node.
pub fn default_rpc_config() -> (r: RpcConfig)
    ensures
        r.chain_name() == CHAIN_NAME@,
        r.impl_name() == IMPL_NAME@,
        r.impl_version() == IMPL_VERSION@,
{
    RpcConfig {
        chain_name: CHAIN_NAME.to_owned(),
        impl_name: IMPL_NAME,
        impl_version: IMPL_VERSION,
    }
}

/// The host part of an address.
#[derive(Clone, Copy, Debug, PartialEq, Eq)]
pub enum IpAddress {
    V4([u8; 4]),
    V6([u16; 8]),
}

/// An address on which a server listens.
#[derive(Clone, Copy, Debug, PartialEq, Eq)]
pub struct SocketAddress {
    pub ip: IpAddress,
    /// The port; 0 lets the system pick one.
    pub port: u16,
}

/// Why a server could not be bound to its address.
#[derive(Clone, Copy, Debug, PartialEq, Eq, Structural)]
pub enum BindFailure {
    /// Another socket holds the address.
    AddrInUse,
    /// The process may not use the address.
    PermissionDenied,
    /// Anything else.
    Other,
}

/// A failed start: what went wrong, and the error as the system gave it.
#[derive(Debug)]
pub struct StartError<E> {
    pub kind: BindFailure,
    pub cause: E,
}

/// Whether a start that failed so is tried again on a port of the system's
/// choice.
pub open spec fn retried(kind: BindFailure) -> bool {
    kind == BindFailure::AddrInUse || kind == BindFailure::PermissionDenied
}

/// The same host with a port of the system's choice.
pub open spec fn on_any_port(address: SocketAddress) -> SocketAddress {
    SocketAddress { ip: address.ip, port: 0 }
}

/// What the start of a server ends in, given what the first attempt gave
/// and, where there was one, the second.
pub open spec fn start_result<T, E>(
    first: Result<T, StartError<E>>,
    second: Result<T, StartError<E>>,
) -> Result<Option<T>, StartError<E>> {
    match first {
        Ok(server) => Ok(Some(server)),
        Err(failure) => if retried(failure.kind) {
            match second {
                Ok(server) => Ok(Some(server)),
                Err(again) => Err(again),
            }
        } else {
            Err(failure)
        },
    }
}

/// Starts a server if an address is given. Where the address is taken or
/// not permitted, the start is tried once more on a port of the system's
/// choice. Any other failure, and that of the second attempt, is handed
/// back.
pub fn maybe_start_server<T, E, F>(address: Option<SocketAddress>, start: F) -> (r: Result<
    Option<T>,
    StartError<E>,
>) where F: Fn(SocketAddress) -> Result<T, StartError<E>>
    requires
        address is Some ==> start.requires((address.unwrap(),)) && start.requires(
            (on_any_port(address.unwrap()),),
        ),
    ensures
        address is None ==> r == Ok::<Option<T>, StartError<E>>(None),
        address is Some ==> exists|first: Result<T, StartError<E>>|
            #[trigger] start.ensures((address.unwrap(),), first) && (match first {
                Ok(_) => r == start_result(first, first),
                Err(failure) => if retried(failure.kind) {
                    exists|second: Result<T, StartError<E>>|
                        #[trigger] start.ensures((on_any_port(address.unwrap()),), second) && r
                            == start_result(first, second)
                } else {
                    r == start_result(first, first)
                },
            }),
{
    let address = match address {
        Some(address) => address,
        None => {
            return Ok(None);
        },
    };
    let first = start(address);
    match first {
        Ok(server) => Ok(Some(server)),
        Err(failure) => {
            let retry = match failure.kind {
                BindFailure::AddrInUse => true,
                BindFailure::PermissionDenied => true,
                BindFailure::Other => false,
            };
            if retry {
                let second = start(SocketAddress { ip: address.ip, port: 0 });
                match second {
                    Ok(server) => Ok(Some(server)),
                    Err(again) => Err(again),
                }
            } else {
                Err(failure)
            }
        },
    }
}

} // verus!
