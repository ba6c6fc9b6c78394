//! Plugins: peers that offer a fixed set of procedures.

use crate::client::rpc::server::Rpc;
use crate::client::{is_offer_result, registration, Client, ThinClient};
use crate::error::Error;
use crate::rpc::{ResponseKind, RpcResult};
use vstd::prelude::*;

pub mod list_files;

verus! {

/// The procedures of a plugin, each with the name under which it is offered.
pub type RpcMap = Vec<(String, Box<dyn Rpc>)>;

/// Offers every procedure of `map` through `client`. The first refusal ends
/// the work and is passed on; with nothing to offer there is nothing to
/// refuse. The result is success or what one of the offers came to.
pub fn register_rpc(client: &mut Client, map: RpcMap) -> (res: Result<(), Error>)
    ensures
        final(client).loop_commands() == old(client).loop_commands(),
        final(client).serving() == old(client).serving(),
        map@.len() == 0 ==> res == Ok::<(), Error>(()),
        is_offer_result(res),
{
    proof {
        let agreed = ResponseKind::Last(RpcResult::Success(arbitrary()));
        assert(is_offer_result(registration(Ok(agreed))));
    }
    let mut rest = map;
    loop
        invariant
            client.loop_commands() == old(client).loop_commands(),
            client.serving() == old(client).serving(),
            rest@.len() <= map@.len(),
            is_offer_result(Ok::<(), Error>(())),
        decreases rest@.len(),
    {
        match rest.pop() {
            Some((name, rpc)) => match client.new_rpc(name.as_str(), rpc) {
                Ok(()) => {},
                Err(error) => {
                    return Err(error);
                },
            },
            None => {
                return Ok(());
            },
        }
    }
}

/// What makes a plugin: the procedures that it offers. The procedures may
/// make calls of their own through `thin_client`.
pub trait Core {
    fn rpc_map(&self, thin_client: ThinClient) -> RpcMap;
}

/// A running plugin.
pub struct Plugin {
    _client: Client,
}

impl Plugin {
    /// The handles of the plugin's peer.
    pub closed spec fn client(&self) -> Client {
        self._client
    }

    /// Starts the plugin `core` on the peer behind `client`: offers every
    /// procedure of the plugin. The first refusal is passed on.
    pub fn start<Co: Core>(client: Client, core: Co) -> (res: Result<Plugin, Error>)
        ensures
            res matches Ok(plugin) ==> plugin.client().loop_commands() == client.loop_commands()
                && plugin.client().serving() == client.serving(),
            res matches Err(error) ==> is_offer_result(Err(error)),
    {
        let mut client = client;
        let thin_client = match client.clone() {
            Ok(thin_client) => thin_client,
            Err(error) => {
                return Err(error);
            },
        };
        match register_rpc(&mut client, core.rpc_map(thin_client)) {
            Ok(()) => Ok(Plugin { _client: client }),
            Err(error) => Err(error),
        }
    }
}

} // verus!
