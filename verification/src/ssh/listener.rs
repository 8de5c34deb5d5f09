//! Where the SSH service listens, and how it is set up.
use vstd::prelude::*;
use super::authorize::{BindingPolicy, PolicyView};
use crate::ssh_nat::SSH_INTERNAL_PORT;
use crate::text;

verus! {

/// The SSH service on one network.
#[derive(Debug)]
pub struct SshBinding {
    pub network_id: u128,
    pub network_name: String,
    pub policy: BindingPolicy,
}

pub struct BindingView {
    pub network_id: u128,
    pub network_name: Seq<char>,
    pub policy: PolicyView,
}

impl View for SshBinding {
    type V = BindingView;

    open spec fn view(&self) -> BindingView {
        BindingView {
            network_id: self.network_id,
            network_name: self.network_name@,
            policy: self.policy@,
        }
    }
}

impl Clone for SshBinding {
    fn clone(&self) -> (r: Self)
        ensures
            r@ == self@,
    {
        SshBinding {
            network_id: self.network_id,
            network_name: self.network_name.clone(),
            policy: self.policy.clone(),
        }
    }
}

/// How a client may authenticate.
#[derive(Debug, Clone, Copy, PartialEq, Eq, Structural)]
pub enum LoginMethod {
    /// By its place in the mesh alone.
    Mesh,
    KeyboardInteractive,
}

/// How the SSH service is set up. Times are in seconds.
#[derive(Debug)]
pub struct ListenerConfig {
    pub inactivity_timeout: u64,
    pub auth_rejection_time: u64,
    /// The first refusal, which only tells the client the methods.
    pub auth_rejection_time_initial: u64,
    pub methods: Vec<LoginMethod>,
}

pub fn listener_config() -> (r: ListenerConfig)
    ensures
        r.inactivity_timeout == 3600,
        r.auth_rejection_time == 1,
        r.auth_rejection_time_initial == 0,
        r.methods@ == seq![LoginMethod::Mesh, LoginMethod::KeyboardInteractive],
{
    let mut methods: Vec<LoginMethod> = Vec::new();
    methods.push(LoginMethod::Mesh);
    methods.push(LoginMethod::KeyboardInteractive);
    assert(methods@ =~= seq![LoginMethod::Mesh, LoginMethod::KeyboardInteractive]);
    ListenerConfig {
        inactivity_timeout: 3600,
        auth_rejection_time: 1,
        auth_rejection_time_initial: 0,
        methods,
    }
}

/// A socket to listen on, for a network.
#[derive(Debug, Clone, Copy, PartialEq, Eq, Structural)]
pub struct ListenAddress {
    pub ip: u32,
    pub port: u16,
    pub network_id: u128,
}

/// Why the SSH service does not listen.
#[derive(Debug, Clone, Copy, PartialEq, Eq, Structural)]
pub enum ListenError {
    /// This device has no mesh address.
    NoAddresses,
}

/// The sockets for mesh addresses and their networks: one each, on the internal port.
pub open spec fn listen_on(addrs: Seq<(u32, u128)>) -> Seq<ListenAddress> {
    addrs.map_values(
        |a: (u32, u128)| ListenAddress { ip: a.0, port: SSH_INTERNAL_PORT, network_id: a.1 },
    )
}

/// Where to listen, given the mesh addresses of this device and their networks.
pub fn listen_addresses(addrs: &[(u32, u128)]) -> (r: Result<Vec<ListenAddress>, ListenError>)
    ensures
        match r {
            Ok(v) => addrs@.len() > 0 && v@ == listen_on(addrs@),
            Err(e) => addrs@.len() == 0 && e is NoAddresses,
        },
{
    if addrs.len() == 0 {
        return Err(ListenError::NoAddresses);
    }
    let mut out: Vec<ListenAddress> = Vec::new();
    let mut i: usize = 0;
    while i < addrs.len()
        invariant
            i <= addrs@.len(),
            out@ == listen_on(addrs@).take(i as int),
        decreases addrs@.len() - i,
    {
        let (ip, network_id) = addrs[i];
        out.push(ListenAddress { ip, port: SSH_INTERNAL_PORT, network_id });
        assert(out@ =~= listen_on(addrs@).take(i + 1));
        i = i + 1;
    }
    assert(out@ =~= listen_on(addrs@));
    Ok(out)
}

/// The name of the user that the agent runs as, from `USERNAME`, else from
/// `USER`, else empty.
pub fn current_local_user(username: Option<String>, user: Option<String>) -> (r: String)
    ensures
        r@ == (match (text::opt_string(username), text::opt_string(user)) {
            (Some(n), _) => n,
            (None, Some(n)) => n,
            (None, None) => Seq::empty(),
        }),
{
    if let Some(n) = username {
        return n;
    }
    if let Some(n) = user {
        return n;
    }
    let empty = String::new();
    assert(empty@ =~= Seq::empty());
    empty
}

/// There is one socket for each mesh address, in their order, on port 30022 of
/// the address and for its network.
pub proof fn law_one_socket_for_each_address(addrs: Seq<(u32, u128)>, i: int)
    requires
        0 <= i < addrs.len(),
    ensures
        listen_on(addrs).len() == addrs.len(),
        listen_on(addrs)[i].ip == addrs[i].0,
        listen_on(addrs)[i].network_id == addrs[i].1,
        listen_on(addrs)[i].port == 30022,
{
}

} // verus!
