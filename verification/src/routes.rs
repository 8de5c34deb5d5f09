//! Who is where in the mesh.
use vstd::prelude::*;
use crate::text;

verus! {

/// The address of the other end of a connection.
#[derive(Debug, Clone, Copy, PartialEq, Eq, Structural)]
pub enum IpAddress {
    V4(u32),
    V6(u128),
}

/// A device as a member of one network.
#[derive(Debug)]
pub struct Member {
    pub ip: u32,
    pub endpoint_hex: String,
    /// Empty where the device has none.
    pub hostname: String,
    pub network_id: u128,
    pub network_name: String,
    pub tags: Vec<String>,
}

pub struct MemberView {
    pub ip: u32,
    pub endpoint: Seq<char>,
    pub hostname: Seq<char>,
    pub network_id: u128,
    pub network_name: Seq<char>,
    pub tags: Seq<Seq<char>>,
}

impl View for Member {
    type V = MemberView;

    open spec fn view(&self) -> MemberView {
        MemberView {
            ip: self.ip,
            endpoint: self.endpoint_hex@,
            hostname: self.hostname@,
            network_id: self.network_id,
            network_name: self.network_name@,
            tags: text::views(self.tags@),
        }
    }
}

/// The first member with an address.
pub open spec fn with_ip(members: Seq<MemberView>, ip: u32) -> Option<MemberView>
    decreases members.len(),
{
    if members.len() == 0 {
        None
    } else if members[0].ip == ip {
        Some(members[0])
    } else {
        with_ip(members.drop_first(), ip)
    }
}

/// The first member that is a device in a network.
pub open spec fn device_in(
    members: Seq<MemberView>,
    network_id: u128,
    endpoint: Seq<char>,
) -> Option<MemberView>
    decreases members.len(),
{
    if members.len() == 0 {
        None
    } else if members[0].network_id == network_id && members[0].endpoint == endpoint {
        Some(members[0])
    } else {
        device_in(members.drop_first(), network_id, endpoint)
    }
}

pub open spec fn opt_member(m: Option<&Member>) -> Option<MemberView> {
    match m {
        Some(m) => Some(m@),
        None => None,
    }
}

/// The members of all networks that this device is in.
pub struct RoutingTable {
    members: Vec<Member>,
}

impl View for RoutingTable {
    type V = Seq<MemberView>;

    closed spec fn view(&self) -> Seq<MemberView> {
        self.members@.map_values(|m: Member| m@)
    }
}

impl RoutingTable {
    pub fn new() -> (r: Self)
        ensures
            r@ == Seq::<MemberView>::empty(),
    {
        let r = RoutingTable { members: Vec::new() };
        assert(r@ =~= Seq::<MemberView>::empty());
        r
    }

    pub fn insert(&mut self, member: Member)
        ensures
            final(self)@ == old(self)@.push(member@),
    {
        self.members.push(member);
        assert(self@ =~= old(self)@.push(member@));
    }

    /// The member with an address.
    pub fn lookup_ip(&self, ip: u32) -> (r: Option<&Member>)
        ensures
            opt_member(r) == with_ip(self@, ip),
    {
        let mut i: usize = 0;
        assert(self@.skip(0) =~= self@);
        while i < self.members.len()
            invariant
                i <= self.members@.len(),
                self@ == self.members@.map_values(|m: Member| m@),
                with_ip(self@, ip) == with_ip(self@.skip(i as int), ip),
            decreases self.members@.len() - i,
        {
            assert(self@.skip(i as int)[0] == self.members@[i as int]@);
            assert(self@.skip(i as int).drop_first() =~= self@.skip(i + 1));
            if self.members[i].ip == ip {
                return Some(&self.members[i]);
            }
            i = i + 1;
        }
        None
    }

    /// A device as a member of a network.
    pub fn lookup_endpoint_in(&self, network_id: u128, endpoint_hex: &str) -> (r: Option<&Member>)
        ensures
            opt_member(r) == device_in(self@, network_id, endpoint_hex@),
    {
        let mut i: usize = 0;
        assert(self@.skip(0) =~= self@);
        while i < self.members.len()
            invariant
                i <= self.members@.len(),
                self@ == self.members@.map_values(|m: Member| m@),
                device_in(self@, network_id, endpoint_hex@) == device_in(
                    self@.skip(i as int),
                    network_id,
                    endpoint_hex@,
                ),
            decreases self.members@.len() - i,
        {
            assert(self@.skip(i as int)[0] == self.members@[i as int]@);
            assert(self@.skip(i as int).drop_first() =~= self@.skip(i + 1));
            if self.members[i].network_id == network_id && text::same(
                self.members[i].endpoint_hex.as_str(),
                endpoint_hex,
            ) {
                return Some(&self.members[i]);
            }
            i = i + 1;
        }
        None
    }
}

/// The member that is found by an address has that address, and no member that
/// stands before it has; where none is found, none has it.
pub proof fn law_found_by_address(members: Seq<MemberView>, ip: u32)
    ensures
        match with_ip(members, ip) {
            Some(m) => exists|i: int|
                0 <= i < members.len() && #[trigger] members[i] == m && m.ip == ip && forall|k: int|
                    0 <= k < i ==> (#[trigger] members[k]).ip != ip,
            None => forall|k: int| 0 <= k < members.len() ==> (#[trigger] members[k]).ip != ip,
        },
    decreases members.len(),
{
    if members.len() > 0 && members[0].ip != ip {
        let rest = members.drop_first();
        law_found_by_address(rest, ip);
        assert(forall|k: int| 1 <= k < members.len() ==> #[trigger] members[k] == rest[k - 1]);
        if let Some(m) = with_ip(rest, ip) {
            let i = choose|i: int|
                0 <= i < rest.len() && #[trigger] rest[i] == m && m.ip == ip && forall|k: int|
                    0 <= k < i ==> (#[trigger] rest[k]).ip != ip;
            assert(members[i + 1] == m);
        }
    }
}

/// A device that is found in a network is that device in that network; where
/// none is found, no member is.
pub proof fn law_found_in_network(members: Seq<MemberView>, network_id: u128, endpoint: Seq<char>)
    ensures
        match device_in(members, network_id, endpoint) {
            Some(m) => exists|i: int|
                0 <= i < members.len() && #[trigger] members[i] == m && m.network_id == network_id
                    && m.endpoint == endpoint && forall|k: int|
                    0 <= k < i ==> (#[trigger] members[k]).network_id != network_id
                        || members[k].endpoint != endpoint,
            None => forall|k: int|
                0 <= k < members.len() ==> (#[trigger] members[k]).network_id != network_id
                    || members[k].endpoint != endpoint,
        },
    decreases members.len(),
{
    if members.len() > 0 && !(members[0].network_id == network_id && members[0].endpoint
        == endpoint) {
        let rest = members.drop_first();
        law_found_in_network(rest, network_id, endpoint);
        assert(forall|k: int| 1 <= k < members.len() ==> #[trigger] members[k] == rest[k - 1]);
        if let Some(m) = device_in(rest, network_id, endpoint) {
            let i = choose|i: int|
                0 <= i < rest.len() && #[trigger] rest[i] == m && m.network_id == network_id
                    && m.endpoint == endpoint && forall|k: int|
                    0 <= k < i ==> (#[trigger] rest[k]).network_id != network_id
                        || rest[k].endpoint != endpoint;
            assert(members[i + 1] == m);
        }
    }
}

} // verus!
