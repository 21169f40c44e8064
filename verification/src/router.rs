//! Which meters a frame goes to.

use crate::actor::messages::RegistryMsg;
use crate::bytes::same_address;
use crate::protocol::codec::{
    address_matches, decode_frame, decoded, frame_error, is_broadcast_address, match_address,
    validate_broadcast_command,
};
use crate::protocol::frame::{Frame, FrameModel};
use vstd::prelude::*;

verus! {

/// What a router is run with.
#[derive(Debug, Clone, Copy, PartialEq, Eq, Structural)]
pub struct RouterConfig {
    /// how many connections are served at a time
    pub worker_threads: usize,
    /// how many frames may wait
    pub frame_queue_capacity: usize,
}

impl Default for RouterConfig {
    fn default() -> (r: RouterConfig)
        ensures
            r == (RouterConfig { worker_threads: 4, frame_queue_capacity: 1000 }),
    {
        RouterConfig { worker_threads: 4, frame_queue_capacity: 1000 }
    }
}

/// All bytes 99H: the frame is for every meter.
pub open spec fn is_broadcast(address: Seq<u8>) -> bool {
    forall|i: int| 0 <= i < 6 ==> address[i] == 0x99
}

/// A frame reaches a meter. A broadcast reaches every meter if its command may be broadcast;
/// another frame reaches the meters whose address fits its address.
pub open spec fn reaches(frame: FrameModel, address: Seq<u8>) -> bool {
    if is_broadcast(frame.address) {
        frame.control % 32 == 0x08 || frame.control % 32 == 0x16
    } else {
        address_matches(frame.address, address)
    }
}

/// The addresses of the meters that a router serves, each once.
#[derive(Debug)]
pub struct Router {
    config: RouterConfig,
    addresses: Vec<[u8; 6]>,
}

/// The positions in `addresses` of the meters that a frame reaches, in rising order.
pub open spec fn targets(frame: FrameModel, addresses: Seq<[u8; 6]>) -> Seq<usize>
    decreases addresses.len(),
{
    if addresses.len() == 0 {
        seq![]
    } else {
        let before = targets(frame, addresses.drop_last());
        if reaches(frame, addresses.last()@) {
            before.push((addresses.len() - 1) as usize)
        } else {
            before
        }
    }
}

spec fn distinct(addresses: Seq<[u8; 6]>) -> bool {
    forall|i: int, j: int|
        0 <= i < j < addresses.len() ==> (#[trigger] addresses[i])@ != (#[trigger] addresses[j])@
}

impl Router {
    #[verifier::type_invariant]
    spec fn addresses_differ(self) -> bool {
        distinct(self.addresses@)
    }

    /// The addresses in the order of registration.
    pub closed spec fn registered(self) -> Seq<[u8; 6]> {
        self.addresses@
    }

    pub closed spec fn configuration(self) -> RouterConfig {
        self.config
    }

    /// Some registered meter has this address.
    pub open spec fn knows(self, address: Seq<u8>) -> bool {
        exists|i: int| 0 <= i < self.registered().len() && (#[trigger] self.registered()[i])@
            == address
    }

    /// A router without meters.
    pub fn new(config: RouterConfig) -> (r: Router)
        ensures
            r.registered().len() == 0,
            r.configuration() == config,
    {
        Router { config, addresses: Vec::new() }
    }

    pub fn config(&self) -> (r: RouterConfig)
        ensures
            r == self.configuration(),
    {
        self.config
    }

    /// How many meters are registered.
    pub fn count(&self) -> (r: usize)
        ensures
            r == self.registered().len(),
    {
        self.addresses.len()
    }

    /// The registered addresses; none is registered twice.
    pub fn addresses(&self) -> (r: &Vec<[u8; 6]>)
        ensures
            r@ == self.registered(),
            forall|i: int, j: int|
                0 <= i < j < r@.len() ==> (#[trigger] r@[i])@ != (#[trigger] r@[j])@,
    {
        proof {
            use_type_invariant(self);
        }
        &self.addresses
    }

    /// The position of an address.
    pub fn position(&self, address: &[u8; 6]) -> (r: Option<usize>)
        ensures
            r is Some <==> self.knows(address@),
            r matches Some(i) ==> i < self.registered().len() && self.registered()[i as int]@
                == address@,
    {
        for i in 0..self.addresses.len()
            invariant
                forall|j: int| 0 <= j < i ==> (#[trigger] self.registered()[j])@ != address@,
        {
            if same_address(&self.addresses[i], address) {
                assert(self.registered()[i as int]@ == address@);
                return Some(i);
            }
        }
        None
    }

    /// Registers a meter; an address can be registered once.
    pub fn register(&mut self, address: [u8; 6]) -> (r: bool)
        ensures
            r == !old(self).knows(address@),
            r ==> final(self).registered() == old(self).registered().push(address),
            !r ==> final(self).registered() == old(self).registered(),
            final(self).configuration() == old(self).configuration(),
    {
        if self.position(&address).is_some() {
            return false;
        }
        proof {
            use_type_invariant(&*self);
        }
        let mut addresses: Vec<[u8; 6]> = Vec::new();
        std::mem::swap(&mut addresses, &mut self.addresses);
        let ghost before = addresses@;
        addresses.push(address);
        assert(distinct(addresses@)) by {
            assert forall|i: int, j: int| 0 <= i < j < addresses@.len() implies (
            #[trigger] addresses@[i])@ != (#[trigger] addresses@[j])@ by {
                if j == before.len() {
                    assert(old(self).registered()[i] == before[i]);
                } else {
                    assert(before[i]@ != before[j]@);
                }
            }
        }
        self.addresses = addresses;
        true
    }

    /// Follows a meter to its new address, unless it is unknown or another meter has that
    /// address.
    pub fn relocate(&mut self, msg: RegistryMsg) -> (r: bool)
        ensures
            ({
                let RegistryMsg::UpdateAddress { old: from, new: to } = msg;
                &&& r == (old(self).knows(from@) && !old(self).knows(to@))
                &&& r ==> exists|i: int|
                    0 <= i < old(self).registered().len() && (
                    #[trigger] old(self).registered()[i])@ == from@ && final(self).registered()
                        == old(self).registered().update(i, to)
                &&& !r ==> final(self).registered() == old(self).registered()
                &&& final(self).configuration() == old(self).configuration()
            }),
    {
        let RegistryMsg::UpdateAddress { old: from, new: to } = msg;
        if self.position(&to).is_some() {
            return false;
        }
        let i: usize = match self.position(&from) {
            Some(i) => i,
            None => {
                return false;
            },
        };
        proof {
            use_type_invariant(&*self);
        }
        let mut addresses: Vec<[u8; 6]> = Vec::new();
        std::mem::swap(&mut addresses, &mut self.addresses);
        let ghost before = addresses@;
        addresses.set(i, to);
        assert(distinct(addresses@)) by {
            assert forall|a: int, b: int| 0 <= a < b < addresses@.len() implies (
            #[trigger] addresses@[a])@ != (#[trigger] addresses@[b])@ by {
                assert(old(self).registered()[a] == before[a]);
                assert(old(self).registered()[b] == before[b]);
                assert(before[a]@ != before[b]@);
            }
        }
        self.addresses = addresses;
        proof {
            assert(old(self).registered()[i as int]@ == from@);
            assert(self.registered() =~= old(self).registered().update(i as int, to));
        }
        true
    }

    /// Decodes a frame and finds the meters that it goes to. Bytes that are no frame go
    /// nowhere and are not answered.
    pub fn process_raw_frame(&self, raw: &[u8]) -> (r: Option<(Frame, Vec<usize>)>)
        ensures
            r is Some <==> frame_error(raw@) is None,
            r matches Some((frame, reached)) ==> frame@ == decoded(raw@) && reached@ == targets(
                decoded(raw@),
                self.registered(),
            ),
    {
        let frame = match decode_frame(raw) {
            Ok(frame) => frame,
            Err(_) => {
                return None;
            },
        };
        let broadcast: bool = is_broadcast_address(&frame.address);
        let allowed: bool = validate_broadcast_command(frame.control);
        let mut reached: Vec<usize> = Vec::new();
        for i in 0..self.addresses.len()
            invariant
                broadcast == is_broadcast(frame@.address),
                allowed == (frame@.control % 32 == 0x08 || frame@.control % 32 == 0x16),
                reached@ == targets(frame@, self.addresses@.take(i as int)),
        {
            let hit: bool = if broadcast {
                allowed
            } else {
                match_address(&frame.address, &self.addresses[i])
            };
            if hit {
                reached.push(i);
            }
            assert(self.addresses@.take(i + 1).drop_last() =~= self.addresses@.take(i as int));
        }
        assert(self.addresses@.take(self.addresses@.len() as int) =~= self.addresses@);
        Some((frame, reached))
    }
}

/// A position is among the targets exactly when the frame reaches its meter.
pub proof fn law_targets_are_reached(frame: FrameModel, addresses: Seq<[u8; 6]>, p: usize)
    requires
        addresses.len() <= usize::MAX,
    ensures
        targets(frame, addresses).contains(p) <==> p < addresses.len() && reaches(
            frame,
            addresses[p as int]@,
        ),
    decreases addresses.len(),
{
    if addresses.len() > 0 {
        let before = targets(frame, addresses.drop_last());
        let last = (addresses.len() - 1) as usize;
        law_targets_are_reached(frame, addresses.drop_last(), p);
        if reaches(frame, addresses.last()@) {
            let all = before.push(last);
            if before.contains(p) {
                let q = choose|q: int| 0 <= q < before.len() && before[q] == p;
                assert(all[q] == p);
            }
            if p == last {
                assert(all[before.len() as int] == p);
            }
            if all.contains(p) && p != last {
                let q = choose|q: int| 0 <= q < all.len() && all[q] == p;
                assert(before[q] == p);
            }
        }
    }
}

/// A broadcast that may be broadcast reaches every meter, any other broadcast none.
pub proof fn law_broadcast_reaches_all(frame: FrameModel, addresses: Seq<[u8; 6]>, p: usize)
    requires
        is_broadcast(frame.address),
        p < addresses.len() <= usize::MAX,
    ensures
        targets(frame, addresses).contains(p) <==> frame.control % 32 == 0x08 || frame.control % 32
            == 0x16,
{
    law_targets_are_reached(frame, addresses, p);
}

/// A frame with a plain address, neither broadcast nor with a wildcard in it, reaches only a
/// meter of that very address.
pub proof fn law_plain_address_reaches_its_meter(
    frame: FrameModel,
    addresses: Seq<[u8; 6]>,
    p: usize,
)
    requires
        frame.address.len() == 6,
        !is_broadcast(frame.address),
        forall|i: int| 0 <= i < 6 ==> frame.address[i] != 0xAA,
        p < addresses.len() <= usize::MAX,
    ensures
        targets(frame, addresses).contains(p) <==> addresses[p as int]@ == frame.address,
{
    law_targets_are_reached(frame, addresses, p);
    crate::protocol::codec::law_plain_pattern_is_exact(frame.address, addresses[p as int]@);
}

/// A meter that has moved is reached under its new address.
pub proof fn law_moved_meter_is_reached(
    frame: FrameModel,
    addresses: Seq<[u8; 6]>,
    p: usize,
    to: [u8; 6],
)
    requires
        p < addresses.len() <= usize::MAX,
        frame.address == to@,
        !is_broadcast(to@),
    ensures
        targets(frame, addresses.update(p as int, to)).contains(p),
{
    law_targets_are_reached(frame, addresses.update(p as int, to), p);
}

} // verus!
