//! Netplay client ids, packet targets and delivery flags, and the netpacket
//! session as the entry points the frontend gave.

use crate::raw::{
    RETRO_NETPACKET_BROADCAST, RETRO_NETPACKET_FLUSH_HINT, RETRO_NETPACKET_RELIABLE,
    RETRO_NETPACKET_UNRELIABLE, RETRO_NETPACKET_UNSEQUENCED,
};
use vstd::prelude::*;

verus! {

/// A netplay client; 0 is the host.
#[derive(Clone, Copy, Debug, Default, PartialEq, Eq, Hash, Structural)]
pub struct NetplayClientId(u16);

impl View for NetplayClientId {
    type V = u16;

    closed spec fn view(&self) -> u16 {
        self.0
    }
}

impl NetplayClientId {
    /// A value is determined by its view: two values are equal exactly
    /// when their views are.
    pub proof fn lemma_view_injective(a: Self, b: Self)
        ensures
            a@ == b@ <==> a == b,
    {
    }
}

impl NetplayClientId {
    pub fn new(id: u16) -> (client: Self)
        ensures
            client@ == id,
    {
        NetplayClientId(id)
    }

    pub fn host() -> (client: Self)
        ensures
            client@ == 0,
    {
        NetplayClientId(0)
    }

    pub fn as_raw(self) -> (id: u16)
        ensures
            id == self@,
    {
        self.0
    }
}

/// Where a packet goes: one client, or every client.
#[derive(Clone, Copy, Debug, PartialEq, Eq, Hash, Structural)]
pub enum NetpacketTarget {
    Client(NetplayClientId),
    Broadcast,
}

/// The libretro client id of a target.
pub open spec fn spec_target_raw(target: NetpacketTarget) -> u16 {
    match target {
        NetpacketTarget::Client(client) => client@,
        NetpacketTarget::Broadcast => RETRO_NETPACKET_BROADCAST,
    }
}

impl NetpacketTarget {
    pub fn as_raw(self) -> (id: u16)
        ensures
            id == spec_target_raw(self),
    {
        match self {
            NetpacketTarget::Client(client) => client.as_raw(),
            NetpacketTarget::Broadcast => RETRO_NETPACKET_BROADCAST,
        }
    }
}

/// How a packet is delivered.
#[derive(Clone, Copy, Debug, Default, PartialEq, Eq, Hash, Structural)]
pub enum NetpacketDelivery {
    #[default]
    Unreliable,
    Reliable,
    Unsequenced,
}

/// The libretro flag of a delivery mode.
pub open spec fn spec_delivery_raw(delivery: NetpacketDelivery) -> i32 {
    match delivery {
        NetpacketDelivery::Unreliable => RETRO_NETPACKET_UNRELIABLE,
        NetpacketDelivery::Reliable => RETRO_NETPACKET_RELIABLE,
        NetpacketDelivery::Unsequenced => RETRO_NETPACKET_UNSEQUENCED,
    }
}

/// A delivery mode and whether the frontend should flush after the packet.
#[derive(Clone, Copy, Debug, Default, PartialEq, Eq, Hash, Structural)]
pub struct NetpacketFlags {
    delivery: NetpacketDelivery,
    flush: bool,
}

impl NetpacketFlags {
    pub closed spec fn spec_delivery(self) -> NetpacketDelivery {
        self.delivery
    }

    pub closed spec fn spec_flush(self) -> bool {
        self.flush
    }

    pub fn unreliable() -> (flags: Self)
        ensures
            flags.spec_delivery() == NetpacketDelivery::Unreliable,
            !flags.spec_flush(),
    {
        NetpacketFlags { delivery: NetpacketDelivery::Unreliable, flush: false }
    }

    pub fn reliable() -> (flags: Self)
        ensures
            flags.spec_delivery() == NetpacketDelivery::Reliable,
            !flags.spec_flush(),
    {
        NetpacketFlags { delivery: NetpacketDelivery::Reliable, flush: false }
    }

    pub fn unsequenced() -> (flags: Self)
        ensures
            flags.spec_delivery() == NetpacketDelivery::Unsequenced,
            !flags.spec_flush(),
    {
        NetpacketFlags { delivery: NetpacketDelivery::Unsequenced, flush: false }
    }

    pub fn with_flush_hint(self, flush: bool) -> (flags: Self)
        ensures
            flags.spec_delivery() == self.spec_delivery(),
            flags.spec_flush() == flush,
    {
        NetpacketFlags { delivery: self.delivery, flush }
    }

    pub fn delivery(self) -> (delivery: NetpacketDelivery)
        ensures
            delivery == self.spec_delivery(),
    {
        self.delivery
    }

    pub fn flush_hint(self) -> (flush: bool)
        ensures
            flush == self.spec_flush(),
    {
        self.flush
    }

    /// The libretro flag word: the delivery flag, with the flush hint bit
    /// where asked. The delivery can be read back from the low two bits and
    /// the hint from the hint bit.
    pub fn as_raw(self) -> (raw: i32)
        ensures
            raw == spec_delivery_raw(self.spec_delivery()) + if self.spec_flush() {
                RETRO_NETPACKET_FLUSH_HINT
            } else {
                0i32
            },
            raw & 3 == spec_delivery_raw(self.spec_delivery()),
            (raw & RETRO_NETPACKET_FLUSH_HINT != 0) == self.spec_flush(),
    {
        let delivery = match self.delivery {
            NetpacketDelivery::Unreliable => RETRO_NETPACKET_UNRELIABLE,
            NetpacketDelivery::Reliable => RETRO_NETPACKET_RELIABLE,
            NetpacketDelivery::Unsequenced => RETRO_NETPACKET_UNSEQUENCED,
        };
        assert(0 <= delivery <= 2);
        if self.flush {
            assert(delivery | 4i32 == delivery + 4 && (delivery | 4i32) & 3 == delivery && (delivery
                | 4i32) & 4 != 0) by (bit_vector)
                requires
                    0 <= delivery <= 2,
            ;
            delivery | RETRO_NETPACKET_FLUSH_HINT
        } else {
            assert(delivery & 3 == delivery && delivery & 4 == 0) by (bit_vector)
                requires
                    0 <= delivery <= 2,
            ;
            delivery
        }
    }
}

/// A received packet and the client it came from.
#[derive(Clone, Copy, Debug, PartialEq, Eq)]
pub struct Netpacket<'a> {
    pub client_id: NetplayClientId,
    pub data: &'a [u8],
}

/// A call of the frontend's `send` entry point: the flag word, the number of
/// bytes and the target's client id.
#[derive(Clone, Copy, Debug, PartialEq, Eq, Structural)]
pub struct NetpacketSendCall {
    pub flags: i32,
    pub len: usize,
    pub client_id: u16,
}

/// A running netpacket session: this core's client id and whether the
/// frontend gave a `poll_receive` entry point (it always gives `send`).
#[derive(Clone, Copy, Debug, PartialEq, Eq, Structural)]
pub struct NetpacketSession {
    client_id: NetplayClientId,
    poll_receive: bool,
}

impl NetpacketSession {
    pub closed spec fn spec_client_id(self) -> NetplayClientId {
        self.client_id
    }

    pub closed spec fn spec_can_poll_receive(self) -> bool {
        self.poll_receive
    }

    /// A session for `client_id`; none where the frontend gave no `send`.
    pub fn new(client_id: NetplayClientId, send: bool, poll_receive: bool) -> (session: Option<Self>)
        ensures
            send <==> session is Some,
            session matches Some(s) ==> s.spec_client_id() == client_id && s.spec_can_poll_receive()
                == poll_receive,
    {
        if send {
            Some(NetpacketSession { client_id, poll_receive })
        } else {
            None
        }
    }

    pub fn client_id(self) -> (client: NetplayClientId)
        ensures
            client == self.spec_client_id(),
    {
        self.client_id
    }

    pub fn can_poll_receive(self) -> (can: bool)
        ensures
            can == self.spec_can_poll_receive(),
    {
        self.poll_receive
    }

    /// The `send` call that asks the frontend to flush packets to `target`:
    /// an empty reliable packet with the flush hint.
    pub fn flush(self, target: NetpacketTarget) -> (call: NetpacketSendCall)
        ensures
            call.flags == RETRO_NETPACKET_RELIABLE + RETRO_NETPACKET_FLUSH_HINT,
            call.len == 0,
            call.client_id == spec_target_raw(target),
    {
        let flags = NetpacketFlags::reliable().with_flush_hint(true);
        NetpacketSendCall { flags: flags.as_raw(), len: 0, client_id: target.as_raw() }
    }
}

} // verus!
