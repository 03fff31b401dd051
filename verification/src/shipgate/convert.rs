//! Making a message from its body: alone, which puts it under key 0, or
//! together with a key.

use crate::shipgate::msg::{
    Auth, AuthAck, BbGetAccountInfo, BbGetAccountInfoAck, BbLoginChallenge, BbLoginChallengeAck,
    Message, RegisterShip, RegisterShipAck, ShipList, ShipListAck,
};
use vstd::prelude::*;
use vstd::std_specs::convert::FromSpecImpl;

verus! {

impl From<(u32, Auth)> for Message {
    fn from(val: (u32, Auth)) -> (r: Message) {
        Message::Auth(val.0, val.1)
    }
}

impl FromSpecImpl<(u32, Auth)> for Message {
    open spec fn obeys_from_spec() -> bool {
        true
    }

    open spec fn from_spec(val: (u32, Auth)) -> Message {
        Message::Auth(val.0, val.1)
    }
}

impl From<Auth> for Message {
    fn from(val: Auth) -> (r: Message) {
        Message::Auth(0, val)
    }
}

impl FromSpecImpl<Auth> for Message {
    open spec fn obeys_from_spec() -> bool {
        true
    }

    open spec fn from_spec(val: Auth) -> Message {
        Message::Auth(0, val)
    }
}

impl From<(u32, AuthAck)> for Message {
    fn from(val: (u32, AuthAck)) -> (r: Message) {
        Message::AuthAck(val.0, val.1)
    }
}

impl FromSpecImpl<(u32, AuthAck)> for Message {
    open spec fn obeys_from_spec() -> bool {
        true
    }

    open spec fn from_spec(val: (u32, AuthAck)) -> Message {
        Message::AuthAck(val.0, val.1)
    }
}

impl From<AuthAck> for Message {
    fn from(val: AuthAck) -> (r: Message) {
        Message::AuthAck(0, val)
    }
}

impl FromSpecImpl<AuthAck> for Message {
    open spec fn obeys_from_spec() -> bool {
        true
    }

    open spec fn from_spec(val: AuthAck) -> Message {
        Message::AuthAck(0, val)
    }
}

impl From<(u32, BbLoginChallenge)> for Message {
    fn from(val: (u32, BbLoginChallenge)) -> (r: Message) {
        Message::BbLoginChallenge(val.0, val.1)
    }
}

impl FromSpecImpl<(u32, BbLoginChallenge)> for Message {
    open spec fn obeys_from_spec() -> bool {
        true
    }

    open spec fn from_spec(val: (u32, BbLoginChallenge)) -> Message {
        Message::BbLoginChallenge(val.0, val.1)
    }
}

impl From<BbLoginChallenge> for Message {
    fn from(val: BbLoginChallenge) -> (r: Message) {
        Message::BbLoginChallenge(0, val)
    }
}

impl FromSpecImpl<BbLoginChallenge> for Message {
    open spec fn obeys_from_spec() -> bool {
        true
    }

    open spec fn from_spec(val: BbLoginChallenge) -> Message {
        Message::BbLoginChallenge(0, val)
    }
}

impl From<(u32, BbLoginChallengeAck)> for Message {
    fn from(val: (u32, BbLoginChallengeAck)) -> (r: Message) {
        Message::BbLoginChallengeAck(val.0, val.1)
    }
}

impl FromSpecImpl<(u32, BbLoginChallengeAck)> for Message {
    open spec fn obeys_from_spec() -> bool {
        true
    }

    open spec fn from_spec(val: (u32, BbLoginChallengeAck)) -> Message {
        Message::BbLoginChallengeAck(val.0, val.1)
    }
}

impl From<BbLoginChallengeAck> for Message {
    fn from(val: BbLoginChallengeAck) -> (r: Message) {
        Message::BbLoginChallengeAck(0, val)
    }
}

impl FromSpecImpl<BbLoginChallengeAck> for Message {
    open spec fn obeys_from_spec() -> bool {
        true
    }

    open spec fn from_spec(val: BbLoginChallengeAck) -> Message {
        Message::BbLoginChallengeAck(0, val)
    }
}

impl From<(u32, BbGetAccountInfo)> for Message {
    fn from(val: (u32, BbGetAccountInfo)) -> (r: Message) {
        Message::BbGetAccountInfo(val.0, val.1)
    }
}

impl FromSpecImpl<(u32, BbGetAccountInfo)> for Message {
    open spec fn obeys_from_spec() -> bool {
        true
    }

    open spec fn from_spec(val: (u32, BbGetAccountInfo)) -> Message {
        Message::BbGetAccountInfo(val.0, val.1)
    }
}

impl From<BbGetAccountInfo> for Message {
    fn from(val: BbGetAccountInfo) -> (r: Message) {
        Message::BbGetAccountInfo(0, val)
    }
}

impl FromSpecImpl<BbGetAccountInfo> for Message {
    open spec fn obeys_from_spec() -> bool {
        true
    }

    open spec fn from_spec(val: BbGetAccountInfo) -> Message {
        Message::BbGetAccountInfo(0, val)
    }
}

impl From<(u32, BbGetAccountInfoAck)> for Message {
    fn from(val: (u32, BbGetAccountInfoAck)) -> (r: Message) {
        Message::BbGetAccountInfoAck(val.0, val.1)
    }
}

impl FromSpecImpl<(u32, BbGetAccountInfoAck)> for Message {
    open spec fn obeys_from_spec() -> bool {
        true
    }

    open spec fn from_spec(val: (u32, BbGetAccountInfoAck)) -> Message {
        Message::BbGetAccountInfoAck(val.0, val.1)
    }
}

impl From<BbGetAccountInfoAck> for Message {
    fn from(val: BbGetAccountInfoAck) -> (r: Message) {
        Message::BbGetAccountInfoAck(0, val)
    }
}

impl FromSpecImpl<BbGetAccountInfoAck> for Message {
    open spec fn obeys_from_spec() -> bool {
        true
    }

    open spec fn from_spec(val: BbGetAccountInfoAck) -> Message {
        Message::BbGetAccountInfoAck(0, val)
    }
}

impl From<(u32, RegisterShip)> for Message {
    fn from(val: (u32, RegisterShip)) -> (r: Message) {
        Message::RegisterShip(val.0, val.1)
    }
}

impl FromSpecImpl<(u32, RegisterShip)> for Message {
    open spec fn obeys_from_spec() -> bool {
        true
    }

    open spec fn from_spec(val: (u32, RegisterShip)) -> Message {
        Message::RegisterShip(val.0, val.1)
    }
}

impl From<RegisterShip> for Message {
    fn from(val: RegisterShip) -> (r: Message) {
        Message::RegisterShip(0, val)
    }
}

impl FromSpecImpl<RegisterShip> for Message {
    open spec fn obeys_from_spec() -> bool {
        true
    }

    open spec fn from_spec(val: RegisterShip) -> Message {
        Message::RegisterShip(0, val)
    }
}

impl From<(u32, RegisterShipAck)> for Message {
    fn from(val: (u32, RegisterShipAck)) -> (r: Message) {
        Message::RegisterShipAck(val.0, val.1)
    }
}

impl FromSpecImpl<(u32, RegisterShipAck)> for Message {
    open spec fn obeys_from_spec() -> bool {
        true
    }

    open spec fn from_spec(val: (u32, RegisterShipAck)) -> Message {
        Message::RegisterShipAck(val.0, val.1)
    }
}

impl From<RegisterShipAck> for Message {
    fn from(val: RegisterShipAck) -> (r: Message) {
        Message::RegisterShipAck(0, val)
    }
}

impl FromSpecImpl<RegisterShipAck> for Message {
    open spec fn obeys_from_spec() -> bool {
        true
    }

    open spec fn from_spec(val: RegisterShipAck) -> Message {
        Message::RegisterShipAck(0, val)
    }
}

impl From<(u32, ShipList)> for Message {
    fn from(val: (u32, ShipList)) -> (r: Message) {
        Message::ShipList(val.0, val.1)
    }
}

impl FromSpecImpl<(u32, ShipList)> for Message {
    open spec fn obeys_from_spec() -> bool {
        true
    }

    open spec fn from_spec(val: (u32, ShipList)) -> Message {
        Message::ShipList(val.0, val.1)
    }
}

impl From<ShipList> for Message {
    fn from(val: ShipList) -> (r: Message) {
        Message::ShipList(0, val)
    }
}

impl FromSpecImpl<ShipList> for Message {
    open spec fn obeys_from_spec() -> bool {
        true
    }

    open spec fn from_spec(val: ShipList) -> Message {
        Message::ShipList(0, val)
    }
}

impl From<(u32, ShipListAck)> for Message {
    fn from(val: (u32, ShipListAck)) -> (r: Message) {
        Message::ShipListAck(val.0, val.1)
    }
}

impl FromSpecImpl<(u32, ShipListAck)> for Message {
    open spec fn obeys_from_spec() -> bool {
        true
    }

    open spec fn from_spec(val: (u32, ShipListAck)) -> Message {
        Message::ShipListAck(val.0, val.1)
    }
}

impl From<ShipListAck> for Message {
    fn from(val: ShipListAck) -> (r: Message) {
        Message::ShipListAck(0, val)
    }
}

impl FromSpecImpl<ShipListAck> for Message {
    open spec fn obeys_from_spec() -> bool {
        true
    }

    open spec fn from_spec(val: ShipListAck) -> Message {
        Message::ShipListAck(0, val)
    }
}

impl From<(u16, u32, Vec<u8>)> for Message {
    fn from(val: (u16, u32, Vec<u8>)) -> (r: Message) {
        Message::Unknown(val.0, val.1, val.2)
    }
}

impl FromSpecImpl<(u16, u32, Vec<u8>)> for Message {
    open spec fn obeys_from_spec() -> bool {
        true
    }

    open spec fn from_spec(val: (u16, u32, Vec<u8>)) -> Message {
        Message::Unknown(val.0, val.1, val.2)
    }
}

} // verus!
