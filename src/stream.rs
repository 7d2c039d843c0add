//! The outbound side of a Snapcast stream: message ids and framing.

use vstd::prelude::*;
use crate::protocol::{
    message_bytes, message_fits, KindView, MessageView, ProtocolError, SnapBase, SnapCodec,
    SnapKind, SnapMessage,
};

verus! {

/// Numbers and frames the messages that this client sends. The transport
/// that carries the bytes, and the clock origin of `sent`, live outside.
pub struct SnapStream {
    current_id: u16,
}

/// The message that `send` frames: numbered `id`, answering nothing, and with
/// `received` set to `sent` as a placeholder that the recipient overwrites.
pub open spec fn outbound(id: u16, kind: KindView, sent: int) -> MessageView {
    MessageView { id, refers_to: 0, received: sent, sent, kind }
}

impl SnapStream {
    pub fn new() -> (r: SnapStream)
        ensures
            r.next_id() == 0,
    {
        SnapStream { current_id: 0 }
    }

    pub closed spec fn next_id(&self) -> u16 {
        self.current_id
    }

    /// The id that the next message will carry.
    pub fn current_id(&self) -> (r: u16)
        ensures
            r == self.next_id(),
    {
        self.current_id
    }

    /// Frames `kind` as the next message, sent `sent` microseconds after the
    /// stream opened, and appends its bytes to `dst`. The id advances (and
    /// wraps) whether or not the message fits the wire.
    pub fn send(&mut self, kind: SnapKind, sent: i64, dst: &mut Vec<u8>) -> (r: Result<
        (),
        ProtocolError,
    >)
        ensures
            final(self).next_id() == (old(self).next_id() + 1) % 0x1_0000,
            r is Ok <==> message_fits(outbound(old(self).next_id(), kind@, sent as int)),
            r is Ok ==> final(dst)@ == old(dst)@ + message_bytes(
                outbound(old(self).next_id(), kind@, sent as int),
            ),
            r is Err ==> final(dst)@ == old(dst)@,
    {
        let msg = SnapMessage {
            base: SnapBase { id: self.current_id, refers_to: 0, received: sent, sent },
            kind,
        };
        self.current_id = self.current_id.wrapping_add(1);
        let mut codec = SnapCodec::new();
        codec.encode(&msg, dst)
    }
}

/// The greeting that a client sends first. It travels as JSON, which is
/// written outside this library.
#[derive(Debug)]
pub struct SnapHello {
    pub arch: String,
    pub client_name: String,
    pub host_name: String,
    pub id: String,
    pub instance: usize,
    pub mac: String,
    pub os: String,
    pub protocol_version: usize,
    pub version: String,
}

impl SnapHello {
    /// The greeting of this client on a host with the given facts: the MAC
    /// address serves as both id and MAC, the instance is 1 and the stream
    /// protocol version is 2.
    pub fn new(arch: String, host_name: String, mac: String, os: String) -> (r: SnapHello)
        ensures
            r.arch@ == arch@,
            r.host_name@ == host_name@,
            r.id@ == mac@,
            r.mac@ == mac@,
            r.os@ == os@,
            r.instance == 1,
            r.protocol_version == 2,
            r.client_name@ == "Snapclient"@,
            r.version@ == "0.17.1"@,
    {
        SnapHello {
            arch,
            client_name: "Snapclient".to_owned(),
            host_name,
            id: mac.clone(),
            instance: 1,
            mac,
            os,
            protocol_version: 2,
            version: "0.17.1".to_owned(),
        }
    }
}

} // verus!
