//! The raw transmission channel, as far as it decides.
//!
//! A channel owns one handle of the operating system from the moment it is
//! opened until it is closed. This module holds the record of a channel and
//! every decision about it: whether opening succeeded, whether a frame may
//! be sent and how a send ended, and whether closing has a handle to
//! release. The calls into the operating system are made by the caller, who
//! hands their results in.

use crate::wire::be16;
use vstd::prelude::*;

verus! {

/// The family of a channel.
#[derive(Debug, Clone, Copy)]
pub enum Domain {
    Packet,
}

/// How a channel frames what is sent on it.
#[derive(Debug, Clone, Copy)]
pub enum Type {
    Raw,
    Dgram,
}

/// Which frames a channel is bound to.
#[derive(Debug, Clone, Copy)]
pub enum Protocol {
    Ether,
    Arp,
    IPv4,
}

/// `libc::ETH_P_ALL`, the protocol number that stands for every protocol. It
/// is 3 on every target for which `libc` defines it.
#[verifier::external_body]
fn eth_p_all() -> (code: u16)
    ensures
        code == 0x0003,
{
    libc::ETH_P_ALL as u16
}

/// `libc::ETH_P_ARP`, the protocol number of address resolution. It is
/// `0x0806` on every target for which `libc` defines it.
#[verifier::external_body]
fn eth_p_arp() -> (code: u16)
    ensures
        code == 0x0806,
{
    libc::ETH_P_ARP as u16
}

/// `libc::ETH_P_IP`, the protocol number of IPv4. It is `0x0800` on every
/// target for which `libc` defines it.
#[verifier::external_body]
fn eth_p_ip() -> (code: u16)
    ensures
        code == 0x0800,
{
    libc::ETH_P_IP as u16
}

impl Protocol {
    /// The number of the protocol, in host byte order.
    pub open spec fn spec_code(&self) -> u16 {
        match self {
            Protocol::Ether => 0x0003,
            Protocol::Arp => 0x0806,
            Protocol::IPv4 => 0x0800,
        }
    }

    /// The number of the protocol, in host byte order.
    #[verifier::when_used_as_spec(spec_code)]
    pub fn code(&self) -> (code: u16)
        ensures
            code == self.spec_code(),
    {
        match self {
            Protocol::Ether => eth_p_all(),
            Protocol::Arp => eth_p_arp(),
            Protocol::IPv4 => eth_p_ip(),
        }
    }

    /// The number of the protocol as it is handed to the operating system:
    /// in network byte order, most significant byte first.
    pub fn network_order(&self) -> (octets: [u8; 2])
        ensures
            octets@ == be16(self.code()),
    {
        let code: u16 = self.code();
        [(code / 256) as u8, (code % 256) as u8]
    }
}

/// Opening a channel failed in the operating system.
#[derive(Debug, Clone, Copy, PartialEq, Eq, Structural)]
pub struct ChannelOpenError {
    /// The error code of the operating system.
    pub code: i32,
}

/// A frame was not sent.
#[derive(Debug, Clone, Copy, PartialEq, Eq, Structural)]
pub enum TransmissionError {
    /// The channel was closed before the send.
    Closed,
    /// The operating system refused the send, with this error code.
    Os { code: i32 },
    /// Only the first `written` bytes of the frame were sent.
    Partial { written: usize },
}

/// A channel and the handle it owns. It is open from its construction until
/// it is closed, and then stays closed.
#[derive(Debug)]
pub struct Socket {
    domain: Domain,
    ty: Type,
    protocol: Protocol,
    fd: i32,
    open: bool,
}

impl Socket {
    /// The family the channel was opened in.
    pub closed spec fn domain(&self) -> Domain {
        self.domain
    }

    /// The framing the channel was opened with.
    pub closed spec fn ty(&self) -> Type {
        self.ty
    }

    /// The protocol the channel was opened for.
    pub closed spec fn protocol(&self) -> Protocol {
        self.protocol
    }

    /// The handle of the operating system.
    pub closed spec fn fd(&self) -> i32 {
        self.fd
    }

    /// The channel still owns its handle.
    pub closed spec fn is_open(&self) -> bool {
        self.open
    }

    /// What a send on the channel starts with: the handle to write to, or
    /// the refusal of a closed channel.
    pub open spec fn send_decision(&self) -> Result<i32, TransmissionError> {
        if self.is_open() {
            Ok(self.fd())
        } else {
            Err(TransmissionError::Closed)
        }
    }

    /// What closing the channel has to release: its handle if it is open,
    /// nothing if it is closed already.
    pub open spec fn release_decision(&self) -> Option<i32> {
        if self.is_open() {
            Some(self.fd())
        } else {
            None
        }
    }

    /// `after` is this channel closed: the same channel, no longer open.
    pub open spec fn closes_to(&self, after: &Socket) -> bool {
        &&& !after.is_open()
        &&& after.fd() == self.fd()
        &&& after.domain() == self.domain()
        &&& after.ty() == self.ty()
        &&& after.protocol() == self.protocol()
    }

    /// How a write of a frame of `frame_len` bytes ended, given what the
    /// operating system returned: the number of bytes written, or a
    /// negative number and an error code. A frame written in part counts as
    /// not sent.
    pub open spec fn send_outcome(frame_len: usize, written: isize, os_error: i32) -> Result<
        usize,
        TransmissionError,
    > {
        if written < 0 {
            Err(TransmissionError::Os { code: os_error })
        } else if written != frame_len {
            Err(TransmissionError::Partial { written: written as usize })
        } else {
            Ok(frame_len)
        }
    }

    /// Records the result of opening a channel. `fd` is what the operating
    /// system returned, `os_error` its error code at that moment. The
    /// channel exists only if a handle was given out: on `-1` there is no
    /// channel and nothing to release.
    pub fn new(domain: Domain, ty: Type, protocol: Protocol, fd: i32, os_error: i32) -> (opened:
        Result<Self, ChannelOpenError>)
        ensures
            match opened {
                Ok(socket) => {
                    &&& fd != -1
                    &&& socket.is_open()
                    &&& socket.fd() == fd
                    &&& socket.domain() == domain
                    &&& socket.ty() == ty
                    &&& socket.protocol() == protocol
                },
                Err(e) => fd == -1 && e == (ChannelOpenError { code: os_error }),
            },
    {
        match fd {
            -1 => Err(ChannelOpenError { code: os_error }),
            fd => Ok(Socket { domain: domain, ty: ty, protocol: protocol, fd: fd, open: true }),
        }
    }

    /// The handle to send a frame on. A closed channel has none to offer.
    pub fn send_handle(&self) -> (handle: Result<i32, TransmissionError>)
        ensures
            handle == self.send_decision(),
    {
        if self.open {
            Ok(self.fd)
        } else {
            Err(TransmissionError::Closed)
        }
    }

    /// Judges the result of writing a frame of `frame_len` bytes.
    pub fn send_result(frame_len: usize, written: isize, os_error: i32) -> (sent: Result<
        usize,
        TransmissionError,
    >)
        ensures
            sent == Self::send_outcome(frame_len, written, os_error),
    {
        if written < 0 {
            Err(TransmissionError::Os { code: os_error })
        } else if written as usize != frame_len {
            Err(TransmissionError::Partial { written: written as usize })
        } else {
            Ok(frame_len)
        }
    }

    /// Closes the channel and hands out the handle to release. Only the
    /// first close of a channel hands one out.
    pub fn close(&mut self) -> (released: Option<i32>)
        ensures
            released == old(self).release_decision(),
            old(self).closes_to(final(self)),
    {
        if self.open {
            self.open = false;
            Some(self.fd)
        } else {
            None
        }
    }
}

/// A closed channel stays closed: a send on it is refused, and closing it
/// again releases nothing. So a handle is released at most once, and none
/// is used after its release.
pub proof fn lemma_closed_channel_is_inert(before: Socket, after: Socket)
    requires
        before.closes_to(&after),
    ensures
        after.send_decision() == Err::<i32, TransmissionError>(TransmissionError::Closed),
        after.release_decision() is None,
        after.closes_to(&after),
{
}

} // verus!
