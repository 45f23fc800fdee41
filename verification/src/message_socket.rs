//! A model of the rendezvous protocol over two named local datagram
//! endpoints: a server bound to a well-known name keyed by a numeric id,
//! and a client bound to its own name so replies route back.  The exchange
//! is strictly half-duplex request/response and carries no meaningful
//! payload: the reply's arrival is the only signal that fresh shared data
//! is ready.
//!
//! Each endpoint's socket holds at most one pending datagram: there is no
//! request queue, and a frame that becomes ready while no request is
//! pending is simply dropped by the server, never buffered.

use vstd::prelude::*;

verus! {

/// Why a channel operation did not complete.
#[derive(Clone, Copy, PartialEq, Eq, Structural, Debug)]
pub enum ChannelError {
    /// The acting endpoint is not bound.
    NotOpen,
    /// The client cannot connect: no server is bound under this id.
    NotConnected,
    /// The peer's endpoint has vanished; surfaced to the consumer path,
    /// swallowed on the best-effort reply path.
    Disconnected,
    /// The non-blocking server poll found no pending request; transient,
    /// retried next tick.
    WouldBlock,
    /// No reply arrived within the client's waiting budget; transient,
    /// the client may retry.
    Timeout,
}

/// The mathematical state of one rendezvous channel.
#[verifier::ext_equal]
pub ghost struct ChannelModel {
    pub id: u32,
    pub server_bound: bool,
    pub client_bound: bool,
    /// The datagram sitting in the server's socket, if any.
    pub request: Option<Seq<u8>>,
    /// The datagram sitting in the client's socket, if any.
    pub reply: Option<Seq<u8>>,
}

/// The token a server uses to address its reply: the caller's endpoint
/// name, learned from the received request.
#[derive(Clone, Copy, PartialEq, Eq, Structural, Debug)]
pub struct ClientAddr {
    pub id: u32,
}

/// A client send leaves its datagram as the pending request; a socket
/// holds one datagram, so a resend replaces it.
pub open spec fn ch_client_send(m: ChannelModel, msg: Seq<u8>) -> ChannelModel {
    ChannelModel { request: Some(msg), ..m }
}

/// The server's poll takes the pending request out of its socket.
pub open spec fn ch_server_take(m: ChannelModel) -> ChannelModel {
    ChannelModel { request: None, ..m }
}

/// The server's reply leaves its datagram in the client's socket.
pub open spec fn ch_server_send(m: ChannelModel, msg: Seq<u8>) -> ChannelModel {
    ChannelModel { reply: Some(msg), ..m }
}

/// The client's receive takes the pending reply out of its socket.
pub open spec fn ch_client_take(m: ChannelModel) -> ChannelModel {
    ChannelModel { reply: None, ..m }
}

/// One rendezvous channel: the pair of named endpoints under one id,
/// with the at-most-one datagram each of their sockets holds.
pub struct SyncChannel {
    id: u32,
    server_bound: bool,
    client_bound: bool,
    request: Option<Vec<u8>>,
    reply: Option<Vec<u8>>,
}

impl View for SyncChannel {
    type V = ChannelModel;

    closed spec fn view(&self) -> ChannelModel {
        ChannelModel {
            id: self.id,
            server_bound: self.server_bound,
            client_bound: self.client_bound,
            request: match self.request {
                Some(ref v) => Some(v@),
                None => None,
            },
            reply: match self.reply {
                Some(ref v) => Some(v@),
                None => None,
            },
        }
    }
}

/// Copies as much of `src` as fits into `dst` without growing it: what a
/// datagram receive does with the caller's buffer, truncating an oversized
/// message.
fn copy_into(dst: &mut Vec<u8>, src: &Vec<u8>) -> (n: usize)
    ensures
        n == vstd::math::min(src@.len() as int, old(dst)@.len() as int),
        final(dst)@.len() == old(dst)@.len(),
        forall|k: int| 0 <= k < n ==> final(dst)@[k] == src@[k],
        forall|k: int| n <= k < final(dst)@.len() ==> final(dst)@[k] == old(dst)@[k],
{
    let n = if src.len() < dst.len() {
        src.len()
    } else {
        dst.len()
    };
    for k in 0..n
        invariant
            n <= src@.len(),
            n <= dst@.len(),
            dst@.len() == old(dst)@.len(),
            forall|j: int| 0 <= j < k ==> dst@[j] == src@[j],
            forall|j: int| k <= j < dst@.len() ==> dst@[j] == old(dst)@[j],
    {
        dst.set(k, src[k]);
    }
    n
}

impl SyncChannel {
    /// A channel on which nothing is bound and nothing is pending.
    pub fn new(id: u32) -> (r: Self)
        ensures
            r@ == (ChannelModel {
                id,
                server_bound: false,
                client_bound: false,
                request: None,
                reply: None,
            }),
    {
        SyncChannel { id, server_bound: false, client_bound: false, request: None, reply: None }
    }

    /// Binds the server's well-known endpoint.  A stale name left behind
    /// by an unclean exit is removed and rebinding succeeds, which also
    /// discards any datagram addressed to the old socket.
    pub fn open_server(&mut self)
        ensures
            final(self)@ == (ChannelModel {
                server_bound: true,
                request: None,
                ..old(self)@
            }),
    {
        self.server_bound = true;
        self.request = None;
    }

    /// Unregisters the server's endpoint name so it can be reused after a
    /// restart; its pending datagram, if any, is gone with the socket.
    pub fn close_server(&mut self)
        ensures
            final(self)@ == (ChannelModel {
                server_bound: false,
                request: None,
                ..old(self)@
            }),
    {
        self.server_bound = false;
        self.request = None;
    }

    /// Binds the client's own endpoint and connects it to the server's
    /// name, which must be bound; succeeds if and only if it is.
    pub fn open_client(&mut self) -> (r: Result<(), ChannelError>)
        ensures
            r is Ok <==> old(self)@.server_bound,
            r is Ok ==> final(self)@ == (ChannelModel {
                client_bound: true,
                reply: None,
                ..old(self)@
            }),
            r is Err ==> r == Result::<(), ChannelError>::Err(ChannelError::NotConnected)
                && *final(self) == *old(self),
    {
        if self.server_bound {
            self.client_bound = true;
            self.reply = None;
            Ok(())
        } else {
            Err(ChannelError::NotConnected)
        }
    }

    /// Unregisters the client's endpoint name, discarding an unread reply.
    pub fn close_client(&mut self)
        ensures
            final(self)@ == (ChannelModel {
                client_bound: false,
                reply: None,
                ..old(self)@
            }),
    {
        self.client_bound = false;
        self.reply = None;
    }

    /// The client's request: succeeds if and only if both endpoints stand,
    /// and leaves the datagram pending at the server.  A missing server
    /// surfaces as a disconnect the caller decides about.
    pub fn client_send(&mut self, buffer: &Vec<u8>) -> (r: Result<usize, ChannelError>)
        ensures
            r is Ok <==> (old(self)@.client_bound && old(self)@.server_bound),
            r is Ok ==> r == Result::<usize, ChannelError>::Ok(buffer@.len() as usize)
                && final(self)@ == ch_client_send(old(self)@, buffer@),
            r is Err ==> *final(self) == *old(self) && r == Result::<usize, ChannelError>::Err(
                if !old(self)@.client_bound {
                    ChannelError::NotOpen
                } else {
                    ChannelError::Disconnected
                },
            ),
    {
        if !self.client_bound {
            Err(ChannelError::NotOpen)
        } else if !self.server_bound {
            Err(ChannelError::Disconnected)
        } else {
            self.request = Some(buffer.clone());
            proof {
                assert(self.request->Some_0@ =~= buffer@);
            }
            Ok(buffer.len())
        }
    }

    /// The server's non-blocking poll: takes the pending request if one
    /// stands, copying it into the caller's buffer (truncated to the
    /// buffer, as a datagram receive does) and telling the caller's
    /// address; finding none is the transient no-data case.
    pub fn server_receive(&mut self, buffer: &mut Vec<u8>) -> (r: Result<
        (usize, ClientAddr),
        ChannelError,
    >)
        ensures
            r is Ok <==> (old(self)@.server_bound && old(self)@.request is Some),
            r is Ok ==> ({
                let msg = old(self)@.request->Some_0;
                let n = r->Ok_0.0;
                &&& final(self)@ == ch_server_take(old(self)@)
                &&& r->Ok_0.1.id == old(self)@.id
                &&& n == vstd::math::min(msg.len() as int, old(buffer)@.len() as int)
                &&& final(buffer)@.len() == old(buffer)@.len()
                &&& (forall|k: int| 0 <= k < n ==> final(buffer)@[k] == msg[k])
                &&& (forall|k: int| n <= k < final(buffer)@.len() ==> final(buffer)@[k] == old(
                    buffer,
                )@[k])
            }),
            r is Err ==> *final(self) == *old(self) && *final(buffer) == *old(buffer) && r
                == Result::<(usize, ClientAddr), ChannelError>::Err(
                if !old(self)@.server_bound {
                    ChannelError::NotOpen
                } else {
                    ChannelError::WouldBlock
                },
            ),
    {
        if !self.server_bound {
            return Err(ChannelError::NotOpen);
        }
        let mut taken: Option<Vec<u8>> = None;
        core::mem::swap(&mut taken, &mut self.request);
        match taken {
            Some(msg) => {
                let n = copy_into(buffer, &msg);
                Ok((n, ClientAddr { id: self.id }))
            },
            None => Err(ChannelError::WouldBlock),
        }
    }

    /// The server's reply to the address a request came from: issued only
    /// after the shared data is fully written, it is the signal that the
    /// data is ready.  A vanished client is a disconnect the caller may
    /// discard, since a crashed consumer must not stall the pipeline.
    pub fn server_send(&mut self, buffer: &Vec<u8>, client: &ClientAddr) -> (r: Result<
        usize,
        ChannelError,
    >)
        requires
            client.id == old(self)@.id,
        ensures
            r is Ok <==> (old(self)@.server_bound && old(self)@.client_bound),
            r is Ok ==> r == Result::<usize, ChannelError>::Ok(buffer@.len() as usize)
                && final(self)@ == ch_server_send(old(self)@, buffer@),
            r is Err ==> *final(self) == *old(self) && r == Result::<usize, ChannelError>::Err(
                if !old(self)@.server_bound {
                    ChannelError::NotOpen
                } else {
                    ChannelError::Disconnected
                },
            ),
    {
        if !self.server_bound {
            Err(ChannelError::NotOpen)
        } else if !self.client_bound {
            Err(ChannelError::Disconnected)
        } else {
            self.reply = Some(buffer.clone());
            proof {
                assert(self.reply->Some_0@ =~= buffer@);
            }
            Ok(buffer.len())
        }
    }

    /// The client's blocking receive, up to its waiting budget: succeeds
    /// if and only if a reply is pending, and takes it; otherwise the
    /// budget elapses and the transient timeout tells the caller "no
    /// fresh frame", to be retried.
    pub fn client_receive(&mut self, buffer: &mut Vec<u8>) -> (r: Result<usize, ChannelError>)
        ensures
            r is Ok <==> (old(self)@.client_bound && old(self)@.reply is Some),
            r is Ok ==> ({
                let msg = old(self)@.reply->Some_0;
                let n = r->Ok_0;
                &&& final(self)@ == ch_client_take(old(self)@)
                &&& n == vstd::math::min(msg.len() as int, old(buffer)@.len() as int)
                &&& final(buffer)@.len() == old(buffer)@.len()
                &&& (forall|k: int| 0 <= k < n ==> final(buffer)@[k] == msg[k])
                &&& (forall|k: int| n <= k < final(buffer)@.len() ==> final(buffer)@[k] == old(
                    buffer,
                )@[k])
            }),
            r is Err ==> *final(self) == *old(self) && *final(buffer) == *old(buffer) && r
                == Result::<usize, ChannelError>::Err(
                if !old(self)@.client_bound {
                    ChannelError::NotOpen
                } else {
                    ChannelError::Timeout
                },
            ),
    {
        if !self.client_bound {
            return Err(ChannelError::NotOpen);
        }
        let mut taken: Option<Vec<u8>> = None;
        core::mem::swap(&mut taken, &mut self.reply);
        match taken {
            Some(msg) => {
                let n = copy_into(buffer, &msg);
                Ok(n)
            },
            None => Err(ChannelError::Timeout),
        }
    }
}

/// LAW (rendezvous): after a client request, the server's poll finds it;
/// once the server has taken it and sent exactly one reply, the client's
/// receive finds exactly that reply pending -- and consuming it leaves
/// nothing, so no second receive can succeed without a new reply.  The
/// receive contract makes success equivalent to a pending reply, so the
/// exchange succeeds if and only if the server replied before the client's
/// budget elapsed.
pub proof fn lemma_rendezvous_round_trip(m: ChannelModel, request: Seq<u8>, reply: Seq<u8>)
    requires
        m.server_bound,
        m.client_bound,
    ensures
        ch_client_send(m, request).request == Some(request),
        ({
            let served = ch_server_send(ch_server_take(ch_client_send(m, request)), reply);
            &&& served.reply == Some(reply)
            &&& served.client_bound
            &&& ch_client_take(served).reply is None
        }),
{
}

/// LAW (retry after timeout): while no reply is pending the client's
/// receive cannot succeed and reports its timeout; the client may simply
/// send again, and once the server polls that request and replies, a
/// reply is pending and the retried receive succeeds with it.
pub proof fn lemma_timeout_then_retry(m: ChannelModel, request: Seq<u8>, reply: Seq<u8>)
    requires
        m.server_bound,
        m.client_bound,
        m.reply is None,
    ensures
        ({
            let retried = ch_client_send(m, request);
            let served = ch_server_send(ch_server_take(retried), reply);
            &&& retried.reply is None
            &&& retried.request == Some(request)
            &&& served.reply == Some(reply)
            &&& served.client_bound
        }),
{
}

} // verus!
