//! Receiving many packets with one submission.
//!
//! For each packet the kernel picks a buffer from a provided group and writes
//! `[header (16 bytes)] [name] [control data] [payload]` to it. Name and control
//! data take up the space that the submission *reserved* for them, whatever their
//! actual lengths, which the header gives.

use crate::driver::cqe::{announces_more, selected_buffer, CqeResult};
use crate::driver::sqe::{MsgHdr, Op, Sqe};
use crate::error::{Error, InvalidData};
use crate::io::shared_fd::SharedFd;
use crate::io::sockaddr::{
    address_in, decode_name, le, read_le, sockaddr_in_bytes, sockaddr_in_size,
    sockaddr_storage_size, storage_of, storage_size, SocketAddr,
};
use std::sync::Arc;
use vstd::prelude::*;

verus! {

/// Access to the buffers of a provided group.
pub trait BufferProvider: Send + Sync {
    /// What the first `len` bytes of the buffer may be. The kernel writes to the
    /// buffers at any time, so that they need not be the same at each look. A provider
    /// that promises nothing leaves this as it is.
    open spec fn may_hold(&self, buffer_id: u16, len: usize, data: Seq<u8>) -> bool {
        true
    }

    /// The first `len` bytes of the buffer with the given id.
    fn get_buffer(&self, buffer_id: u16, len: usize) -> (data: &[u8])
        ensures
            self.may_hold(buffer_id, len, data@),
    ;
}

/// The most payload that the kernel is asked to copy for each packet.
pub const MAX_PAYLOAD: usize = 1500;

/// The size of the header that the kernel writes in front of each packet.
pub const HEADER_SIZE: usize = 16;

/// The number of packets in a batch, unless told otherwise.
pub const DEFAULT_BATCH_SIZE: usize = 32;

/// One received packet.
#[derive(Clone, Copy, Debug, PartialEq, Eq, Structural)]
pub struct RecvFromMultishotResult {
    /// The length of the payload.
    pub bytes_received: usize,
    /// Who sent the packet.
    pub source_addr: SocketAddr,
    /// The buffer that holds the packet.
    pub buffer_id: u16,
    /// Where in the buffer the payload starts.
    pub payload_offset: usize,
    /// Whether more packets are expected.
    pub more: bool,
}

/// The actual length of the name, from the header.
pub open spec fn actual_namelen(buffer: Seq<u8>) -> nat {
    le(buffer.subrange(0, 4))
}

/// The actual length of the payload, from the header.
pub open spec fn payload_len(buffer: Seq<u8>) -> nat {
    le(buffer.subrange(8, 12))
}

/// Where the payload starts, given the reserved lengths.
pub open spec fn payload_start(msg_namelen: usize, msg_controllen: usize) -> int {
    HEADER_SIZE + msg_namelen + msg_controllen
}

/// The header's lengths can be trusted as far as reading the packet needs it: its
/// size is a machine integer, and where the buffer holds the whole packet, the name
/// lies in the buffer and is no longer than a socket address.
pub open spec fn readable(buffer: Seq<u8>, msg_namelen: usize, msg_controllen: usize) -> bool {
    let size = payload_start(msg_namelen, msg_controllen) + payload_len(buffer);
    buffer.len() >= HEADER_SIZE ==> {
        &&& size <= usize::MAX
        &&& buffer.len() >= size ==> {
            &&& HEADER_SIZE + actual_namelen(buffer) <= buffer.len()
            &&& actual_namelen(buffer) <= storage_size()
        }
    }
}

/// What a buffer holds: the sender, and where the payload starts and how long it is.
pub open spec fn message_in(buffer: Seq<u8>, msg_namelen: usize, msg_controllen: usize) -> Result<
    (SocketAddr, usize, usize),
    Error,
> {
    let start = payload_start(msg_namelen, msg_controllen);
    let name = buffer.subrange(HEADER_SIZE as int, HEADER_SIZE + actual_namelen(buffer));
    if buffer.len() < HEADER_SIZE {
        Err(Error::InvalidData(InvalidData::HeaderTooSmall))
    } else if buffer.len() < start + payload_len(buffer) {
        Err(
            Error::InvalidData(
                InvalidData::BufferTooSmall {
                    expected: (start + payload_len(buffer)) as usize,
                    got: buffer.len() as usize,
                },
            ),
        )
    } else if actual_namelen(buffer) < sockaddr_in_size() {
        Err(Error::InvalidData(InvalidData::NameTooSmall))
    } else {
        match address_in(storage_of(name)) {
            Some(addr) => Ok((addr, start as usize, payload_len(buffer) as usize)),
            None => Err(Error::InvalidData(InvalidData::InvalidSocketAddress)),
        }
    }
}

/// Whether the lengths in the header of a buffer can be trusted, see [`readable`].
pub fn is_readable(buffer: &[u8], msg_namelen: usize, msg_controllen: usize) -> (r: bool)
    ensures
        r == readable(buffer@, msg_namelen, msg_controllen),
{
    if buffer.len() < HEADER_SIZE {
        return true;
    }
    let namelen: u32 = read_le(buffer, 0, 4);
    let payloadlen: u32 = read_le(buffer, 8, 12);
    let size: u128 = HEADER_SIZE as u128 + msg_namelen as u128 + msg_controllen as u128
        + payloadlen as u128;
    if size > usize::MAX as u128 {
        return false;
    }
    if (buffer.len() as u128) < size {
        return true;
    }
    HEADER_SIZE as u128 + namelen as u128 <= buffer.len() as u128 && namelen as u128
        <= sockaddr_storage_size() as u128
}

/// Reads the header and the name in a buffer that the kernel has filled. The payload
/// follows the *reserved* space for name and control data.
pub fn parse_recvmsg_out(buffer: &[u8], msg_namelen: usize, msg_controllen: usize) -> (r: Result<
    (SocketAddr, usize, usize),
    Error,
>)
    requires
        readable(buffer@, msg_namelen, msg_controllen),
    ensures
        r == message_in(buffer@, msg_namelen, msg_controllen),
        r matches Ok((_, start, len)) ==> start + len <= buffer@.len(),
{
    if buffer.len() < HEADER_SIZE {
        return Err(Error::InvalidData(InvalidData::HeaderTooSmall));
    }
    let namelen: usize = read_le(buffer, 0, 4) as usize;
    let payloadlen: usize = read_le(buffer, 8, 12) as usize;
    let payload_offset: usize = HEADER_SIZE + msg_namelen + msg_controllen;
    let total_size: usize = payload_offset + payloadlen;
    if buffer.len() < total_size {
        return Err(
            Error::InvalidData(
                InvalidData::BufferTooSmall { expected: total_size, got: buffer.len() },
            ),
        );
    }
    let name: &[u8] = vstd::slice::slice_subrange(buffer, HEADER_SIZE, HEADER_SIZE + namelen);
    if namelen < sockaddr_in_bytes() {
        return Err(Error::InvalidData(InvalidData::NameTooSmall));
    }
    match decode_name(name) {
        Some(source_addr) => Ok((source_addr, payload_offset, payloadlen)),
        None => Err(Error::InvalidData(InvalidData::InvalidSocketAddress)),
    }
}

/// The packet that a completion delivers in the buffer it names. A failed
/// completion, one without a buffer and one with bytes that make no sense deliver
/// nothing.
pub open spec fn packet_in(
    cqe: CqeResult,
    buffer: Seq<u8>,
    msg_namelen: usize,
    msg_controllen: usize,
) -> Option<RecvFromMultishotResult> {
    match (cqe.result, selected_buffer(cqe.flags), message_in(buffer, msg_namelen, msg_controllen)) {
        (Ok(_), Some(buffer_id), Ok((source_addr, payload_offset, bytes_received))) => Some(
            RecvFromMultishotResult {
                bytes_received,
                source_addr,
                buffer_id,
                payload_offset,
                more: announces_more(cqe.flags),
            },
        ),
        _ => None,
    }
}

/// The packets of a batch, with one more if there is one.
pub open spec fn with_packet(
    batch: Seq<RecvFromMultishotResult>,
    packet: Option<RecvFromMultishotResult>,
) -> Seq<RecvFromMultishotResult> {
    match packet {
        Some(packet) => batch.push(packet),
        None => batch,
    }
}

/// Reads the packet that a completion delivers, given what the buffer holds.
pub fn read_packet(
    cqe: CqeResult,
    buffer: &[u8],
    msg_namelen: usize,
    msg_controllen: usize,
) -> (r: Option<RecvFromMultishotResult>)
    requires
        readable(buffer@, msg_namelen, msg_controllen),
    ensures
        r == packet_in(cqe, buffer@, msg_namelen, msg_controllen),
{
    match cqe.result {
        Err(_) => None,
        Ok(_) => match io_uring::cqueue::buffer_select(cqe.flags) {
            None => None,
            Some(buffer_id) => {
                let more: bool = io_uring::cqueue::more(cqe.flags);
                match parse_recvmsg_out(buffer, msg_namelen, msg_controllen) {
                    Ok((source_addr, payload_offset, bytes_received)) => Some(
                        RecvFromMultishotResult {
                            bytes_received,
                            source_addr,
                            buffer_id,
                            payload_offset,
                            more,
                        },
                    ),
                    Err(_) => None,
                }
            },
        },
    }
}

/// The buffer that a completion names, and how many bytes of it to look at. A failed
/// completion and one without a buffer name none.
pub open spec fn named_buffer(cqe: CqeResult) -> Option<(u16, usize)> {
    match (cqe.result, selected_buffer(cqe.flags)) {
        (Ok(n), Some(buffer_id)) => Some((buffer_id, n as usize)),
        _ => None,
    }
}

/// A receive operation that delivers packet after packet, until it is cancelled or
/// fails. The packets are handed out in batches.
pub struct RecvFromMultishot<P: BufferProvider + ?Sized> {
    fd: SharedFd,
    buf_group_id: u16,
    msghdr: MsgHdr,
    buffer_provider: Arc<P>,
    /// The packets that wait to be handed out.
    batch: Vec<RecvFromMultishotResult>,
    batch_size: usize,
    /// The space that is reserved for the name in each buffer.
    msg_namelen: usize,
    /// The space that is reserved for control data in each buffer.
    msg_controllen: usize,
}

/// What a receive operation is made of, apart from the access to its buffers.
#[verifier::ext_equal]
pub struct RecvView {
    pub fd: SharedFd,
    pub buf_group_id: u16,
    pub msghdr: MsgHdr,
    pub batch: Seq<RecvFromMultishotResult>,
    pub batch_size: usize,
    pub msg_namelen: usize,
    pub msg_controllen: usize,
}

impl RecvView {
    /// The operation once the batch has one more packet, if there is one.
    pub open spec fn with_packet(self, packet: Option<RecvFromMultishotResult>) -> RecvView {
        RecvView { batch: with_packet(self.batch, packet), ..self }
    }

    /// The packet that a completion delivers, if the buffer it names holds `data`.
    pub open spec fn packet_in(self, cqe: CqeResult, data: Seq<u8>) -> Option<
        RecvFromMultishotResult,
    > {
        packet_in(cqe, data, self.msg_namelen, self.msg_controllen)
    }

    /// Whether the lengths in the header of `data` can be trusted, see [`readable`].
    pub open spec fn readable(self, data: Seq<u8>) -> bool {
        readable(data, self.msg_namelen, self.msg_controllen)
    }

    /// The packets that are handed out when the batch is.
    pub open spec fn handed_out(self) -> Seq<RecvFromMultishotResult> {
        self.batch
    }

    /// The operation once the batch has been handed out.
    pub open spec fn emptied(self) -> RecvView {
        RecvView { batch: Seq::empty(), ..self }
    }

    /// The payload of every packet in the batch starts where the reserved areas end.
    pub open spec fn in_place(self) -> bool {
        forall|i: int|
            0 <= i < self.batch.len() ==> (#[trigger] self.batch[i]).payload_offset
                == payload_start(self.msg_namelen, self.msg_controllen)
    }
}

impl<P: BufferProvider + ?Sized> View for RecvFromMultishot<P> {
    type V = RecvView;

    closed spec fn view(&self) -> RecvView {
        RecvView {
            fd: self.fd,
            buf_group_id: self.buf_group_id,
            msghdr: self.msghdr,
            batch: self.batch@,
            batch_size: self.batch_size,
            msg_namelen: self.msg_namelen,
            msg_controllen: self.msg_controllen,
        }
    }
}

impl<P: BufferProvider + ?Sized> RecvFromMultishot<P> {
    /// The access to the buffers of the group.
    pub closed spec fn provider(&self) -> Arc<P> {
        self.buffer_provider
    }

    /// `data` may be what a look at the buffer that the completion names shows. Where
    /// the completion names none, nothing is looked at, and no bytes are seen.
    pub open spec fn may_see(&self, cqe: CqeResult, data: Seq<u8>) -> bool {
        match named_buffer(cqe) {
            Some((buffer_id, len)) => self.provider().may_hold(buffer_id, len, data),
            None => data.len() == 0,
        }
    }

    /// `after` may be the operation once it has taken the completion: the packet in
    /// the bytes that a look at the named buffer shows has joined the batch.
    pub open spec fn may_become(&self, cqe: CqeResult, after: RecvView) -> bool {
        exists|data: Seq<u8>| #[trigger]
            self.may_see(cqe, data) && after == self@.with_packet(self@.packet_in(cqe, data))
    }

    /// A receive operation on the given socket that hands out packets in batches of
    /// the usual size.
    pub fn recv_from_multishot(
        fd: &SharedFd,
        buf_group_id: u16,
        buffer_provider: Arc<P>,
    ) -> (r: Op<RecvFromMultishot<P>>)
        ensures
            r.data@ == initial(*fd, buf_group_id, DEFAULT_BATCH_SIZE),
            r.data@.in_place(),
            r.data.provider() == buffer_provider,
            r.sqe == (Sqe::RecvMsgMulti {
                fd: fd.fd,
                msg: r.data@.msghdr,
                buf_group: buf_group_id,
            }),
    {
        Self::recv_from_multishot_with_batch_size(
            fd,
            buf_group_id,
            buffer_provider,
            DEFAULT_BATCH_SIZE,
        )
    }

    /// A receive operation on the given socket.
    ///
    /// The iovec of the message header tells the kernel how much payload to copy at
    /// most; the payload itself goes to the provided buffers.
    pub fn recv_from_multishot_with_batch_size(
        fd: &SharedFd,
        buf_group_id: u16,
        buffer_provider: Arc<P>,
        batch_size: usize,
    ) -> (r: Op<RecvFromMultishot<P>>)
        ensures
            r.data@ == initial(*fd, buf_group_id, batch_size),
            r.data@.in_place(),
            r.data.provider() == buffer_provider,
            r.sqe == (Sqe::RecvMsgMulti {
                fd: fd.fd,
                msg: r.data@.msghdr,
                buf_group: buf_group_id,
            }),
    {
        let msg_namelen: usize = sockaddr_storage_size();
        let msg_controllen: usize = 0;
        let msghdr = MsgHdr {
            namelen: msg_namelen as u32,
            controllen: msg_controllen,
            iovlen: 1,
            iov_len: MAX_PAYLOAD,
        };
        let data = RecvFromMultishot {
            fd: *fd,
            buf_group_id,
            msghdr,
            buffer_provider,
            batch: Vec::new(),
            batch_size,
            msg_namelen,
            msg_controllen,
        };
        assert(data@.batch =~= Seq::<RecvFromMultishotResult>::empty());
        let sqe = Sqe::RecvMsgMulti {
            fd: data.fd.raw_fd(),
            msg: data.msghdr,
            buf_group: data.buf_group_id,
        };
        Op { data, sqe }
    }

    /// Looks at the buffer that a completion names. Nothing comes back where the
    /// lengths in its header cannot be trusted, otherwise the packet, if there is one.
    fn receive(&self, cqe: CqeResult) -> (r: Option<Option<RecvFromMultishotResult>>)
        ensures
            exists|data: Seq<u8>| #[trigger]
                self.may_see(cqe, data) && r == (if self@.readable(data) {
                    Some(self@.packet_in(cqe, data))
                } else {
                    None
                }),
            named_buffer(cqe) is None ==> r == Some(None::<RecvFromMultishotResult>),
    {
        match cqe.result {
            Err(_) => {
                assert(self.may_see(cqe, Seq::empty()));
                Some(None)
            },
            Ok(n) => match io_uring::cqueue::buffer_select(cqe.flags) {
                None => {
                    assert(self.may_see(cqe, Seq::empty()));
                    Some(None)
                },
                Some(buffer_id) => {
                    let buffer = self.buffer_provider.get_buffer(buffer_id, n as usize);
                    assert(self.may_see(cqe, buffer@));
                    if is_readable(buffer, self.msg_namelen, self.msg_controllen) {
                        Some(read_packet(cqe, buffer, self.msg_namelen, self.msg_controllen))
                    } else {
                        None
                    }
                },
            },
        }
    }

    /// Takes a completion that is not the last one: its packet joins the batch. A
    /// completion that failed or names no buffer leaves the operation as it is.
    pub fn update(&mut self, cqe: CqeResult)
        requires
            named_buffer(cqe) is Some ==> forall|data: Seq<u8>| #[trigger]
                old(self).may_see(cqe, data) ==> old(self)@.readable(data),
        ensures
            final(self).provider() == old(self).provider(),
            old(self).may_become(cqe, final(self)@),
            named_buffer(cqe) is None ==> final(self)@ == old(self)@,
            old(self)@.in_place() ==> final(self)@.in_place(),
    {
        match self.receive(cqe) {
            Some(Some(packet)) => {
                self.batch.push(packet);
            },
            Some(None) => {},
            None => {
                assert(false);
            },
        }
        proof {
            let data = choose|data: Seq<u8>| #[trigger]
                old(self).may_see(cqe, data) && self@ == old(self)@.with_packet(
                    old(self)@.packet_in(cqe, data),
                );
            assert(old(self)@.readable(data));
        }
    }

    /// Takes a completion like [`RecvFromMultishot::update`], but first makes sure
    /// that the lengths in the header of the buffer can be trusted. Where they cannot,
    /// nothing changes and the answer is `false`.
    pub fn try_update(&mut self, cqe: CqeResult) -> (r: bool)
        ensures
            final(self).provider() == old(self).provider(),
            exists|data: Seq<u8>| #[trigger]
                old(self).may_see(cqe, data) && r == old(self)@.readable(data) && final(self)@ == (
                if r {
                    old(self)@.with_packet(old(self)@.packet_in(cqe, data))
                } else {
                    old(self)@
                }),
            named_buffer(cqe) is None ==> r && final(self)@ == old(self)@,
            old(self)@.in_place() ==> final(self)@.in_place(),
    {
        match self.receive(cqe) {
            Some(Some(packet)) => {
                self.batch.push(packet);
                true
            },
            Some(None) => true,
            None => false,
        }
    }

    /// Takes the last completion: its packet joins the batch, which is handed out. A
    /// completion that failed or names no buffer hands out what is there.
    pub fn complete(self, cqe: CqeResult) -> (r: Result<Vec<RecvFromMultishotResult>, Error>)
        requires
            named_buffer(cqe) is Some ==> forall|data: Seq<u8>| #[trigger]
                self.may_see(cqe, data) ==> self@.readable(data),
        ensures
            r matches Ok(batch) && {
                &&& self.may_become(cqe, (RecvView { batch: batch@, ..self@ }))
                &&& named_buffer(cqe) is None ==> batch@ == self@.batch
                &&& self@.in_place() ==> (RecvView { batch: batch@, ..self@ }).in_place()
            },
    {
        let mut batch_owner = self;
        batch_owner.update(cqe);
        Ok(batch_owner.batch)
    }

    /// Takes the last completion like [`RecvFromMultishot::complete`], but first makes
    /// sure that the lengths in the header of the buffer can be trusted. Where they
    /// cannot, nothing is handed out.
    pub fn try_complete(self, cqe: CqeResult) -> (r: Option<Vec<RecvFromMultishotResult>>)
        ensures
            exists|data: Seq<u8>| #[trigger]
                self.may_see(cqe, data) && match r {
                    Some(batch) => self@.readable(data) && batch@ == with_packet(
                        self@.batch,
                        self@.packet_in(cqe, data),
                    ),
                    None => !self@.readable(data),
                },
            r matches Some(batch) ==> {
                &&& self.may_become(cqe, (RecvView { batch: batch@, ..self@ }))
                &&& self@.in_place() ==> (RecvView { batch: batch@, ..self@ }).in_place()
            },
            named_buffer(cqe) is None ==> (r matches Some(batch) && batch@ == self@.batch),
    {
        let mut batch_owner = self;
        if batch_owner.try_update(cqe) {
            Some(batch_owner.batch)
        } else {
            None
        }
    }

    /// Whether there is something to hand out: as soon as any packet is there.
    pub fn should_yield(&self) -> (r: bool)
        ensures
            r == (self@.batch.len() > 0),
    {
        !self.batch.is_empty()
    }

    /// Hands out the packets that have arrived; the next batch starts empty.
    pub fn yield_result(&mut self) -> (r: Result<Vec<RecvFromMultishotResult>, Error>)
        ensures
            r matches Ok(batch) && batch@ == old(self)@.batch,
            r matches Ok(batch) && batch@ == old(self)@.handed_out(),
            final(self)@ == old(self)@.emptied(),
            final(self)@ == (RecvView { batch: Seq::empty(), ..old(self)@ }),
            final(self)@.in_place(),
            final(self).provider() == old(self).provider(),
    {
        let mut batch: Vec<RecvFromMultishotResult> = Vec::new();
        std::mem::swap(&mut self.batch, &mut batch);
        Ok(batch)
    }
}

/// A receive operation before its first completion. It reserves space for a name of
/// any family and none for control data.
pub open spec fn initial(fd: SharedFd, buf_group_id: u16, batch_size: usize) -> RecvView {
    RecvView {
        fd,
        buf_group_id,
        msghdr: MsgHdr {
            namelen: storage_size() as u32,
            controllen: 0,
            iovlen: 1,
            iov_len: MAX_PAYLOAD,
        },
        batch: Seq::empty(),
        batch_size,
        msg_namelen: storage_size() as usize,
        msg_controllen: 0,
    }
}

} // verus!
