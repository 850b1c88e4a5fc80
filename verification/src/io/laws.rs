//! What holds of operations from submission to completion.

use crate::buf::buffer::{
    all_in_use, lemma_all_in_use, lemma_with_len_after_fill, total_cap, total_len, BufPart,
    BufferView,
};
use crate::driver::cqe::{
    announces_more, byte_count, decoded, selected_buffer, CqeResult,
};
use crate::driver::sqe::{IoVec, Sqe};
use crate::error::{Error, InvalidData};
use crate::io::read_write::{reads, writes};
use crate::io::recv_from_multishot::{
    initial, message_in, named_buffer, packet_in, payload_start, readable, with_packet,
    BufferProvider, RecvFromMultishot, RecvFromMultishotResult, RecvView, HEADER_SIZE,
};
use crate::io::shared_fd::SharedFd;
use crate::io::sockaddr::{
    address_in, be, le, lemma_pow256_values, native, pow256, storage_of, SocketAddr,
};
use vstd::endian::{endianness, Endian};
use vstd::prelude::*;

verus! {

/// A read leaves the buffer with exactly the bytes in use that the kernel wrote, as
/// if it had been submitted with the buffer as it was: that all of the memory is in
/// use while the read is in flight makes no difference.
pub proof fn law_read_outcome(buf: BufferView, n: nat)
    ensures
        buf.all_in_use().with_len(n) == buf.with_len(n),
{
    lemma_with_len_after_fill(buf.parts, n);
}

/// The number of bytes in all ranges together.
pub open spec fn total_of(iovecs: Seq<IoVec>) -> nat
    decreases iovecs.len(),
{
    if iovecs.len() == 0 {
        0
    } else {
        total_of(iovecs.drop_last()) + iovecs.last().len as nat
    }
}

proof fn lemma_total_of_used(parts: Seq<BufPart>)
    ensures
        total_of(parts.map_values(|p: BufPart| p.used())) == total_len(parts),
    decreases parts.len(),
{
    let iovecs = parts.map_values(|p: BufPart| p.used());
    if parts.len() > 0 {
        lemma_total_of_used(parts.drop_last());
        assert(iovecs.drop_last() =~= parts.drop_last().map_values(|p: BufPart| p.used()));
    }
}

/// A write of several parts writes the used bytes of every part, and nothing else.
pub proof fn law_vectored_write_covers_used_bytes(
    sqe: Sqe,
    fd: SharedFd,
    buf: BufferView,
    offset: u64,
)
    requires
        buf.wf(),
        buf.parts.len() != 1,
        writes(sqe, fd, buf, offset),
    ensures
        sqe matches Sqe::Writev { iovecs, .. } && {
            &&& iovecs@.len() == buf.parts.len()
            &&& forall|i: int|
                0 <= i < buf.parts.len() ==> #[trigger] iovecs@[i] == buf.parts[i].used()
            &&& total_of(iovecs@) == total_len(buf.parts)
        },
{
    lemma_total_of_used(buf.parts);
}

/// A read into several parts offers the kernel all the memory of every part, and
/// nothing else.
pub proof fn law_vectored_read_covers_memory(
    sqe: Sqe,
    fd: SharedFd,
    buf: BufferView,
    offset: u64,
)
    requires
        buf.wf(),
        buf.parts.len() != 1,
        reads(sqe, fd, buf, offset),
    ensures
        sqe matches Sqe::Readv { iovecs, .. } && {
            &&& iovecs@.len() == buf.parts.len()
            &&& forall|i: int|
                0 <= i < buf.parts.len() ==> #[trigger] iovecs@[i] == buf.parts[i].room()
            &&& total_of(iovecs@) == total_cap(buf.parts)
        },
{
    lemma_total_of_used(all_in_use(buf.parts));
    lemma_all_in_use(buf.parts);
}

/// Something that happens to a receive operation.
pub enum RecvEvent {
    /// A completion arrives, and the buffer that it names holds these bytes.
    Completion { cqe: CqeResult, data: Seq<u8> },
    /// The batch is handed out.
    Yield,
}

/// The packets that have been handed out, and those in the batch, after `events`.
pub open spec fn after_events(
    batch: Seq<RecvFromMultishotResult>,
    msg_namelen: usize,
    msg_controllen: usize,
    events: Seq<RecvEvent>,
) -> (Seq<RecvFromMultishotResult>, Seq<RecvFromMultishotResult>)
    decreases events.len(),
{
    if events.len() == 0 {
        (Seq::empty(), batch)
    } else {
        let (out, kept) = after_events(batch, msg_namelen, msg_controllen, events.drop_last());
        match events.last() {
            RecvEvent::Completion { cqe, data } => (
                out,
                with_packet(kept, packet_in(cqe, data, msg_namelen, msg_controllen)),
            ),
            RecvEvent::Yield => (out + kept, Seq::empty()),
        }
    }
}

/// The packets that the completions among `events` deliver, in order.
pub open spec fn packets(msg_namelen: usize, msg_controllen: usize, events: Seq<RecvEvent>) -> Seq<
    RecvFromMultishotResult,
>
    decreases events.len(),
{
    if events.len() == 0 {
        Seq::empty()
    } else {
        let earlier = packets(msg_namelen, msg_controllen, events.drop_last());
        match events.last() {
            RecvEvent::Completion { cqe, data } => with_packet(
                earlier,
                packet_in(cqe, data, msg_namelen, msg_controllen),
            ),
            RecvEvent::Yield => earlier,
        }
    }
}

/// However the packets are split into batches, none is lost, none is handed out
/// twice, and they come out in the order in which they arrived.
pub proof fn law_batches_keep_packets(
    batch: Seq<RecvFromMultishotResult>,
    msg_namelen: usize,
    msg_controllen: usize,
    events: Seq<RecvEvent>,
)
    ensures
        ({
            let (out, kept) = after_events(batch, msg_namelen, msg_controllen, events);
            out + kept == batch + packets(msg_namelen, msg_controllen, events)
        }),
    decreases events.len(),
{
    let (out, kept) = after_events(batch, msg_namelen, msg_controllen, events);
    let all = packets(msg_namelen, msg_controllen, events);
    if events.len() > 0 {
        law_batches_keep_packets(batch, msg_namelen, msg_controllen, events.drop_last());
        let (out0, kept0) = after_events(batch, msg_namelen, msg_controllen, events.drop_last());
        let all0 = packets(msg_namelen, msg_controllen, events.drop_last());
        assert(out0 + kept0 == batch + all0);
        match events.last() {
            RecvEvent::Completion { cqe, data } => {
                match packet_in(cqe, data, msg_namelen, msg_controllen) {
                    Some(packet) => {
                        assert(out + kept =~= (out0 + kept0).push(packet));
                        assert(batch + all =~= (batch + all0).push(packet));
                    },
                    None => {},
                }
            },
            RecvEvent::Yield => {
                assert(out + kept =~= out0 + kept0);
            },
        }
    } else {
        assert(out + kept =~= batch);
        assert(batch + all =~= batch);
    }
}

/// To complete an operation is to take the completion as any other and then to hand
/// out the batch: exactly the same batches may come out.
pub proof fn law_complete_is_update_then_yield<P: BufferProvider + ?Sized>(
    op: RecvFromMultishot<P>,
    cqe: CqeResult,
    batch: Seq<RecvFromMultishotResult>,
)
    ensures
        op.may_become(cqe, (RecvView { batch, ..op@ })) <==> exists|after: RecvView| #[trigger]
            op.may_become(cqe, after) && after.batch == batch,
{
    if exists|after: RecvView| #[trigger] op.may_become(cqe, after) && after.batch == batch {
        let after = choose|after: RecvView| #[trigger]
            op.may_become(cqe, after) && after.batch == batch;
        assert(after == (RecvView { batch, ..op@ }));
    }
}

/// The payload of the packet follows the reserved areas and lies within `data`.
pub open spec fn placed_in(
    packet: RecvFromMultishotResult,
    data: Seq<u8>,
    msg_namelen: usize,
    msg_controllen: usize,
) -> bool {
    &&& packet.payload_offset == payload_start(msg_namelen, msg_controllen)
    &&& packet.payload_offset + packet.bytes_received <= data.len()
}

/// The event is a completion that delivers the packet, whose payload lies within the
/// bytes that were seen.
pub open spec fn delivers_in_place(
    event: RecvEvent,
    packet: RecvFromMultishotResult,
    msg_namelen: usize,
    msg_controllen: usize,
) -> bool {
    event matches RecvEvent::Completion { cqe, data } && {
        &&& packet_in(cqe, data, msg_namelen, msg_controllen) == Some(packet)
        &&& placed_in(packet, data, msg_namelen, msg_controllen)
    }
}

/// The lengths in the header of each buffer that a completion names can be trusted.
pub open spec fn all_readable(
    msg_namelen: usize,
    msg_controllen: usize,
    events: Seq<RecvEvent>,
) -> bool {
    forall|i: int|
        0 <= i < events.len() ==> (#[trigger] events[i] matches RecvEvent::Completion {
            cqe,
            data,
        } ==> named_buffer(cqe) is Some ==> readable(data, msg_namelen, msg_controllen))
}

proof fn lemma_packets_in_place(msg_namelen: usize, msg_controllen: usize, events: Seq<RecvEvent>)
    requires
        all_readable(msg_namelen, msg_controllen, events),
    ensures
        forall|i: int|
            0 <= i < packets(msg_namelen, msg_controllen, events).len() ==> exists|j: int|
                0 <= j < events.len() && delivers_in_place(
                    #[trigger] events[j],
                    #[trigger] packets(msg_namelen, msg_controllen, events)[i],
                    msg_namelen,
                    msg_controllen,
                ),
    decreases events.len(),
{
    let all = packets(msg_namelen, msg_controllen, events);
    if events.len() > 0 {
        let earlier = events.drop_last();
        let all0 = packets(msg_namelen, msg_controllen, earlier);
        assert(all_readable(msg_namelen, msg_controllen, earlier)) by {
            assert forall|i: int| 0 <= i < earlier.len() implies (
            #[trigger] earlier[i] matches RecvEvent::Completion { cqe, data } ==> named_buffer(
                cqe,
            ) is Some ==> readable(data, msg_namelen, msg_controllen)) by {
                assert(earlier[i] == events[i]);
            }
        }
        lemma_packets_in_place(msg_namelen, msg_controllen, earlier);
        assert forall|i: int| 0 <= i < all.len() implies exists|j: int|
            0 <= j < events.len() && delivers_in_place(
                #[trigger] events[j],
                #[trigger] all[i],
                msg_namelen,
                msg_controllen,
            ) by {
            if i < all0.len() {
                assert(all[i] == all0[i]);
                let j = choose|j: int|
                    0 <= j < earlier.len() && delivers_in_place(
                        #[trigger] earlier[j],
                        all0[i],
                        msg_namelen,
                        msg_controllen,
                    );
                assert(events[j] == earlier[j]);
            } else {
                assert(delivers_in_place(
                    events[events.len() - 1],
                    all[i],
                    msg_namelen,
                    msg_controllen,
                ));
            }
        }
    }
}

/// Whatever completions arrive and however the packets are split into batches, every
/// packet that a new operation has handed out or holds was delivered by one of the
/// completions; its payload starts where the reserved areas end, 144 bytes into the
/// buffer, and lies within the bytes that were seen.
pub proof fn law_packets_in_place(
    fd: SharedFd,
    buf_group_id: u16,
    batch_size: usize,
    events: Seq<RecvEvent>,
)
    requires
        ({
            let op = initial(fd, buf_group_id, batch_size);
            all_readable(op.msg_namelen, op.msg_controllen, events)
        }),
    ensures
        ({
            let op = initial(fd, buf_group_id, batch_size);
            let (out, kept) = after_events(op.batch, op.msg_namelen, op.msg_controllen, events);
            forall|i: int|
                0 <= i < (out + kept).len() ==> {
                    &&& (#[trigger] (out + kept)[i]).payload_offset == 144
                    &&& exists|j: int|
                        0 <= j < events.len() && delivers_in_place(
                            #[trigger] events[j],
                            (out + kept)[i],
                            op.msg_namelen,
                            op.msg_controllen,
                        )
                }
        }),
{
    let op = initial(fd, buf_group_id, batch_size);
    let (out, kept) = after_events(op.batch, op.msg_namelen, op.msg_controllen, events);
    law_batches_keep_packets(op.batch, op.msg_namelen, op.msg_controllen, events);
    lemma_packets_in_place(op.msg_namelen, op.msg_controllen, events);
    assert(out + kept =~= packets(op.msg_namelen, op.msg_controllen, events));
}

/// The `k` lowest bytes of a number, the lowest first.
pub open spec fn le_bytes(n: nat, k: nat) -> Seq<u8>
    decreases k,
{
    if k == 0 {
        Seq::empty()
    } else {
        seq![(n % 256) as u8] + le_bytes(n / 256, (k - 1) as nat)
    }
}

/// The `k` lowest bytes of a number in network order.
pub open spec fn be_bytes(n: nat, k: nat) -> Seq<u8>
    decreases k,
{
    if k == 0 {
        Seq::empty()
    } else {
        be_bytes(n / 256, (k - 1) as nat).push((n % 256) as u8)
    }
}

/// The `k` lowest bytes of a number in the order of the machine.
pub open spec fn native_bytes(n: nat, k: nat) -> Seq<u8> {
    match endianness() {
        Endian::Little => le_bytes(n, k),
        Endian::Big => be_bytes(n, k),
    }
}

proof fn lemma_le_bytes(n: nat, k: nat)
    requires
        n < pow256(k),
    ensures
        le_bytes(n, k).len() == k,
        le(le_bytes(n, k)) == n,
    decreases k,
{
    if k > 0 {
        lemma_le_bytes(n / 256, (k - 1) as nat);
        assert(le_bytes(n, k).drop_first() =~= le_bytes(n / 256, (k - 1) as nat));
    }
}

proof fn lemma_be_bytes(n: nat, k: nat)
    requires
        n < pow256(k),
    ensures
        be_bytes(n, k).len() == k,
        be(be_bytes(n, k)) == n,
    decreases k,
{
    if k > 0 {
        lemma_be_bytes(n / 256, (k - 1) as nat);
        assert(be_bytes(n, k).drop_last() =~= be_bytes(n / 256, (k - 1) as nat));
    }
}

proof fn lemma_native_bytes(n: nat, k: nat)
    requires
        n < pow256(k),
    ensures
        native_bytes(n, k).len() == k,
        native(native_bytes(n, k)) == n,
{
    lemma_le_bytes(n, k);
    lemma_be_bytes(n, k);
}

/// A socket address as the kernel writes it.
pub open spec fn name_of(addr: SocketAddr) -> Seq<u8> {
    match addr {
        SocketAddr::V4 { ipv4, port } => native_bytes(2, 2) + be_bytes(port as nat, 2)
            + be_bytes(ipv4 as nat, 4) + Seq::new(8, |i: int| 0u8),
        SocketAddr::V6 { ipv6, port, flowinfo, scope_id } => native_bytes(10, 2)
            + be_bytes(port as nat, 2) + native_bytes(flowinfo as nat, 4) + be_bytes(ipv6 as nat, 16)
            + native_bytes(scope_id as nat, 4),
    }
}

/// A socket address that the kernel wrote is read back as it is.
pub proof fn law_address_round_trip(addr: SocketAddr)
    ensures
        address_in(storage_of(name_of(addr))) == Some(addr),
        name_of(addr).len() == (if addr is V4 {
            16nat
        } else {
            28nat
        }),
{
    lemma_pow256_values();
    let storage = storage_of(name_of(addr));
    match addr {
        SocketAddr::V4 { ipv4, port } => {
            lemma_native_bytes(2, 2);
            lemma_be_bytes(port as nat, 2);
            lemma_be_bytes(ipv4 as nat, 4);
            assert(storage.subrange(0, 2) =~= native_bytes(2, 2));
            assert(storage.subrange(2, 4) =~= be_bytes(port as nat, 2));
            assert(storage.subrange(4, 8) =~= be_bytes(ipv4 as nat, 4));
        },
        SocketAddr::V6 { ipv6, port, flowinfo, scope_id } => {
            lemma_native_bytes(10, 2);
            lemma_be_bytes(port as nat, 2);
            lemma_native_bytes(flowinfo as nat, 4);
            lemma_be_bytes(ipv6 as nat, 16);
            lemma_native_bytes(scope_id as nat, 4);
            assert(storage.subrange(0, 2) =~= native_bytes(10, 2));
            assert(storage.subrange(2, 4) =~= be_bytes(port as nat, 2));
            assert(storage.subrange(4, 8) =~= native_bytes(flowinfo as nat, 4));
            assert(storage.subrange(8, 24) =~= be_bytes(ipv6 as nat, 16));
            assert(storage.subrange(24, 28) =~= native_bytes(scope_id as nat, 4));
        },
    }
}

/// A packet as the kernel writes it to a buffer: the header with the actual lengths,
/// the area reserved for the name with the name at its start, the area reserved for
/// control data, and the payload.
pub open spec fn packet_bytes(
    addr: SocketAddr,
    name_rest: Seq<u8>,
    control_area: Seq<u8>,
    controllen: u32,
    flags: u32,
    payload: Seq<u8>,
) -> Seq<u8> {
    le_bytes(name_of(addr).len(), 4) + le_bytes(controllen as nat, 4) + le_bytes(payload.len(), 4)
        + le_bytes(flags as nat, 4) + name_of(addr) + name_rest + control_area + payload
}

/// A packet that the kernel wrote is read back as it is: the sender is recognised,
/// and the payload found where the reserved areas end, whatever they hold.
pub proof fn law_packet_round_trip(
    addr: SocketAddr,
    name_rest: Seq<u8>,
    control_area: Seq<u8>,
    controllen: u32,
    flags: u32,
    payload: Seq<u8>,
    msg_namelen: usize,
    msg_controllen: usize,
)
    requires
        name_of(addr).len() + name_rest.len() == msg_namelen,
        control_area.len() == msg_controllen,
        payload.len() <= u32::MAX,
        payload_start(msg_namelen, msg_controllen) + payload.len() <= usize::MAX,
    ensures
        ({
            let buffer = packet_bytes(addr, name_rest, control_area, controllen, flags, payload);
            let start = payload_start(msg_namelen, msg_controllen);
            &&& readable(buffer, msg_namelen, msg_controllen)
            &&& message_in(buffer, msg_namelen, msg_controllen) == Ok::<_, Error>(
                (addr, start as usize, payload.len() as usize),
            )
            &&& buffer.subrange(start, start + payload.len()) == payload
        }),
{
    let buffer = packet_bytes(addr, name_rest, control_area, controllen, flags, payload);
    let start = payload_start(msg_namelen, msg_controllen);
    let name = name_of(addr);
    law_address_round_trip(addr);
    lemma_pow256_values();
    lemma_le_bytes(name.len(), 4);
    lemma_le_bytes(controllen as nat, 4);
    lemma_le_bytes(payload.len(), 4);
    lemma_le_bytes(flags as nat, 4);
    assert(buffer.len() == start + payload.len());
    assert(buffer.subrange(0, 4) =~= le_bytes(name.len(), 4));
    assert(buffer.subrange(8, 12) =~= le_bytes(payload.len(), 4));
    assert(buffer.subrange(HEADER_SIZE as int, HEADER_SIZE + name.len()) =~= name);
    assert(buffer.subrange(start, start + payload.len()) =~= payload);
}

/// The numbers that bytes stand for: with the lowest byte first, each byte counts 256
/// times as much as the one before it; in network order, as the one behind it.
pub proof fn law_byte_orders(a: u8, b: u8, c: u8, d: u8, high: Seq<u8>, low: Seq<u8>)
    ensures
        le(seq![a, b]) == a + 256 * b,
        le(seq![a, b, c, d]) == a + 256 * b + 0x1_0000 * c + 0x100_0000 * d,
        be(seq![a, b]) == 256 * a + b,
        be(seq![a, b, c, d]) == 0x100_0000 * a + 0x1_0000 * b + 256 * c + d,
        be(high + low) == be(high) * pow256(low.len()) + be(low),
    decreases low.len(),
{
    reveal_with_fuel(le, 5);
    reveal_with_fuel(be, 5);
    assert(seq![a, b].drop_first() =~= seq![b]);
    assert(seq![b].drop_first() =~= Seq::<u8>::empty());
    assert(seq![a, b, c, d].drop_first() =~= seq![b, c, d]);
    assert(seq![b, c, d].drop_first() =~= seq![c, d]);
    assert(seq![c, d].drop_first() =~= seq![d]);
    assert(seq![d].drop_first() =~= Seq::<u8>::empty());
    assert(seq![a, b].drop_last() =~= seq![a]);
    assert(seq![a].drop_last() =~= Seq::<u8>::empty());
    assert(seq![a, b, c, d].drop_last() =~= seq![a, b, c]);
    assert(seq![a, b, c].drop_last() =~= seq![a, b]);
    if low.len() > 0 {
        law_byte_orders(a, b, c, d, high, low.drop_last());
        assert((high + low).drop_last() =~= high + low.drop_last());
        assert((high + low).last() == low.last());
        let before = pow256((low.len() - 1) as nat);
        assert((be(high) * before + be(low.drop_last())) * 256 == be(high) * (before * 256) + be(
            low.drop_last(),
        ) * 256) by (nonlinear_arith);
    } else {
        assert(high + low =~= high);
        assert(be(high) * 1 == be(high));
    }
}

/// What the kernel reports of an operation: a number that is not negative for what was
/// done, or a negated error number.
pub open spec fn reported(outcome: Result<u32, i32>) -> int {
    match outcome {
        Ok(n) => n as int,
        Err(code) => -code,
    }
}

/// What the kernel reports is understood as it was meant.
pub proof fn law_completion_round_trip(outcome: Result<u32, i32>, result: i32)
    requires
        outcome matches Err(code) ==> code > 0,
        result == reported(outcome),
    ensures
        decoded(result) == (match outcome {
            Ok(n) => Ok::<u32, Error>(n),
            Err(code) => Err(Error::Os(code)),
        }),
        match outcome {
            Ok(n) => byte_count(decoded(result)) matches Ok(count) && count == n,
            Err(code) => byte_count(decoded(result)) == Err::<usize, Error>(Error::Os(code)),
        },
{
}

/// The flags of a completion: the lowest bit says that a buffer was picked, the next one
/// that more completions follow, and the upper half is the id of the buffer.
pub open spec fn flags_say(flags: u32, picked: bool, more: bool, id: u16) -> bool {
    &&& picked == (flags % 2 == 1)
    &&& more == (flags / 2 % 2 == 1)
    &&& id == flags / 0x1_0000
}

/// The flags of a completion are understood as they were meant.
pub proof fn law_flags_round_trip(flags: u32, picked: bool, more: bool, id: u16)
    requires
        flags_say(flags, picked, more, id),
    ensures
        selected_buffer(flags) == (if picked {
            Some(id)
        } else {
            None
        }),
        announces_more(flags) == more,
{
    assert(flags & 1 == flags % 2) by (bit_vector);
    assert((flags & 2 != 0) == (flags / 2 % 2 == 1)) by (bit_vector);
    assert(flags >> 16 == flags / 0x1_0000) by (bit_vector);
    assert(flags / 0x1_0000 <= 0xffff) by (bit_vector);
}

/// Where a completion says that a buffer was picked and so many bytes written to it, those
/// bytes are looked at; where it failed or picked none, nothing is.
pub proof fn law_named_buffer(cqe: CqeResult, picked: bool, more: bool, id: u16)
    requires
        flags_say(cqe.flags, picked, more, id),
    ensures
        match cqe.result {
            Ok(n) => if picked {
                named_buffer(cqe) matches Some((buffer, len)) && buffer == id && len == n
            } else {
                named_buffer(cqe) is None
            },
            Err(_) => named_buffer(cqe) is None,
        },
{
    law_flags_round_trip(cqe.flags, picked, more, id);
}

/// The packet tells who sent the payload, in which buffer it is, whether more follow, and
/// where in `data` to find all of it.
pub open spec fn tells(
    packet: RecvFromMultishotResult,
    data: Seq<u8>,
    addr: SocketAddr,
    payload: Seq<u8>,
    id: u16,
    more: bool,
) -> bool {
    &&& packet.source_addr == addr
    &&& packet.buffer_id == id
    &&& packet.more == more
    &&& packet.bytes_received == payload.len()
    &&& packet.payload_offset + packet.bytes_received <= data.len()
    &&& data.subrange(
        packet.payload_offset as int,
        packet.payload_offset + packet.bytes_received,
    ) == payload
}

/// A packet that is delivered says of the message in its buffer what the message says of
/// itself, and of the completion what its flags say.
pub proof fn law_packet_repeats_message(
    data: Seq<u8>,
    msg_namelen: usize,
    msg_controllen: usize,
    cqe: CqeResult,
    more: bool,
    id: u16,
    sender: SocketAddr,
    start: usize,
    len: usize,
)
    requires
        message_in(data, msg_namelen, msg_controllen) == Ok::<_, Error>((sender, start, len)),
        cqe.result is Ok,
        flags_say(cqe.flags, true, more, id),
    ensures
        packet_in(cqe, data, msg_namelen, msg_controllen) matches Some(packet) && {
            &&& packet.source_addr == sender
            &&& packet.payload_offset == start
            &&& packet.bytes_received == len
            &&& packet.buffer_id == id
            &&& packet.more == more
        },
{
    law_flags_round_trip(cqe.flags, true, more, id);
}

/// Every packet that the kernel wrote to a buffer and reports is delivered, with its
/// sender, its buffer and the whole of its payload, however long it is.
pub proof fn law_packet_delivered(
    addr: SocketAddr,
    name_rest: Seq<u8>,
    control_area: Seq<u8>,
    controllen: u32,
    header_flags: u32,
    payload: Seq<u8>,
    msg_namelen: usize,
    msg_controllen: usize,
    cqe: CqeResult,
    more: bool,
    id: u16,
)
    requires
        name_of(addr).len() + name_rest.len() == msg_namelen,
        control_area.len() == msg_controllen,
        payload.len() <= u32::MAX,
        16 + msg_namelen + msg_controllen + payload.len() <= usize::MAX,
        cqe.result is Ok,
        flags_say(cqe.flags, true, more, id),
    ensures
        ({
            let data = packet_bytes(addr, name_rest, control_area, controllen, header_flags, payload);
            &&& readable(data, msg_namelen, msg_controllen)
            &&& packet_in(cqe, data, msg_namelen, msg_controllen) matches Some(packet) && tells(
                packet,
                data,
                addr,
                payload,
                id,
                more,
            )
        }),
{
    law_packet_round_trip(
        addr,
        name_rest,
        control_area,
        controllen,
        header_flags,
        payload,
        msg_namelen,
        msg_controllen,
    );
    let data = packet_bytes(addr, name_rest, control_area, controllen, header_flags, payload);
    let start = payload_start(msg_namelen, msg_controllen);
    law_packet_repeats_message(
        data,
        msg_namelen,
        msg_controllen,
        cqe,
        more,
        id,
        addr,
        start as usize,
        payload.len() as usize,
    );
}

/// An operation that takes the completion for a packet which the kernel wrote looks at the
/// buffer that the completion names and nowhere else, and has the packet last in its batch
/// then, behind those that were there. Nothing else about the operation changes.
pub proof fn law_update_takes_packet<P: BufferProvider + ?Sized>(
    op: RecvFromMultishot<P>,
    addr: SocketAddr,
    name_rest: Seq<u8>,
    control_area: Seq<u8>,
    controllen: u32,
    header_flags: u32,
    payload: Seq<u8>,
    n: u32,
    flags: u32,
    more: bool,
    id: u16,
    after: RecvView,
)
    requires
        name_of(addr).len() + name_rest.len() == op@.msg_namelen,
        control_area.len() == op@.msg_controllen,
        payload.len() <= u32::MAX,
        16 + op@.msg_namelen + op@.msg_controllen + payload.len() <= usize::MAX,
        flags_say(flags, true, more, id),
        forall|data: Seq<u8>| #[trigger]
            op.provider().may_hold(id, n as usize, data) ==> data == packet_bytes(
                addr,
                name_rest,
                control_area,
                controllen,
                header_flags,
                payload,
            ),
        op.may_become(CqeResult { result: Ok(n), flags }, after),
    ensures
        op@.readable(
            packet_bytes(addr, name_rest, control_area, controllen, header_flags, payload),
        ),
        after.batch.len() == op@.batch.len() + 1,
        after.batch.drop_last() == op@.batch,
        tells(
            after.batch.last(),
            packet_bytes(addr, name_rest, control_area, controllen, header_flags, payload),
            addr,
            payload,
            id,
            more,
        ),
        after == (RecvView { batch: after.batch, ..op@ }),
{
    let cqe = CqeResult { result: Ok(n), flags };
    let expected = packet_bytes(addr, name_rest, control_area, controllen, header_flags, payload);
    law_packet_delivered(
        addr,
        name_rest,
        control_area,
        controllen,
        header_flags,
        payload,
        op@.msg_namelen,
        op@.msg_controllen,
        cqe,
        more,
        id,
    );
    law_named_buffer(cqe, true, more, id);
    let data = choose|data: Seq<u8>| #[trigger]
        op.may_see(cqe, data) && after == op@.with_packet(op@.packet_in(cqe, data));
    assert(op.provider().may_hold(id, n as usize, data));
    assert(data == expected);
    assert(after.batch.drop_last() =~= op@.batch);
}

/// An operation that takes a completion which failed or picked no buffer stays as it is.
pub proof fn law_update_skips_useless_completion<P: BufferProvider + ?Sized>(
    op: RecvFromMultishot<P>,
    cqe: CqeResult,
    picked: bool,
    more: bool,
    id: u16,
    after: RecvView,
)
    requires
        flags_say(cqe.flags, picked, more, id),
        cqe.result is Err || !picked,
        op.may_become(cqe, after),
    ensures
        after == op@,
{
    let data = choose|data: Seq<u8>| #[trigger]
        op.may_see(cqe, data) && after == op@.with_packet(op@.packet_in(cqe, data));
    law_useless_completion(cqe, picked, more, id, data, op@.msg_namelen, op@.msg_controllen);
}

/// A completion that failed or picked no buffer delivers nothing, whatever is in memory.
pub proof fn law_useless_completion(
    cqe: CqeResult,
    picked: bool,
    more: bool,
    id: u16,
    data: Seq<u8>,
    msg_namelen: usize,
    msg_controllen: usize,
)
    requires
        flags_say(cqe.flags, picked, more, id),
        cqe.result is Err || !picked,
    ensures
        packet_in(cqe, data, msg_namelen, msg_controllen) is None,
{
    law_flags_round_trip(cqe.flags, picked, more, id);
}

/// A message as the kernel writes it to a buffer, whoever sent it: `name` are the bytes of
/// the name.
pub open spec fn message_bytes(
    name: Seq<u8>,
    name_rest: Seq<u8>,
    control_area: Seq<u8>,
    controllen: u32,
    flags: u32,
    payload: Seq<u8>,
) -> Seq<u8> {
    le_bytes(name.len(), 4) + le_bytes(controllen as nat, 4) + le_bytes(payload.len(), 4)
        + le_bytes(flags as nat, 4) + name + name_rest + control_area + payload
}

proof fn lemma_message_header(
    name: Seq<u8>,
    name_rest: Seq<u8>,
    control_area: Seq<u8>,
    controllen: u32,
    flags: u32,
    payload: Seq<u8>,
)
    requires
        name.len() <= u32::MAX,
        payload.len() <= u32::MAX,
    ensures
        ({
            let data = message_bytes(name, name_rest, control_area, controllen, flags, payload);
            &&& data.len() == 16 + name.len() + name_rest.len() + control_area.len()
                + payload.len()
            &&& le(data.subrange(0, 4)) == name.len()
            &&& le(data.subrange(8, 12)) == payload.len()
            &&& data.subrange(16, 16int + name.len()) == name
        }),
{
    let data = message_bytes(name, name_rest, control_area, controllen, flags, payload);
    lemma_pow256_values();
    lemma_le_bytes(name.len(), 4);
    lemma_le_bytes(controllen as nat, 4);
    lemma_le_bytes(payload.len(), 4);
    lemma_le_bytes(flags as nat, 4);
    assert(data.subrange(0, 4) =~= le_bytes(name.len(), 4));
    assert(data.subrange(8, 12) =~= le_bytes(payload.len(), 4));
    assert(data.subrange(16, 16int + name.len()) =~= name);
}

/// Of a message that was cut off before its end nothing is delivered; it is rejected with
/// the size that it should have had.
pub proof fn law_cut_off_message_rejected(
    name: Seq<u8>,
    name_rest: Seq<u8>,
    control_area: Seq<u8>,
    controllen: u32,
    flags: u32,
    payload: Seq<u8>,
    msg_namelen: usize,
    msg_controllen: usize,
    cqe: CqeResult,
    k: int,
)
    requires
        name.len() + name_rest.len() == msg_namelen,
        name.len() <= u32::MAX,
        control_area.len() == msg_controllen,
        payload.len() <= u32::MAX,
        16 + msg_namelen + msg_controllen + payload.len() <= usize::MAX,
        0 <= k < message_bytes(name, name_rest, control_area, controllen, flags, payload).len(),
    ensures
        ({
            let data = message_bytes(name, name_rest, control_area, controllen, flags, payload);
            &&& readable(data.take(k), msg_namelen, msg_controllen)
            &&& packet_in(cqe, data.take(k), msg_namelen, msg_controllen) is None
            &&& message_in(data.take(k), msg_namelen, msg_controllen) == Err::<
                (SocketAddr, usize, usize),
                Error,
            >(
                Error::InvalidData(
                    if k < 16 {
                        InvalidData::HeaderTooSmall
                    } else {
                        InvalidData::BufferTooSmall {
                            expected: data.len() as usize,
                            got: k as usize,
                        }
                    },
                ),
            )
        }),
{
    let data = message_bytes(name, name_rest, control_area, controllen, flags, payload);
    lemma_message_header(name, name_rest, control_area, controllen, flags, payload);
    if k >= 16 {
        assert(data.take(k).subrange(0, 4) =~= data.subrange(0, 4));
        assert(data.take(k).subrange(8, 12) =~= data.subrange(8, 12));
    }
}

/// A message from somebody without a socket address of a known family is rejected: one
/// whose name is shorter than the shortest address, and one of another family.
pub proof fn law_unknown_sender_rejected(
    name: Seq<u8>,
    name_rest: Seq<u8>,
    control_area: Seq<u8>,
    controllen: u32,
    flags: u32,
    payload: Seq<u8>,
    msg_namelen: usize,
    msg_controllen: usize,
)
    requires
        name.len() + name_rest.len() == msg_namelen,
        name.len() <= 128,
        control_area.len() == msg_controllen,
        payload.len() <= u32::MAX,
        16 + msg_namelen + msg_controllen + payload.len() <= usize::MAX,
        name.len() < 16 || (native(name.subrange(0, 2)) != 2 && native(name.subrange(0, 2)) != 10),
    ensures
        ({
            let data = message_bytes(name, name_rest, control_area, controllen, flags, payload);
            &&& readable(data, msg_namelen, msg_controllen)
            &&& message_in(data, msg_namelen, msg_controllen) == Err::<
                (SocketAddr, usize, usize),
                Error,
            >(
                Error::InvalidData(
                    if name.len() < 16 {
                        InvalidData::NameTooSmall
                    } else {
                        InvalidData::InvalidSocketAddress
                    },
                ),
            )
        }),
{
    lemma_message_header(name, name_rest, control_area, controllen, flags, payload);
    if name.len() >= 16 {
        assert(storage_of(name).subrange(0, 2) =~= name.subrange(0, 2));
    }
}

/// How many of the bytes of a socket address say who it is; what follows is padding.
pub open spec fn significant(addr: SocketAddr) -> int {
    if addr is V4 {
        8
    } else {
        28
    }
}

/// The bytes of a name, as many of them as a socket address of any family has. What the
/// name lacks counts as zero.
pub open spec fn padded(name: Seq<u8>) -> Seq<u8> {
    Seq::new(
        128,
        |i: int|
            if i < name.len() {
                name[i]
            } else {
                0
            },
    )
}

/// Whoever's name starts with the bytes of a socket address is recognised by it, whatever
/// the padding holds and however long the name is, and the payload of the message is found.
pub proof fn law_known_sender_accepted(
    addr: SocketAddr,
    name: Seq<u8>,
    name_rest: Seq<u8>,
    control_area: Seq<u8>,
    controllen: u32,
    flags: u32,
    payload: Seq<u8>,
    msg_namelen: usize,
    msg_controllen: usize,
)
    requires
        16 <= name.len() <= 128,
        padded(name).take(significant(addr)) == name_of(addr).take(significant(addr)),
        name.len() + name_rest.len() == msg_namelen,
        control_area.len() == msg_controllen,
        payload.len() <= u32::MAX,
        16 + msg_namelen + msg_controllen + payload.len() <= usize::MAX,
    ensures
        ({
            let data = message_bytes(name, name_rest, control_area, controllen, flags, payload);
            &&& readable(data, msg_namelen, msg_controllen)
            &&& message_in(data, msg_namelen, msg_controllen) matches Ok((sender, start, len)) && {
                &&& sender == addr
                &&& len == payload.len()
                &&& start + len <= data.len()
                &&& data.subrange(start as int, start + len) == payload
            }
        }),
{
    let data = message_bytes(name, name_rest, control_area, controllen, flags, payload);
    let start = payload_start(msg_namelen, msg_controllen);
    lemma_message_header(name, name_rest, control_area, controllen, flags, payload);
    law_address_round_trip(addr);
    assert(storage_of(name) =~= padded(name));
    let given = storage_of(name);
    let own = storage_of(name_of(addr));
    let known = significant(addr);
    assert(own.take(known) =~= name_of(addr).take(known));
    assert forall|i: int, j: int| 0 <= i <= j <= known implies given.subrange(i, j)
        == own.subrange(i, j) by {
        assert(given.subrange(i, j) =~= given.take(known).subrange(i, j));
        assert(own.subrange(i, j) =~= own.take(known).subrange(i, j));
    }
    lemma_pow256_values();
    lemma_native_bytes(2, 2);
    lemma_native_bytes(10, 2);
    assert(own.subrange(0, 2) =~= native_bytes(
        if addr is V4 {
            2
        } else {
            10
        },
        2,
    ));
    assert(given.subrange(0, 2) == own.subrange(0, 2));
    assert(given.subrange(2, 4) == own.subrange(2, 4));
    assert(given.subrange(4, 8) == own.subrange(4, 8));
    if addr is V6 {
        assert(given.subrange(8, 24) == own.subrange(8, 24));
        assert(given.subrange(24, 28) == own.subrange(24, 28));
    }
    assert(data.subrange(start, start + payload.len()) =~= payload);
}

/// The lengths in a header are trusted where they describe what is there: a packet whose
/// size is a machine integer, and a name that lies in the buffer and is no longer than a
/// socket address can be.
pub proof fn law_truthful_header_is_readable(
    data: Seq<u8>,
    msg_namelen: usize,
    msg_controllen: usize,
)
    requires
        data.len() >= 16 ==> {
            &&& 16 + msg_namelen + msg_controllen + le(data.subrange(8, 12)) <= usize::MAX
            &&& 16 + le(data.subrange(0, 4)) <= data.len()
            &&& le(data.subrange(0, 4)) <= 128
        },
    ensures
        readable(data, msg_namelen, msg_controllen),
{
}

/// What a receive operation asks the kernel to reserve is what it reckons with when it
/// reads the buffers: room for a name of any family and for no control data. The kernel
/// may copy 1500 bytes of payload.
pub proof fn law_submission_matches_layout(
    fd: SharedFd,
    buf_group_id: u16,
    batch_size: usize,
    addr: SocketAddr,
)
    ensures
        ({
            let op = initial(fd, buf_group_id, batch_size);
            &&& op.fd == fd
            &&& op.buf_group_id == buf_group_id
            &&& op.batch_size == batch_size
            &&& op.batch.len() == 0
            &&& op.msghdr.namelen == op.msg_namelen
            &&& op.msghdr.controllen == op.msg_controllen
            &&& op.msg_namelen == 128
            &&& op.msg_controllen == 0
            &&& op.msghdr.iovlen == 1
            &&& op.msghdr.iov_len == 1500
            &&& name_of(addr).len() <= op.msg_namelen
        }),
{
    law_address_round_trip(addr);
}

/// Something that happens to a receive operation, as whoever watches the kernel sees it.
pub enum Arrival {
    /// The kernel has written a packet to a buffer and reports it.
    Packet {
        addr: SocketAddr,
        name_rest: Seq<u8>,
        controllen: u32,
        header_flags: u32,
        payload: Seq<u8>,
        cqe: CqeResult,
        more: bool,
        id: u16,
    },
    /// A completion that failed or picked no buffer.
    Useless { cqe: CqeResult, picked: bool, more: bool, id: u16, data: Seq<u8> },
    /// The batch is handed out.
    HandOut,
}

/// The bytes that the kernel wrote for a packet, where it reserved nothing for control
/// data.
pub open spec fn written_for(arrival: Arrival) -> Seq<u8> {
    match arrival {
        Arrival::Packet { addr, name_rest, controllen, header_flags, payload, .. } => packet_bytes(
            addr,
            name_rest,
            Seq::empty(),
            controllen,
            header_flags,
            payload,
        ),
        _ => Seq::empty(),
    }
}

/// The arrival can happen to an operation that reserves 128 bytes for the name.
pub open spec fn possible(arrival: Arrival) -> bool {
    match arrival {
        Arrival::Packet { addr, name_rest, payload, cqe, more, id, .. } => {
            &&& name_of(addr).len() + name_rest.len() == 128
            &&& payload.len() <= u32::MAX
            &&& 144 + payload.len() <= usize::MAX
            &&& cqe.result is Ok
            &&& flags_say(cqe.flags, true, more, id)
        },
        Arrival::Useless { cqe, picked, more, id, data } => {
            &&& flags_say(cqe.flags, picked, more, id)
            &&& cqe.result is Err || !picked
        },
        Arrival::HandOut => true,
    }
}

/// What has been handed out, and what has become of the operation, after `arrivals`.
pub open spec fn after_arrivals(op: RecvView, arrivals: Seq<Arrival>) -> (
    Seq<RecvFromMultishotResult>,
    RecvView,
)
    decreases arrivals.len(),
{
    if arrivals.len() == 0 {
        (Seq::empty(), op)
    } else {
        let (out, now) = after_arrivals(op, arrivals.drop_last());
        match arrivals.last() {
            Arrival::Packet { cqe, .. } => (
                out,
                now.with_packet(now.packet_in(cqe, written_for(arrivals.last()))),
            ),
            Arrival::Useless { cqe, data, .. } => (out, now.with_packet(now.packet_in(cqe, data))),
            Arrival::HandOut => (out + now.handed_out(), now.emptied()),
        }
    }
}

/// The packets among the arrivals.
pub open spec fn packets_among(arrivals: Seq<Arrival>) -> Seq<Arrival>
    decreases arrivals.len(),
{
    if arrivals.len() == 0 {
        Seq::empty()
    } else if arrivals.last() is Packet {
        packets_among(arrivals.drop_last()).push(arrivals.last())
    } else {
        packets_among(arrivals.drop_last())
    }
}

/// The packet that came out tells all of the one that arrived.
pub open spec fn same_packet(packet: RecvFromMultishotResult, arrival: Arrival) -> bool {
    arrival matches Arrival::Packet { addr, payload, more, id, .. } && tells(
        packet,
        written_for(arrival),
        addr,
        payload,
        id,
        more,
    )
}

/// Whatever arrives, and however often the batch is handed out: the packets that have come
/// out, followed by those that wait, are the ones that arrived, each of them once, in their
/// order, with sender, buffer and payload. Useless completions make no difference.
pub proof fn law_packets_come_out_as_they_arrived(
    fd: SharedFd,
    buf_group_id: u16,
    batch_size: usize,
    arrivals: Seq<Arrival>,
)
    requires
        forall|i: int| 0 <= i < arrivals.len() ==> possible(#[trigger] arrivals[i]),
    ensures
        ({
            let op = initial(fd, buf_group_id, batch_size);
            let (out, now) = after_arrivals(op, arrivals);
            let all = out + now.batch;
            &&& all.len() == packets_among(arrivals).len()
            &&& forall|i: int|
                0 <= i < all.len() ==> same_packet(
                    #[trigger] all[i],
                    packets_among(arrivals)[i],
                )
            &&& now == (RecvView { batch: now.batch, ..op })
            &&& arrivals.len() > 0 && arrivals.last() is HandOut ==> now.batch.len() == 0
        }),
    decreases arrivals.len(),
{
    let op = initial(fd, buf_group_id, batch_size);
    let (out, now) = after_arrivals(op, arrivals);
    let all = out + now.batch;
    if arrivals.len() > 0 {
        let earlier = arrivals.drop_last();
        assert forall|i: int| 0 <= i < earlier.len() implies possible(#[trigger] earlier[i]) by {
            assert(earlier[i] == arrivals[i]);
        }
        law_packets_come_out_as_they_arrived(fd, buf_group_id, batch_size, earlier);
        let (out0, now0) = after_arrivals(op, earlier);
        let all0 = out0 + now0.batch;
        let last = arrivals[arrivals.len() - 1];
        assert(possible(last));
        match last {
            Arrival::Packet {
                addr,
                name_rest,
                controllen,
                header_flags,
                payload,
                cqe,
                more,
                id,
            } => {
                law_packet_delivered(
                    addr,
                    name_rest,
                    Seq::empty(),
                    controllen,
                    header_flags,
                    payload,
                    128,
                    0,
                    cqe,
                    more,
                    id,
                );
                let packet = now0.packet_in(cqe, written_for(last))->0;
                assert(same_packet(packet, last));
                assert(all =~= all0.push(packet));
                assert forall|i: int| 0 <= i < all.len() implies same_packet(
                    #[trigger] all[i],
                    packets_among(arrivals)[i],
                ) by {
                    if i < all0.len() {
                        assert(same_packet(all0[i], packets_among(earlier)[i]));
                    }
                }
            },
            Arrival::Useless { cqe, picked, more, id, data } => {
                law_useless_completion(cqe, picked, more, id, data, 128, 0);
                assert(all =~= all0);
            },
            Arrival::HandOut => {
                assert(all =~= all0);
            },
        }
    }
}

} // verus!
