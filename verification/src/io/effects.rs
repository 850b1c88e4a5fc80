//! What the operations do to memory, seen from the kernel's side: which bytes an entry
//! names, and which of them are in use in the buffer once the operation has completed.

use crate::buf::bounded::{BoundedBuf, Window};
use crate::buf::buffer::{
    lemma_len_within_cap, lemma_single_part, lemma_total_cap_take, lemma_with_len,
    lemma_with_len_after_fill, total_cap, total_len, with_len, BufPart, Buffer, BufferView,
    UserData,
};
use crate::buf::fixed::plumbing::slots::registrable;
use crate::driver::sqe::{low16, low32, low32_signed, Sqe};
use crate::io::provide_buffers::provides;
use crate::io::read_fixed::reads_window;
use crate::io::read_write::{reads, writes};
use crate::io::shared_fd::SharedFd;
use crate::io::write_fixed::writes_window;
use vstd::prelude::*;

verus! {

/// A range of memory: where it starts, and how many bytes it has.
pub struct Range {
    pub base: int,
    pub size: nat,
}

/// The bytes in a range, given the byte at each address.
pub open spec fn bytes_at(memory: spec_fn(int) -> u8, range: Range) -> Seq<u8> {
    Seq::new(range.size, |i: int| memory(range.base + i))
}

/// The bytes in several ranges, one range after the other.
pub open spec fn content(memory: spec_fn(int) -> u8, ranges: Seq<Range>) -> Seq<u8>
    decreases ranges.len(),
{
    if ranges.len() == 0 {
        Seq::empty()
    } else {
        content(memory, ranges.drop_last()) + bytes_at(memory, ranges.last())
    }
}

/// The memory that an entry names, in the order in which the kernel goes through it.
pub open spec fn named_memory(sqe: Sqe) -> Seq<Range> {
    match sqe {
        Sqe::Read { addr, len, .. } => seq![Range { base: addr as int, size: len as nat }],
        Sqe::Write { addr, len, .. } => seq![Range { base: addr as int, size: len as nat }],
        Sqe::ReadFixed { addr, len, .. } => seq![Range { base: addr as int, size: len as nat }],
        Sqe::WriteFixed { addr, len, .. } => seq![Range { base: addr as int, size: len as nat }],
        Sqe::Readv { iovecs, count, .. } => Seq::new(
            count as nat,
            |i: int| Range { base: iovecs@[i].base as int, size: iovecs@[i].len as nat },
        ),
        Sqe::Writev { iovecs, count, .. } => Seq::new(
            count as nat,
            |i: int| Range { base: iovecs@[i].base as int, size: iovecs@[i].len as nat },
        ),
        _ => Seq::empty(),
    }
}

/// What an entry does with a file: whether it writes to it, which file it is, at which
/// place, and the index under which the memory is registered, if the entry names one.
pub struct FileAccess {
    pub to_file: bool,
    pub fd: i32,
    pub offset: u64,
    pub index: Option<u16>,
}

/// What an entry does with a file, if it does anything.
pub open spec fn file_access(sqe: Sqe) -> Option<FileAccess> {
    match sqe {
        Sqe::Read { fd, offset, .. } => Some(
            FileAccess { to_file: false, fd, offset, index: None },
        ),
        Sqe::Write { fd, offset, .. } => Some(
            FileAccess { to_file: true, fd, offset, index: None },
        ),
        Sqe::ReadFixed { fd, offset, buf_index, .. } => Some(
            FileAccess { to_file: false, fd, offset, index: Some(buf_index) },
        ),
        Sqe::WriteFixed { fd, offset, buf_index, .. } => Some(
            FileAccess { to_file: true, fd, offset, index: Some(buf_index) },
        ),
        Sqe::Readv { fd, offset, .. } => Some(
            FileAccess { to_file: false, fd, offset, index: None },
        ),
        Sqe::Writev { fd, offset, .. } => Some(
            FileAccess { to_file: true, fd, offset, index: None },
        ),
        _ => None,
    }
}

/// The index that a collection has given to the memory of a buffer.
pub open spec fn index_in_collection(user_data: UserData) -> Option<u16> {
    match user_data {
        UserData::Owned => None,
        UserData::Registry(info) => Some(info.index),
        UserData::Pool(info) => Some(info.index),
    }
}

/// The bytes in use of each part.
pub open spec fn used_memory(parts: Seq<BufPart>) -> Seq<Range> {
    Seq::new(
        parts.len(),
        |i: int| Range { base: parts[i].addr as int, size: parts[i].len as nat },
    )
}

/// All the memory of each part.
pub open spec fn all_memory(parts: Seq<BufPart>) -> Seq<Range> {
    Seq::new(
        parts.len(),
        |i: int| Range { base: parts[i].addr as int, size: parts[i].cap as nat },
    )
}

proof fn lemma_content_next(memory: spec_fn(int) -> u8, ranges: Seq<Range>, k: int)
    requires
        0 <= k < ranges.len(),
    ensures
        content(memory, ranges.take(k + 1)) == content(memory, ranges.take(k)) + bytes_at(
            memory,
            ranges[k],
        ),
{
    assert(ranges.take(k + 1).drop_last() =~= ranges.take(k));
}

proof fn lemma_content_single(memory: spec_fn(int) -> u8, range: Range)
    ensures
        content(memory, seq![range]) == bytes_at(memory, range),
{
    assert(seq![range].drop_last() =~= Seq::<Range>::empty());
    assert(content(memory, seq![range].drop_last()) =~= Seq::<u8>::empty());
    assert(content(memory, seq![range]) =~= bytes_at(memory, range));
}

proof fn lemma_sizes(memory: spec_fn(int) -> u8, parts: Seq<BufPart>, k: int)
    requires
        0 <= k <= parts.len(),
    ensures
        content(memory, used_memory(parts).take(k)).len() == total_len(parts.take(k)),
        content(memory, all_memory(parts).take(k)).len() == total_cap(parts.take(k)),
    decreases k,
{
    if k > 0 {
        lemma_sizes(memory, parts, k - 1);
        lemma_content_next(memory, used_memory(parts), k - 1);
        lemma_content_next(memory, all_memory(parts), k - 1);
        lemma_total_cap_take(parts, k - 1);
    }
}

/// The counts of bytes are those of the memory itself: as many bytes are in use as the
/// used memory holds, and there is room for as many as all the memory holds.
pub proof fn law_sizes(memory: spec_fn(int) -> u8, parts: Seq<BufPart>)
    ensures
        content(memory, used_memory(parts)).len() == total_len(parts),
        content(memory, all_memory(parts)).len() == total_cap(parts),
{
    lemma_sizes(memory, parts, parts.len() as int);
    assert(used_memory(parts).take(parts.len() as int) =~= used_memory(parts));
    assert(all_memory(parts).take(parts.len() as int) =~= all_memory(parts));
    assert(parts.take(parts.len() as int) =~= parts);
}

proof fn lemma_used_prefix(memory: spec_fn(int) -> u8, parts: Seq<BufPart>, n: nat, k: int)
    requires
        0 <= k <= parts.len(),
    ensures
        ({
            let all = content(memory, all_memory(parts).take(k));
            let used = content(memory, used_memory(with_len(parts, n)).take(k));
            used == (if n <= all.len() {
                all.take(n as int)
            } else {
                all
            })
        }),
    decreases k,
{
    let all = content(memory, all_memory(parts).take(k));
    let used = content(memory, used_memory(with_len(parts, n)).take(k));
    lemma_sizes(memory, parts, k);
    if k > 0 {
        lemma_used_prefix(memory, parts, n, k - 1);
        lemma_sizes(memory, parts, k - 1);
        lemma_content_next(memory, all_memory(parts), k - 1);
        lemma_content_next(memory, used_memory(with_len(parts, n)), k - 1);
        if n <= all.len() {
            assert(used =~= all.take(n as int));
        } else {
            assert(used =~= all);
        }
    } else {
        assert(used =~= all.take(0));
    }
}

/// Recording that `n` bytes were written puts the first `n` bytes of the memory to use,
/// whatever was in use before, and moves no memory.
pub proof fn law_used_after_filling(memory: spec_fn(int) -> u8, buf: BufferView, n: nat)
    requires
        n <= content(memory, all_memory(buf.parts)).len(),
    ensures
        content(memory, used_memory(buf.with_len(n).parts)) == content(
            memory,
            all_memory(buf.parts),
        ).take(n as int),
        all_memory(buf.with_len(n).parts) == all_memory(buf.parts),
        buf.with_len(n).user_data == buf.user_data,
{
    let count = buf.parts.len() as int;
    lemma_used_prefix(memory, buf.parts, n, count);
    assert(all_memory(buf.parts).take(count) =~= all_memory(buf.parts));
    assert(used_memory(buf.with_len(n).parts).take(count) =~= used_memory(buf.with_len(n).parts));
    assert(all_memory(buf.with_len(n).parts) =~= all_memory(buf.parts));
}

/// While a read is in flight, all the memory of its buffer is in use.
pub proof fn law_all_in_use(buf: BufferView)
    ensures
        used_memory(buf.all_in_use().parts) == all_memory(buf.parts),
        all_memory(buf.all_in_use().parts) == all_memory(buf.parts),
        buf.all_in_use().user_data == buf.user_data,
{
    assert(used_memory(buf.all_in_use().parts) =~= all_memory(buf.parts));
    assert(all_memory(buf.all_in_use().parts) =~= all_memory(buf.parts));
}

/// A number that fits the field of an entry is passed on as it is; of a larger one, a
/// multiple of what the field can tell apart is lost, and nothing else.
pub proof fn law_truncation(x: usize)
    ensures
        0 <= low32(x) <= u32::MAX,
        x <= u32::MAX ==> low32(x) == x,
        (x - low32(x)) % 0x1_0000_0000 == 0,
        0 <= low16(x) <= u16::MAX,
        x <= u16::MAX ==> low16(x) == x,
        (x - low16(x)) % 0x1_0000 == 0,
        i32::MIN <= low32_signed(x) <= i32::MAX,
        x <= i32::MAX ==> low32_signed(x) == x,
        (x - low32_signed(x)) % 0x1_0000_0000 == 0,
{
}

/// A write hands the kernel the bytes in use of the buffer, all of them in their order
/// and no others, for the given place of the given file. Memory that a collection has
/// registered goes by its index there.
pub proof fn law_write_at_writes_used_bytes(
    memory: spec_fn(int) -> u8,
    sqe: Sqe,
    fd: SharedFd,
    buf: BufferView,
    offset: u64,
)
    requires
        buf.wf(),
        writes(sqe, fd, buf, offset),
        buf.parts.len() <= u32::MAX,
        buf.parts.len() == 1 ==> buf.parts[0].len <= u32::MAX,
    ensures
        file_access(sqe) == Some(
            FileAccess {
                to_file: true,
                fd: fd.fd,
                offset,
                index: index_in_collection(buf.user_data),
            },
        ),
        named_memory(sqe) == used_memory(buf.parts),
        content(memory, named_memory(sqe)) == content(memory, used_memory(buf.parts)),
{
    assert(named_memory(sqe) =~= used_memory(buf.parts));
}

/// A read offers the kernel all the memory of the buffer from its first byte on, whatever
/// is in use in it, and the bytes in use once it has completed with `n` are the first `n`
/// that the kernel wrote. Memory that a collection has registered goes by its index.
pub proof fn law_read_at_puts_read_bytes_to_use(
    memory: spec_fn(int) -> u8,
    sqe: Sqe,
    fd: SharedFd,
    buf: BufferView,
    offset: u64,
    n: nat,
)
    requires
        buf.wf(),
        reads(sqe, fd, buf, offset),
        buf.parts.len() <= u32::MAX,
        buf.parts.len() == 1 ==> buf.parts[0].cap <= u32::MAX,
        n <= content(memory, named_memory(sqe)).len(),
    ensures
        file_access(sqe) == Some(
            FileAccess {
                to_file: false,
                fd: fd.fd,
                offset,
                index: index_in_collection(buf.user_data),
            },
        ),
        named_memory(sqe) == all_memory(buf.parts),
        content(memory, used_memory(buf.all_in_use().with_len(n).parts)) == content(
            memory,
            named_memory(sqe),
        ).take(n as int),
        all_memory(buf.all_in_use().with_len(n).parts) == all_memory(buf.parts),
        buf.all_in_use().with_len(n).user_data == buf.user_data,
{
    assert(named_memory(sqe) =~= all_memory(buf.parts));
    law_used_after_filling(memory, buf, n);
    lemma_with_len_after_fill(buf.parts, n);
}

/// What a read has put into a buffer is what a write of that buffer hands the kernel: as
/// many bytes as were read, the same ones in the same order.
pub proof fn law_what_was_read_is_written(
    memory: spec_fn(int) -> u8,
    read: Sqe,
    write: Sqe,
    from: SharedFd,
    to: SharedFd,
    buf: BufferView,
    from_offset: u64,
    to_offset: u64,
    n: nat,
)
    requires
        buf.wf(),
        buf.parts.len() <= u32::MAX,
        buf.parts.len() == 1 ==> buf.parts[0].cap <= u32::MAX,
        reads(read, from, buf, from_offset),
        n <= content(memory, named_memory(read)).len(),
        writes(write, to, buf.all_in_use().with_len(n), to_offset),
    ensures
        content(memory, named_memory(write)) == content(memory, named_memory(read)).take(n as int),
        content(memory, named_memory(write)).len() == n,
{
    let after = buf.all_in_use().with_len(n);
    law_read_at_puts_read_bytes_to_use(memory, read, from, buf, from_offset, n);
    law_sizes(memory, buf.parts);
    lemma_with_len_after_fill(buf.parts, n);
    lemma_with_len(buf.parts, n);
    assert forall|i: int| 0 <= i < after.parts.len() implies (#[trigger] after.parts[i]).wf() by {
        assert(with_len(buf.parts, n)[i].wf());
    }
    if buf.parts.len() == 1 {
        assert(after.parts[0].wf());
        assert(after.parts[0].cap == buf.parts[0].cap);
    }
    law_write_at_writes_used_bytes(memory, write, to, after, to_offset);
}

/// The same with windows on registered buffers: what was read into a window is what a write
/// from it hands the kernel.
pub proof fn law_what_was_read_into_window_is_written(
    memory: spec_fn(int) -> u8,
    read: Sqe,
    write: Sqe,
    from: SharedFd,
    to: SharedFd,
    window: Window,
    from_offset: u64,
    to_offset: u64,
    n: nat,
)
    requires
        window.wf(),
        index_in_collection(window.buf.user_data) is Some,
        window.end - window.begin <= u32::MAX,
        reads_window(read, from, window, from_offset),
        n <= window.end - window.begin,
        writes_window(write, to, window.with_len(n), to_offset),
    ensures
        content(memory, named_memory(write)) == content(memory, named_memory(read)).take(n as int),
        content(memory, named_memory(write)).len() == n,
{
    let after = window.with_len(n);
    let parts = window.buf.parts;
    law_read_fixed_fills_window(memory, read, from, window, from_offset, n);
    law_sizes(memory, parts);
    lemma_with_len(parts, window.begin + n);
    law_sizes(memory, after.buf.parts);
    assert(after.wf());
    law_write_fixed_writes_used_window(memory, write, to, after, to_offset);
    let offered = content(memory, named_memory(read));
    let used = content(memory, used_memory(after.buf.parts));
    assert(used.subrange(window.begin as int, (window.begin + n) as int) =~= offered.take(
        n as int,
    ));
}

/// The length in the entry of a read or a write with a buffer in one part differs from
/// the number of bytes only by what its field cannot hold.
pub proof fn law_long_buffers_are_cut(
    read: Sqe,
    write: Sqe,
    fd: SharedFd,
    buf: BufferView,
    offset: u64,
)
    requires
        buf.wf(),
        buf.parts.len() == 1,
        reads(read, fd, buf, offset),
        writes(write, fd, buf, offset),
    ensures
        named_memory(read).len() == 1,
        named_memory(read)[0].base == buf.parts[0].addr,
        (buf.parts[0].cap - named_memory(read)[0].size) % 0x1_0000_0000 == 0,
        named_memory(write).len() == 1,
        named_memory(write)[0].base == buf.parts[0].addr,
        (buf.parts[0].len - named_memory(write)[0].size) % 0x1_0000_0000 == 0,
{
    law_truncation(buf.parts[0].cap);
    law_truncation(buf.parts[0].len);
}

proof fn lemma_single_memory(memory: spec_fn(int) -> u8, parts: Seq<BufPart>)
    requires
        parts.len() == 1,
    ensures
        content(memory, all_memory(parts)) == bytes_at(
            memory,
            Range { base: parts[0].addr as int, size: parts[0].cap as nat },
        ),
        content(memory, used_memory(parts)) == bytes_at(
            memory,
            Range { base: parts[0].addr as int, size: parts[0].len as nat },
        ),
{
    let all = Range { base: parts[0].addr as int, size: parts[0].cap as nat };
    let used = Range { base: parts[0].addr as int, size: parts[0].len as nat };
    assert(all_memory(parts) =~= seq![all]);
    assert(used_memory(parts) =~= seq![used]);
    lemma_content_single(memory, all);
    lemma_content_single(memory, used);
}

/// A read into a window on a registered buffer offers the kernel the bytes of the window,
/// all of them and no others, whatever is in use. Once it has completed with `n`, the
/// bytes in use are those in front of the window and the first `n` that the kernel wrote.
pub proof fn law_read_fixed_fills_window(
    memory: spec_fn(int) -> u8,
    sqe: Sqe,
    fd: SharedFd,
    window: Window,
    offset: u64,
    n: nat,
)
    requires
        window.wf(),
        index_in_collection(window.buf.user_data) is Some,
        reads_window(sqe, fd, window, offset),
        window.end - window.begin <= u32::MAX,
        n <= window.end - window.begin,
    ensures
        ({
            let room = content(memory, all_memory(window.buf.parts));
            let offered = content(memory, named_memory(sqe));
            let after = window.with_len(n);
            &&& file_access(sqe) == Some(
                FileAccess {
                    to_file: false,
                    fd: fd.fd,
                    offset,
                    index: index_in_collection(window.buf.user_data),
                },
            )
            &&& named_memory(sqe) == seq![
                Range {
                    base: window.buf.parts[0].addr + window.begin,
                    size: (window.end - window.begin) as nat,
                },
            ]
            &&& offered == room.subrange(window.begin as int, window.end as int)
            &&& content(memory, used_memory(after.buf.parts)) == room.take(window.begin as int)
                + offered.take(n as int)
            &&& all_memory(after.buf.parts) == all_memory(window.buf.parts)
            &&& after.buf.user_data == window.buf.user_data
            &&& after.begin == window.begin
            &&& after.end == window.end
        }),
{
    let parts = window.buf.parts;
    let room = content(memory, all_memory(parts));
    let range = Range {
        base: parts[0].addr + window.begin,
        size: (window.end - window.begin) as nat,
    };
    lemma_single_part(parts);
    lemma_single_memory(memory, parts);
    assert(parts[0].wf());
    law_truncation(window.total() as usize);
    assert(named_memory(sqe) =~= seq![range]);
    lemma_content_single(memory, range);
    let offered = content(memory, named_memory(sqe));
    assert(offered =~= room.subrange(window.begin as int, window.end as int));
    law_used_after_filling(memory, window.buf, window.begin + n);
    assert(room.take((window.begin + n) as int) =~= room.take(window.begin as int) + offered.take(
        n as int,
    ));
}

/// A write from a window on a registered buffer hands the kernel the bytes in use that lie
/// in the window, all of them and no others.
pub proof fn law_write_fixed_writes_used_window(
    memory: spec_fn(int) -> u8,
    sqe: Sqe,
    fd: SharedFd,
    window: Window,
    offset: u64,
)
    requires
        window.wf(),
        index_in_collection(window.buf.user_data) is Some,
        writes_window(sqe, fd, window, offset),
        window.end - window.begin <= u32::MAX || window.buf.parts[0].len - window.begin
            <= u32::MAX,
    ensures
        ({
            let used = content(memory, used_memory(window.buf.parts));
            let end = if window.end <= used.len() {
                window.end
            } else {
                used.len()
            };
            &&& file_access(sqe) == Some(
                FileAccess {
                    to_file: true,
                    fd: fd.fd,
                    offset,
                    index: index_in_collection(window.buf.user_data),
                },
            )
            &&& named_memory(sqe) == seq![
                Range {
                    base: window.buf.parts[0].addr + window.begin,
                    size: (end - window.begin) as nat,
                },
            ]
            &&& content(memory, named_memory(sqe)) == used.subrange(
                window.begin as int,
                end as int,
            )
        }),
{
    let parts = window.buf.parts;
    let used = content(memory, used_memory(parts));
    let end = if window.end <= used.len() {
        window.end
    } else {
        used.len()
    };
    let range = Range { base: parts[0].addr + window.begin, size: (end - window.begin) as nat };
    lemma_single_part(parts);
    lemma_single_memory(memory, parts);
    assert(parts[0].wf());
    law_truncation(window.used() as usize);
    assert(named_memory(sqe) =~= seq![range]);
    lemma_content_single(memory, range);
    assert(content(memory, named_memory(sqe)) =~= used.subrange(window.begin as int, end as int));
}

/// The length in the entry of a fixed operation on a window differs from the number of
/// bytes only by what its field cannot hold.
pub proof fn law_long_windows_are_cut(
    read: Sqe,
    write: Sqe,
    fd: SharedFd,
    window: Window,
    offset: u64,
)
    requires
        window.wf(),
        index_in_collection(window.buf.user_data) is Some,
        reads_window(read, fd, window, offset),
        writes_window(write, fd, window, offset),
    ensures
        named_memory(read).len() == 1,
        named_memory(read)[0].base == window.buf.parts[0].addr + window.begin,
        (window.end - window.begin - named_memory(read)[0].size) % 0x1_0000_0000 == 0,
        named_memory(write).len() == 1,
        named_memory(write)[0].base == window.buf.parts[0].addr + window.begin,
        window.end <= window.buf.parts[0].len ==> (window.end - window.begin - named_memory(
            write,
        )[0].size) % 0x1_0000_0000 == 0,
        window.buf.parts[0].len <= window.end ==> (window.buf.parts[0].len - window.begin
            - named_memory(write)[0].size) % 0x1_0000_0000 == 0,
{
    lemma_single_part(window.buf.parts);
    assert(window.buf.parts[0].wf());
    law_truncation(window.total() as usize);
    law_truncation(window.used() as usize);
}

/// A byte of the memory lies in a window.
pub open spec fn in_window(window: Window, i: int) -> bool {
    window.begin <= i < window.end
}

proof fn lemma_count(lo: int, hi: int)
    requires
        lo <= hi,
    ensures
        Set::new(|i: int| lo <= i < hi).finite(),
        Set::new(|i: int| lo <= i < hi).len() == hi - lo,
{
    vstd::set_lib::lemma_int_range(lo, hi);
    assert(Set::new(|i: int| lo <= i < hi) =~= vstd::set_lib::set_int_range(lo, hi));
}

/// The sizes of a window count bytes: its size those that lie in it, whatever is in use,
/// and its used size those among them that are in use, whether the bytes in use end in the
/// window or behind it. Putting bytes to use does not change its size.
pub proof fn law_window_sizes(memory: spec_fn(int) -> u8, window: Window, n: nat)
    requires
        window.wf(),
        n <= window.end - window.begin,
    ensures
        window.total() == Set::new(|i: int| in_window(window, i)).len(),
        window.used() == Set::new(
            |i: int|
                in_window(window, i) && i < content(memory, used_memory(window.buf.parts)).len(),
        ).len(),
        window.used() <= window.total(),
        window.with_len(n).total() == window.total(),
        window.with_len(n).used() == n,
{
    let used = content(memory, used_memory(window.buf.parts)).len();
    let end = if window.end <= used {
        window.end as int
    } else {
        used as int
    };
    law_sizes(memory, window.buf.parts);
    law_sizes(memory, window.with_len(n).buf.parts);
    law_used_after_filling(memory, window.buf, window.begin + n);
    lemma_count(window.begin as int, window.end as int);
    lemma_count(window.begin as int, end);
    assert(Set::new(|i: int| in_window(window, i)) =~= Set::new(
        |i: int| window.begin <= i < window.end,
    ));
    assert(Set::new(|i: int| in_window(window, i) && i < used) =~= Set::new(
        |i: int| window.begin <= i < end,
    ));
}

/// Any memory that has addresses can be a buffer, with any number of its bytes in use, and
/// any range of a buffer in one part a window, as long as it does not begin behind the bytes
/// in use.
pub proof fn law_valid_buffers_and_windows(
    memory: spec_fn(int) -> u8,
    parts: Seq<BufPart>,
    user_data: UserData,
    begin: nat,
    end: nat,
)
    requires
        forall|i: int|
            0 <= i < parts.len() ==> {
                &&& (#[trigger] parts[i]).len <= parts[i].cap
                &&& parts[i].addr + parts[i].cap <= usize::MAX
            },
        content(memory, all_memory(parts)).len() <= usize::MAX,
        user_data is Owned || parts.len() == 1,
    ensures
        (BufferView { parts, user_data }).wf(),
        parts.len() == 1 && begin <= end <= parts[0].cap && begin <= parts[0].len ==> (Window {
            buf: BufferView { parts, user_data },
            begin,
            end,
        }).wf(),
        parts.len() == 1 ==> registrable(BufferView { parts, user_data }),
{
    law_sizes(memory, parts);
    if parts.len() == 1 {
        lemma_single_part(parts);
    }
}

/// A buffer is the window on all of its memory, however much of it is in use.
pub proof fn law_buffer_is_whole_window(memory: spec_fn(int) -> u8, buf: Buffer)
    requires
        buf@.wf(),
    ensures
        buf.window().wf(),
        buf.window().buf == buf@,
        buf.window().begin == 0,
        buf.window().total() == content(memory, all_memory(buf@.parts)).len(),
        buf.window().used() == content(memory, used_memory(buf@.parts)).len(),
{
    law_sizes(memory, buf@.parts);
    lemma_len_within_cap(buf@.parts);
}

/// A group of buffers is provided as it is described: the kernel is told where the first
/// one starts, how long each of them is, how many there are, and their ids.
pub proof fn law_provided_buffers(
    sqe: Sqe,
    addr: usize,
    len: usize,
    nbufs: usize,
    bgid: u16,
    bid: u16,
)
    requires
        provides(sqe, addr, len, nbufs, bgid, bid),
    ensures
        sqe matches Sqe::ProvideBuffers {
            addr: start,
            buf_len,
            nbufs: count,
            bgid: group,
            bid: first,
        } && {
            &&& start == addr
            &&& len <= i32::MAX ==> buf_len == len
            &&& (len - buf_len) % 0x1_0000_0000 == 0
            &&& nbufs <= u16::MAX ==> count == nbufs
            &&& (nbufs - count) % 0x1_0000 == 0
            &&& group == bgid
            &&& first == bid
        },
{
    law_truncation(len);
    law_truncation(nbufs);
}

} // verus!
