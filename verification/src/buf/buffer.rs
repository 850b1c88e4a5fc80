//! The buffer type that all operations share.

use crate::buf::fixed::pool::PoolInfo;
use crate::buf::fixed::registry::RegistryInfo;
use crate::driver::sqe::IoVec;
use vstd::prelude::*;

verus! {

/// One contiguous part of a buffer: `cap` bytes of memory from `addr` on, of
/// which the first `len` are in use.
#[derive(Clone, Copy, Debug, PartialEq, Eq, Structural)]
pub struct BufPart {
    pub addr: usize,
    pub len: usize,
    pub cap: usize,
}

/// Where the memory of a buffer comes from.
#[derive(Clone, Copy, Debug, PartialEq, Eq, Structural)]
pub enum UserData {
    /// The buffer has memory of its own.
    Owned,
    /// The memory was checked out of a registry.
    Registry(RegistryInfo),
    /// The memory was checked out of a pool.
    Pool(PoolInfo),
}

impl BufPart {
    /// No more bytes are in use than there are, and all of them have an address.
    pub open spec fn wf(self) -> bool {
        &&& self.len <= self.cap
        &&& self.addr + self.cap <= usize::MAX
    }

    /// The bytes of the part that are in use.
    pub open spec fn used(self) -> IoVec {
        IoVec { base: self.addr, len: self.len }
    }

    /// All the bytes of the part.
    pub open spec fn room(self) -> IoVec {
        IoVec { base: self.addr, len: self.cap }
    }
}

/// The capacity of all parts together.
pub open spec fn total_cap(parts: Seq<BufPart>) -> nat
    decreases parts.len(),
{
    if parts.len() == 0 {
        0
    } else {
        total_cap(parts.drop_last()) + parts.last().cap as nat
    }
}

/// The number of bytes in use in all parts together.
pub open spec fn total_len(parts: Seq<BufPart>) -> nat
    decreases parts.len(),
{
    if parts.len() == 0 {
        0
    } else {
        total_len(parts.drop_last()) + parts.last().len as nat
    }
}

/// How many of `n` bytes, laid out over the parts in order, land in part `i`.
pub open spec fn share(parts: Seq<BufPart>, n: nat, i: int) -> int {
    let before = total_cap(parts.take(i));
    if n <= before {
        0
    } else if n - before < parts[i].cap {
        n - before
    } else {
        parts[i].cap as int
    }
}

/// The parts after exactly `n` bytes, laid out over them in order, are in use.
pub open spec fn with_len(parts: Seq<BufPart>, n: nat) -> Seq<BufPart> {
    Seq::new(
        parts.len(),
        |i: int| BufPart { len: share(parts, n, i) as usize, ..parts[i] },
    )
}

/// The parts with every byte in use.
pub open spec fn all_in_use(parts: Seq<BufPart>) -> Seq<BufPart> {
    parts.map_values(|p: BufPart| BufPart { len: p.cap, ..p })
}

/// What a buffer is made of.
#[verifier::ext_equal]
pub struct BufferView {
    pub parts: Seq<BufPart>,
    pub user_data: UserData,
}

impl BufferView {
    /// The validity of a buffer: every part is valid, the capacities add up to a
    /// machine integer, and memory checked out of a collection is one part.
    pub open spec fn wf(self) -> bool {
        &&& forall|i: int| 0 <= i < self.parts.len() ==> (#[trigger] self.parts[i]).wf()
        &&& total_cap(self.parts) <= usize::MAX
        &&& self.user_data is Owned || self.parts.len() == 1
    }

    /// The index under which the kernel knows the memory, if it is registered.
    pub open spec fn fixed_index(self) -> Option<u16> {
        match self.user_data {
            UserData::Owned => None,
            UserData::Registry(info) => Some(info.index),
            UserData::Pool(info) => Some(info.index),
        }
    }

    /// The buffer after exactly `n` of its bytes are in use.
    pub open spec fn with_len(self, n: nat) -> BufferView {
        BufferView { parts: with_len(self.parts, n), user_data: self.user_data }
    }

    /// The buffer with every byte in use.
    pub open spec fn all_in_use(self) -> BufferView {
        BufferView { parts: all_in_use(self.parts), user_data: self.user_data }
    }

    /// The addresses of the parts.
    pub open spec fn addrs(self) -> Seq<usize> {
        self.parts.map_values(|p: BufPart| p.addr)
    }

    /// The used lengths of the parts.
    pub open spec fn lens(self) -> Seq<usize> {
        self.parts.map_values(|p: BufPart| p.len)
    }

    /// The capacities of the parts.
    pub open spec fn caps(self) -> Seq<usize> {
        self.parts.map_values(|p: BufPart| p.cap)
    }

    /// The buffer whose parts have these addresses, used lengths and capacities.
    pub open spec fn from_raw(
        ptr: Seq<usize>,
        len: Seq<usize>,
        cap: Seq<usize>,
        user_data: UserData,
    ) -> BufferView {
        BufferView {
            parts: Seq::new(
                ptr.len(),
                |i: int| BufPart { addr: ptr[i], len: len[i], cap: cap[i] },
            ),
            user_data,
        }
    }

    /// The used bytes of each part.
    pub open spec fn iovecs(self) -> Seq<IoVec> {
        self.parts.map_values(|p: BufPart| p.used())
    }
}

pub proof fn lemma_total_cap_take(parts: Seq<BufPart>, i: int)
    requires
        0 <= i < parts.len(),
    ensures
        total_cap(parts.take(i + 1)) == total_cap(parts.take(i)) + parts[i].cap,
        total_len(parts.take(i + 1)) == total_len(parts.take(i)) + parts[i].len,
{
    assert(parts.take(i + 1).drop_last() =~= parts.take(i));
}

pub proof fn lemma_total_prefix(parts: Seq<BufPart>, i: int)
    requires
        0 <= i <= parts.len(),
    ensures
        total_cap(parts.take(i)) <= total_cap(parts),
        total_len(parts.take(i)) <= total_len(parts),
    decreases parts.len() - i,
{
    if i < parts.len() {
        lemma_total_cap_take(parts, i);
        lemma_total_prefix(parts, i + 1);
    } else {
        assert(parts.take(i) =~= parts);
    }
}

/// The sums over a single part are those of the part.
pub proof fn lemma_single_part(parts: Seq<BufPart>)
    requires
        parts.len() == 1,
    ensures
        total_cap(parts) == parts[0].cap,
        total_len(parts) == parts[0].len,
{
    assert(parts.drop_last() =~= Seq::<BufPart>::empty());
    assert(total_cap(parts.drop_last()) == 0);
    assert(total_len(parts.drop_last()) == 0);
}

/// Valid parts never have more bytes in use than they have room for.
pub proof fn lemma_len_within_cap(parts: Seq<BufPart>)
    requires
        forall|i: int| 0 <= i < parts.len() ==> (#[trigger] parts[i]).wf(),
    ensures
        total_len(parts) <= total_cap(parts),
    decreases parts.len(),
{
    if parts.len() > 0 {
        assert forall|i: int| 0 <= i < parts.drop_last().len() implies (
        #[trigger] parts.drop_last()[i]).wf() by {
            assert(parts[i].wf());
        }
        lemma_len_within_cap(parts.drop_last());
        assert(parts.last().wf());
    }
}

proof fn lemma_with_len_prefix(parts: Seq<BufPart>, n: nat, k: int)
    requires
        0 <= k <= parts.len(),
    ensures
        total_cap(with_len(parts, n).take(k)) == total_cap(parts.take(k)),
        total_len(with_len(parts, n).take(k)) == (if n <= total_cap(parts.take(k)) {
            n
        } else {
            total_cap(parts.take(k))
        }),
    decreases k,
{
    if k > 0 {
        lemma_with_len_prefix(parts, n, k - 1);
        lemma_total_cap_take(parts, k - 1);
        lemma_total_cap_take(with_len(parts, n), k - 1);
    }
}

/// Laying out `n` bytes over parts that have room for them puts exactly `n` bytes
/// to use, leaves the room as it was, and yields valid parts.
pub proof fn lemma_with_len(parts: Seq<BufPart>, n: nat)
    requires
        n <= total_cap(parts),
        forall|i: int| 0 <= i < parts.len() ==> (#[trigger] parts[i]).wf(),
    ensures
        total_len(with_len(parts, n)) == n,
        total_cap(with_len(parts, n)) == total_cap(parts),
        forall|i: int| 0 <= i < parts.len() ==> (#[trigger] with_len(parts, n)[i]).wf(),
{
    lemma_with_len_prefix(parts, n, parts.len() as int);
    assert(parts.take(parts.len() as int) =~= parts);
    assert(with_len(parts, n).take(parts.len() as int) =~= with_len(parts, n));
    assert forall|i: int| 0 <= i < parts.len() implies (#[trigger] with_len(parts, n)[i]).wf() by {
        assert(parts[i].wf());
    }
}

proof fn lemma_all_in_use_prefix(parts: Seq<BufPart>, k: int)
    requires
        0 <= k <= parts.len(),
    ensures
        total_cap(all_in_use(parts).take(k)) == total_cap(parts.take(k)),
        total_len(all_in_use(parts).take(k)) == total_cap(parts.take(k)),
    decreases k,
{
    if k > 0 {
        lemma_all_in_use_prefix(parts, k - 1);
        lemma_total_cap_take(parts, k - 1);
        lemma_total_cap_take(all_in_use(parts), k - 1);
    }
}

/// Putting every byte to use leaves the room as it was, all of it taken.
pub proof fn lemma_all_in_use(parts: Seq<BufPart>)
    requires
        forall|i: int| 0 <= i < parts.len() ==> (#[trigger] parts[i]).wf(),
    ensures
        total_len(all_in_use(parts)) == total_cap(parts),
        total_cap(all_in_use(parts)) == total_cap(parts),
        forall|i: int| 0 <= i < parts.len() ==> (#[trigger] all_in_use(parts)[i]).wf(),
{
    lemma_all_in_use_prefix(parts, parts.len() as int);
    assert(parts.take(parts.len() as int) =~= parts);
    assert(all_in_use(parts).take(parts.len() as int) =~= all_in_use(parts));
    assert forall|i: int| 0 <= i < parts.len() implies (#[trigger] all_in_use(parts)[i]).wf() by {
        assert(parts[i].wf());
    }
}

/// What is in use before an operation does not matter for where `n` bytes land.
pub proof fn lemma_with_len_after_fill(parts: Seq<BufPart>, n: nat)
    ensures
        with_len(all_in_use(parts), n) == with_len(parts, n),
{
    assert forall|i: int| 0 <= i < parts.len() implies with_len(all_in_use(parts), n)[i]
        == #[trigger] with_len(parts, n)[i] by {
        lemma_all_in_use_prefix(parts, i);
    }
    assert(with_len(all_in_use(parts), n) =~= with_len(parts, n));
}

/// A buffer: memory in one or more parts, and where it comes from.
#[derive(Debug, PartialEq, Eq)]
pub struct Buffer {
    parts: Vec<BufPart>,
    user_data: UserData,
}

impl View for Buffer {
    type V = BufferView;

    closed spec fn view(&self) -> BufferView {
        BufferView { parts: self.parts@, user_data: self.user_data }
    }
}

impl Buffer {
    /// A buffer with memory of its own, part after part.
    pub fn new(parts: Vec<BufPart>) -> (r: Buffer)
        requires
            (BufferView { parts: parts@, user_data: UserData::Owned }).wf(),
        ensures
            r@ == (BufferView { parts: parts@, user_data: UserData::Owned }),
    {
        Buffer { parts, user_data: UserData::Owned }
    }

    /// Puts a buffer together from the addresses, used lengths and capacities of
    /// its parts.
    pub fn from_raw_parts(
        ptr: Vec<usize>,
        len: Vec<usize>,
        cap: Vec<usize>,
        user_data: UserData,
    ) -> (r: Buffer)
        requires
            ptr.len() == len.len() == cap.len(),
        ensures
            r@ == BufferView::from_raw(ptr@, len@, cap@, user_data),
    {
        let mut parts: Vec<BufPart> = Vec::new();
        for i in 0..ptr.len()
            invariant
                ptr.len() == len.len() == cap.len(),
                parts.len() == i,
                forall|j: int|
                    0 <= j < i ==> #[trigger] parts[j] == (BufPart {
                        addr: ptr[j],
                        len: len[j],
                        cap: cap[j],
                    }),
        {
            parts.push(BufPart { addr: ptr[i], len: len[i], cap: cap[i] });
        }
        let r = Buffer { parts, user_data };
        assert(r@.parts =~= BufferView::from_raw(ptr@, len@, cap@, user_data).parts);
        r
    }

    /// Takes a buffer apart into the addresses, used lengths and capacities of its
    /// parts.
    pub fn into_raw_parts(self) -> (r: (Vec<usize>, Vec<usize>, Vec<usize>, UserData))
        ensures
            r.0@ == self@.addrs(),
            r.1@ == self@.lens(),
            r.2@ == self@.caps(),
            r.3 == self@.user_data,
    {
        let mut ptr: Vec<usize> = Vec::new();
        let mut len: Vec<usize> = Vec::new();
        let mut cap: Vec<usize> = Vec::new();
        for i in 0..self.parts.len()
            invariant
                ptr.len() == i,
                len.len() == i,
                cap.len() == i,
                forall|j: int| 0 <= j < i ==> #[trigger] ptr[j] == self.parts[j].addr,
                forall|j: int| 0 <= j < i ==> #[trigger] len[j] == self.parts[j].len,
                forall|j: int| 0 <= j < i ==> #[trigger] cap[j] == self.parts[j].cap,
        {
            let part = self.parts[i];
            ptr.push(part.addr);
            len.push(part.len);
            cap.push(part.cap);
        }
        proof {
            assert(ptr@ =~= self@.addrs());
            assert(len@ =~= self@.lens());
            assert(cap@ =~= self@.caps());
        }
        (ptr, len, cap, self.user_data)
    }

    /// The number of parts.
    pub fn len(&self) -> (r: usize)
        ensures
            r == self@.parts.len(),
    {
        self.parts.len()
    }

    /// The part with the given number.
    pub fn part(&self, i: usize) -> (r: BufPart)
        requires
            i < self@.parts.len(),
        ensures
            r == self@.parts[i as int],
    {
        self.parts[i]
    }

    /// Where the memory comes from.
    pub fn user_data(&self) -> (r: UserData)
        ensures
            r == self@.user_data,
    {
        self.user_data
    }

    /// The index under which the kernel knows the memory, if it is registered.
    pub fn fixed_index(&self) -> (r: Option<u16>)
        ensures
            r == self@.fixed_index(),
    {
        match self.user_data {
            UserData::Owned => None,
            UserData::Registry(info) => Some(info.index),
            UserData::Pool(info) => Some(info.index),
        }
    }

    /// The used bytes of each part.
    pub fn iovecs(&self) -> (r: Vec<IoVec>)
        ensures
            r@ == self@.iovecs(),
    {
        let mut iovecs: Vec<IoVec> = Vec::new();
        for i in 0..self.parts.len()
            invariant
                iovecs.len() == i,
                forall|j: int| 0 <= j < i ==> #[trigger] iovecs[j] == self.parts[j].used(),
        {
            let part = self.parts[i];
            iovecs.push(IoVec { base: part.addr, len: part.len });
        }
        assert(iovecs@ =~= self@.iovecs());
        iovecs
    }

    /// The number of bytes in use, over all parts.
    pub fn bytes_init(&self) -> (r: usize)
        requires
            self@.wf(),
        ensures
            r == total_len(self@.parts),
    {
        let mut sum: usize = 0;
        for i in 0..self.parts.len()
            invariant
                self@.wf(),
                sum == total_len(self.parts@.take(i as int)),
        {
            proof {
                lemma_total_cap_take(self.parts@, i as int);
                lemma_total_prefix(self.parts@, i + 1);
                lemma_len_within_cap(self.parts@);
            }
            sum = sum + self.parts[i].len;
        }
        assert(self.parts@.take(self.parts.len() as int) =~= self.parts@);
        sum
    }

    /// The capacity of all parts together.
    pub fn bytes_total(&self) -> (r: usize)
        requires
            self@.wf(),
        ensures
            r == total_cap(self@.parts),
    {
        let mut sum: usize = 0;
        for i in 0..self.parts.len()
            invariant
                self@.wf(),
                sum == total_cap(self.parts@.take(i as int)),
        {
            proof {
                lemma_total_cap_take(self.parts@, i as int);
                lemma_total_prefix(self.parts@, i + 1);
            }
            sum = sum + self.parts[i].cap;
        }
        assert(self.parts@.take(self.parts.len() as int) =~= self.parts@);
        sum
    }

    /// Puts the whole capacity of every part to use, so that the kernel may write
    /// to all of it.
    pub fn fill(&mut self)
        requires
            old(self)@.wf(),
        ensures
            final(self)@ == old(self)@.all_in_use(),
            final(self)@.wf(),
            total_len(final(self)@.parts) == total_cap(old(self)@.parts),
            total_cap(final(self)@.parts) == total_cap(old(self)@.parts),
    {
        let ghost parts = self.parts@;
        let count: usize = self.parts.len();
        for i in 0..count
            invariant
                self.parts.len() == parts.len() == count,
                self.user_data == old(self).user_data,
                parts == old(self)@.parts,
                forall|j: int|
                    0 <= j < i ==> #[trigger] self.parts[j] == all_in_use(parts)[j],
                forall|j: int| i <= j < parts.len() ==> #[trigger] self.parts[j] == parts[j],
        {
            let part = self.parts[i];
            self.parts.set(i, BufPart { len: part.cap, ..part });
        }
        proof {
            assert(self.parts@ =~= all_in_use(parts));
            lemma_all_in_use(parts);
        }
    }

    /// Records that the kernel wrote `n` bytes: exactly these are in use then, part
    /// after part in order.
    pub fn set_init(&mut self, n: usize)
        requires
            old(self)@.wf(),
            n <= total_cap(old(self)@.parts),
        ensures
            final(self)@ == old(self)@.with_len(n as nat),
            final(self)@.wf(),
            total_len(final(self)@.parts) == n,
            total_cap(final(self)@.parts) == total_cap(old(self)@.parts),
    {
        let ghost parts = self.parts@;
        let mut left: usize = n;
        let count: usize = self.parts.len();
        for i in 0..count
            invariant
                self.parts.len() == parts.len() == count,
                self.user_data == old(self).user_data,
                parts == old(self)@.parts,
                left == (if n <= total_cap(parts.take(i as int)) {
                    0
                } else {
                    n - total_cap(parts.take(i as int))
                }),
                forall|j: int|
                    0 <= j < i ==> #[trigger] self.parts[j] == with_len(parts, n as nat)[j],
                forall|j: int| i <= j < parts.len() ==> #[trigger] self.parts[j] == parts[j],
        {
            proof {
                lemma_total_cap_take(parts, i as int);
            }
            let part = self.parts[i];
            let len: usize = if left < part.cap {
                left
            } else {
                part.cap
            };
            self.parts.set(i, BufPart { len, ..part });
            left = left - len;
        }
        proof {
            assert(self.parts@ =~= with_len(parts, n as nat));
            lemma_with_len(parts, n as nat);
        }
    }
}

/// Taking a buffer apart gives what each part is made of, in the order of the parts.
pub proof fn law_raw_parts(buf: BufferView, i: int)
    requires
        0 <= i < buf.parts.len(),
    ensures
        buf.addrs().len() == buf.lens().len() == buf.caps().len() == buf.parts.len(),
        buf.parts[i] == (BufPart { addr: buf.addrs()[i], len: buf.lens()[i], cap: buf.caps()[i] }),
{
}

/// Taking a buffer apart and putting the pieces together gives the buffer back.
pub proof fn law_raw_parts_round_trip(buf: BufferView)
    ensures
        BufferView::from_raw(buf.addrs(), buf.lens(), buf.caps(), buf.user_data) == buf,
{
    assert(BufferView::from_raw(buf.addrs(), buf.lens(), buf.caps(), buf.user_data).parts
        =~= buf.parts);
}

} // verus!
