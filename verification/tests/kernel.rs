//! The operations against a small stand-in for the kernel, which holds one file,
//! some memory and the table of registered buffers.

use tokio_uring::buf::bounded::BoundedBuf;
use tokio_uring::buf::buffer::{BufPart, Buffer};
use tokio_uring::buf::fixed::pool::{self, FixedBufPool, NextStep};
use tokio_uring::buf::fixed::registry::{self, FixedBufRegistry};
use tokio_uring::buf::slice::Slice;
use tokio_uring::driver::context::Context;
use tokio_uring::driver::cqe::{CqeResult, Entry};
use tokio_uring::driver::sqe::{IoVec, Op, RegisterRequest, Sqe};
use tokio_uring::error::{BufError, BufResult, Error};
use tokio_uring::io::read_fixed::ReadFixed;
use tokio_uring::io::read_write::Unsubmitted;
use tokio_uring::io::shared_fd::SharedFd;
use tokio_uring::io::write_fixed::WriteFixed;

const HELLO: &[u8] = b"hello world...";

const EBUSY: i32 = 16;
const ENXIO: i32 = 6;
const EFAULT: i32 = 14;

struct Kernel {
    context: Context,
    file: Vec<u8>,
    memory: Vec<(usize, Vec<u8>)>,
    table: Option<Vec<IoVec>>,
}

impl Kernel {
    fn new(file: &[u8]) -> Kernel {
        Kernel {
            context: Context::new(),
            file: file.to_vec(),
            memory: Vec::new(),
            table: None,
        }
    }

    fn allocate(&mut self, cap: usize) -> Buffer {
        let addr = 0x1000 + self.memory.len() * 0x10000;
        self.memory.push((addr, vec![0xaa; cap]));
        Buffer::new(vec![BufPart { addr, len: 0, cap }])
    }

    fn allocate_with(&mut self, bytes: &[u8]) -> Buffer {
        let addr = 0x1000 + self.memory.len() * 0x10000;
        self.memory.push((addr, bytes.to_vec()));
        Buffer::new(vec![BufPart { addr, len: bytes.len(), cap: bytes.len() }])
    }

    fn at(&mut self, addr: usize, len: usize) -> &mut [u8] {
        for (base, bytes) in self.memory.iter_mut() {
            if *base <= addr && addr + len <= *base + bytes.len() {
                let start = addr - *base;
                return &mut bytes[start..start + len];
            }
        }
        panic!("no memory at {:#x}", addr);
    }

    /// The used bytes of one part of a buffer.
    fn bytes(&mut self, buf: &Buffer, part: usize) -> Vec<u8> {
        let part = buf.part(part);
        self.at(part.addr, part.len).to_vec()
    }

    /// The used bytes of a window.
    fn window_bytes(&mut self, window: &Slice) -> Vec<u8> {
        self.at(window.stable_ptr(), window.bytes_init()).to_vec()
    }

    /// Copies bytes to the start of a buffer and puts them to use.
    fn put_slice(&mut self, buf: &mut Buffer, bytes: &[u8]) {
        let addr = buf.part(0).addr;
        self.at(addr, bytes.len()).copy_from_slice(bytes);
        buf.set_init(bytes.len());
    }

    fn register(&mut self, request: RegisterRequest) -> Result<(), Error> {
        match request {
            RegisterRequest::Register(iovecs) => {
                if self.table.is_some() {
                    return Err(Error::Os(EBUSY));
                }
                self.table = Some(iovecs);
                Ok(())
            }
            RegisterRequest::Unregister => match self.table.take() {
                Some(_) => Ok(()),
                None => Err(Error::Os(ENXIO)),
            },
        }
    }

    fn in_table(&self, addr: usize, len: usize, index: u16) -> bool {
        match &self.table {
            Some(table) => match table.get(index as usize) {
                Some(range) => range.base <= addr && addr + len <= range.base + range.len,
                None => false,
            },
            None => false,
        }
    }

    fn read(&mut self, addr: usize, len: usize, offset: usize) -> usize {
        let from = offset.min(self.file.len());
        let n = len.min(self.file.len() - from);
        let bytes = self.file[from..from + n].to_vec();
        self.at(addr, n).copy_from_slice(&bytes);
        n
    }

    fn write(&mut self, addr: usize, len: usize, offset: usize) -> usize {
        let bytes = self.at(addr, len).to_vec();
        if self.file.len() < offset + len {
            self.file.resize(offset + len, 0);
        }
        self.file[offset..offset + len].copy_from_slice(&bytes);
        len
    }

    fn perform(&mut self, sqe: &Sqe) -> Entry {
        let result = match sqe {
            Sqe::Read { addr, len, offset, .. } => {
                self.read(*addr, *len as usize, *offset as usize) as i32
            }
            Sqe::Write { addr, len, offset, .. } => {
                self.write(*addr, *len as usize, *offset as usize) as i32
            }
            Sqe::ReadFixed { addr, len, buf_index, offset, .. } => {
                if self.in_table(*addr, *len as usize, *buf_index) {
                    self.read(*addr, *len as usize, *offset as usize) as i32
                } else {
                    -EFAULT
                }
            }
            Sqe::WriteFixed { addr, len, buf_index, offset, .. } => {
                if self.in_table(*addr, *len as usize, *buf_index) {
                    self.write(*addr, *len as usize, *offset as usize) as i32
                } else {
                    -EFAULT
                }
            }
            Sqe::Readv { iovecs, count, offset, .. } => {
                assert_eq!(iovecs.len(), *count as usize);
                let mut done = 0;
                for iovec in iovecs.iter() {
                    done += self.read(iovec.base, iovec.len, *offset as usize + done);
                }
                done as i32
            }
            Sqe::Writev { iovecs, count, offset, .. } => {
                assert_eq!(iovecs.len(), *count as usize);
                let mut done = 0;
                for iovec in iovecs.iter() {
                    done += self.write(iovec.base, iovec.len, *offset as usize + done);
                }
                done as i32
            }
            _ => panic!("not a file operation"),
        };
        Entry { result, flags: 0 }
    }
}

fn fd() -> SharedFd {
    SharedFd::new(3)
}

fn registry_of(kernel: &mut Kernel, caps: &[usize]) -> FixedBufRegistry {
    let bufs = caps.iter().map(|&n| kernel.allocate(n)).collect();
    let registration = registry::register(&kernel.context, bufs).ok().unwrap();
    let reply = kernel.register(registration.request());
    registration.complete(&mut kernel.context, reply).ok().unwrap()
}

fn pool_of(kernel: &mut Kernel, caps: &[usize]) -> FixedBufPool {
    let bufs = caps.iter().map(|&n| kernel.allocate(n)).collect();
    let registration = pool::register(&kernel.context, bufs).ok().unwrap();
    let reply = kernel.register(registration.request());
    registration.complete(&mut kernel.context, reply).ok().unwrap()
}

fn read_fixed_at<T: BoundedBuf>(
    kernel: &mut Kernel,
    buf: T,
    offset: u64,
) -> BufResult<usize, T> {
    let op = Op::<ReadFixed<T>>::read_fixed_at(&fd(), buf, offset);
    let user_data = op.data.buf.get_buf().user_data();
    kernel.context.operation_started(user_data);
    let cqe = kernel.perform(&op.sqe);
    kernel.context.operation_finished(user_data);
    op.data.complete(CqeResult::new(cqe))
}

fn write_fixed_at<T: BoundedBuf>(
    kernel: &mut Kernel,
    buf: T,
    offset: u64,
) -> BufResult<usize, T> {
    let op = Op::<WriteFixed<T>>::write_fixed_at(&fd(), buf, offset);
    let user_data = op.data.buf.get_buf().user_data();
    kernel.context.operation_started(user_data);
    let cqe = kernel.perform(&op.sqe);
    kernel.context.operation_finished(user_data);
    op.data.complete(CqeResult::new(cqe))
}

fn submit(kernel: &mut Kernel, op: Unsubmitted) -> BufResult<usize, Buffer> {
    let cqe = kernel.perform(&op.sqe);
    op.post_op.transform_oneshot_output(op.stable_data, cqe)
}

fn read_hello(kernel: &mut Kernel) {
    let buf = kernel.allocate(1024);
    let (n, buf) = submit(kernel, Unsubmitted::read_at(&fd(), buf, 0)).ok().unwrap();
    assert_eq!(n, HELLO.len());
    assert_eq!(&kernel.bytes(&buf, 0)[..n], HELLO);
}

fn slice_all(buf: Buffer) -> Slice {
    let end = buf.bytes_total();
    Slice::new(buf, 0, end)
}

#[test]
fn fixed_buf_turnaround() {
    let mut kernel = Kernel::new(HELLO);
    let mut buffers = registry_of(&mut kernel, &[30, 20, 10]);

    let fixed_buf = buffers.check_out(0).unwrap();
    assert_eq!(fixed_buf.bytes_total(), 30);

    // Can't check out the same buffer twice.
    assert!(buffers.check_out(0).is_none());

    // Checking out another buffer from the same registry is possible,
    // but does not affect the status of the first buffer.
    let fixed_buf1 = buffers.check_out(1).unwrap();
    assert_eq!(fixed_buf1.bytes_total(), 20);
    assert!(buffers.check_out(0).is_none());
    buffers.check_in(fixed_buf1);
    assert!(buffers.check_out(0).is_none());

    let op = Op::<ReadFixed<Buffer>>::read_fixed_at(&fd(), fixed_buf, 0);

    // The buffer is used by the pending operation, can't check it out
    // for another instance.
    assert!(buffers.check_out(0).is_none());

    let cqe = kernel.perform(&op.sqe);
    let (n, buf) = op.data.complete(CqeResult::new(cqe)).ok().unwrap();
    assert_eq!(n, HELLO.len());

    // The buffer is owned by `buf`, can't check it out
    // for another instance.
    assert!(buffers.check_out(0).is_none());

    buffers.check_in(buf);

    // The buffer has been released, check it out again.
    let fixed_buf = buffers.check_out(0).unwrap();
    assert_eq!(fixed_buf.bytes_total(), 30);
    assert_eq!(fixed_buf.bytes_init(), HELLO.len());
}

#[test]
fn unregister_invalidates_checked_out_buffers() {
    let mut kernel = Kernel::new(HELLO);
    let mut buffers = registry_of(&mut kernel, &[1024]);

    let fixed_buf = buffers.check_out(0).unwrap();

    // Replace the buffer registration in the kernel.
    let request = registry::unregister(&kernel.context).unwrap();
    let reply = kernel.register(request);
    registry::complete_unregister(&mut kernel.context, reply).unwrap();
    let mut buffers = registry_of(&mut kernel, &[1024]);

    // The old buffer's index no longer matches the memory area of the
    // currently registered buffer, so the read operation using the old
    // buffer's memory should fail.
    let res = read_fixed_at(&mut kernel, fixed_buf, 0);
    assert!(res.is_err());

    let fixed_buf = buffers.check_out(0).unwrap();
    let (n, buf) = read_fixed_at(&mut kernel, fixed_buf, 0).ok().unwrap();
    assert_eq!(n, HELLO.len());
    assert_eq!(&kernel.bytes(&buf, 0)[..], HELLO);
}

#[test]
fn slicing() {
    let mut kernel = Kernel::new(HELLO);
    let mut buffers = registry_of(&mut kernel, &[1024]);

    let fixed_buf = buffers.check_out(0).unwrap();

    // Read no more than 8 bytes into the fixed buffer.
    let (n, slice) = read_fixed_at(&mut kernel, Slice::new(fixed_buf, 0, 8), 3).ok().unwrap();
    assert_eq!(n, 8);
    assert_eq!(kernel.window_bytes(&slice)[..], HELLO[3..11]);
    let fixed_buf = slice.into_inner();

    // Write from the fixed buffer, starting at offset 1,
    // up to the end of the initialized bytes in the buffer.
    let (n, slice) = write_fixed_at(
        &mut kernel,
        Slice::new(fixed_buf, 1, 1024),
        HELLO.len() as u64,
    )
    .ok()
    .unwrap();
    assert_eq!(n, 7);
    assert_eq!(kernel.window_bytes(&slice)[..], HELLO[4..11]);
    let fixed_buf = slice.into_inner();

    // Read into the fixed buffer, overwriting bytes starting from offset 3
    // and then extending the initialized part with as many bytes as
    // the operation can read.
    let (n, slice) = read_fixed_at(&mut kernel, Slice::new(fixed_buf, 3, 1024), 0).ok().unwrap();
    assert_eq!(n, HELLO.len() + 7);
    let bytes = kernel.window_bytes(&slice);
    assert_eq!(bytes[..HELLO.len()], HELLO[..]);
    assert_eq!(bytes[HELLO.len()..], HELLO[4..11]);
}

#[test]
fn pool_next_as_concurrency_limit() {
    const BUF_SIZE: usize = 80;

    let mut kernel = Kernel::new(b"");
    let mut buffers = pool_of(&mut kernel, &[BUF_SIZE, BUF_SIZE]);
    let mut in_flight: Vec<(Op<WriteFixed<Buffer>>, u8)> = Vec::new();

    for i in 0..10u8 {
        let mut step = buffers.next(BUF_SIZE);
        let mut buf = loop {
            match step {
                NextStep::Ready(buf) => break buf,
                NextStep::Wait => {
                    // Two writes are in flight; the older one completes.
                    assert_eq!(in_flight.len(), 2);
                    let (op, _) = in_flight.remove(0);
                    let cqe = kernel.perform(&op.sqe);
                    let (n, buf) = op.data.complete(CqeResult::new(cqe)).ok().unwrap();
                    assert_eq!(n, BUF_SIZE);
                    assert_eq!(buffers.check_in(buf), Some(BUF_SIZE));
                    step = buffers.next_when_notified(BUF_SIZE);
                }
            }
        };
        let data = [b'0' + i; BUF_SIZE];
        kernel.put_slice(&mut buf, &data);
        let op = Op::<WriteFixed<Buffer>>::write_fixed_at(&fd(), buf, BUF_SIZE as u64 * i as u64);
        in_flight.push((op, i));
    }
    for (op, _) in in_flight {
        let cqe = kernel.perform(&op.sqe);
        let (_, buf) = op.data.complete(CqeResult::new(cqe)).ok().unwrap();
        buffers.check_in(buf);
    }

    assert_eq!(kernel.file.len(), 10 * BUF_SIZE);
    for (i, chunk) in kernel.file.chunks(BUF_SIZE).enumerate() {
        assert_eq!(chunk, &[b'0' + i as u8; BUF_SIZE][..]);
    }
}

#[test]
fn basic_read() {
    let mut kernel = Kernel::new(HELLO);
    read_hello(&mut kernel);
}

#[test]
fn basic_write() {
    let mut kernel = Kernel::new(b"");
    let buf = kernel.allocate_with(HELLO);
    submit(&mut kernel, Unsubmitted::write_at(&fd(), buf, 0)).ok().unwrap();
    assert_eq!(kernel.file, HELLO);
}

#[test]
fn vectored_read() {
    let mut kernel = Kernel::new(HELLO);
    let parts = vec![kernel.allocate(5).part(0), kernel.allocate(9).part(0)];
    let bufs = Buffer::new(parts);
    let (n, bufs) = submit(&mut kernel, Unsubmitted::read_at(&fd(), bufs, 0)).ok().unwrap();

    assert_eq!(n, HELLO.len());
    assert_eq!(kernel.bytes(&bufs, 1)[0], b' ');
}

#[test]
fn vectored_write() {
    let mut kernel = Kernel::new(b"");
    let parts = vec![
        kernel.allocate_with(b"hello").part(0),
        kernel.allocate_with(b" world...").part(0),
    ];
    let bufs = Buffer::new(parts);
    submit(&mut kernel, Unsubmitted::write_at(&fd(), bufs, 0)).ok().unwrap();
    assert_eq!(kernel.file, HELLO);
}

#[test]
fn read_fixed() {
    let mut kernel = Kernel::new(HELLO);
    let mut buffers = registry_of(&mut kernel, &[6, 1024]);

    let fixed_buf = buffers.check_out(0).unwrap();
    assert_eq!(fixed_buf.bytes_total(), 6);
    let (n, buf) = read_fixed_at(&mut kernel, slice_all(fixed_buf), 0).ok().unwrap();

    assert_eq!(n, 6);
    assert_eq!(&kernel.window_bytes(&buf)[..], &HELLO[..6]);

    let fixed_buf = buffers.check_out(1).unwrap();
    assert_eq!(fixed_buf.bytes_total(), 1024);
    let (n, buf) = read_fixed_at(&mut kernel, slice_all(fixed_buf), 6).ok().unwrap();

    assert_eq!(n, HELLO.len() - 6);
    assert_eq!(&kernel.window_bytes(&buf)[..], &HELLO[6..]);
}

#[test]
fn write_fixed() {
    let mut kernel = Kernel::new(b"");
    let mut buffers = registry_of(&mut kernel, &[6, 1024]);

    let mut buf = buffers.check_out(0).unwrap();
    kernel.put_slice(&mut buf, &HELLO[..6]);

    let (n, _) = write_fixed_at(&mut kernel, buf, 0).ok().unwrap();
    assert_eq!(n, 6);

    let mut buf = buffers.check_out(1).unwrap();
    kernel.put_slice(&mut buf, &HELLO[6..]);

    let (n, _) = write_fixed_at(&mut kernel, buf, 6).ok().unwrap();
    assert_eq!(n, HELLO.len() - 6);

    assert_eq!(kernel.file, HELLO);
}

#[test]
fn registered_buffers_take_the_fixed_operations() {
    let mut kernel = Kernel::new(HELLO);
    let mut buffers = pool_of(&mut kernel, &[32, 64]);
    let buf = buffers.try_next(64).unwrap();
    let addr = buf.part(0).addr;
    let op = Unsubmitted::read_at(&fd(), buf, 5);
    assert_eq!(
        op.sqe,
        Sqe::ReadFixed { fd: 3, addr, len: 64, buf_index: 1, offset: 5 }
    );
    let (n, buf) = submit(&mut kernel, op).ok().unwrap();
    assert_eq!(n, HELLO.len() - 5);
    let op = Unsubmitted::write_at(&fd(), buf, 100);
    assert_eq!(
        op.sqe,
        Sqe::WriteFixed { fd: 3, addr, len: 9, buf_index: 1, offset: 100 }
    );
    let (n, buf) = submit(&mut kernel, op).ok().unwrap();
    assert_eq!(n, 9);
    assert_eq!(kernel.file[100..], HELLO[5..]);
    assert_eq!(buffers.check_in(buf), None);
}

#[test]
fn only_one_collection_is_registered_at_a_time() {
    let mut kernel = Kernel::new(HELLO);
    let _buffers = registry_of(&mut kernel, &[8]);
    let bufs = vec![kernel.allocate(8)];
    assert_eq!(
        pool::register(&kernel.context, bufs).err(),
        Some(Error::AlreadyRegistered)
    );
    let bufs = vec![kernel.allocate(8)];
    assert_eq!(
        registry::register(&kernel.context, bufs).err(),
        Some(Error::AlreadyRegistered)
    );

    // What is registered is a registry, not a pool.
    assert_eq!(pool::unregister(&kernel.context), Err(Error::NotRegistered));
    let request = registry::unregister(&kernel.context).unwrap();
    let reply = kernel.register(request);
    assert_eq!(registry::complete_unregister(&mut kernel.context, reply), Ok(()));
    assert_eq!(registry::unregister(&kernel.context), Err(Error::NotRegistered));

    let _buffers = pool_of(&mut kernel, &[8]);
    assert_eq!(registry::unregister(&kernel.context), Err(Error::NotRegistered));
    assert_eq!(pool::unregister(&kernel.context), Ok(RegisterRequest::Unregister));
    // The kernel refuses; the pool stays registered.
    let reply = Err(Error::Os(ENXIO));
    assert_eq!(
        pool::complete_unregister(&mut kernel.context, reply),
        Err(Error::Os(ENXIO))
    );
    assert_eq!(pool::unregister(&kernel.context), Ok(RegisterRequest::Unregister));
}

#[test]
fn registry_stays_registered_while_its_buffers_are_in_flight() {
    let mut kernel = Kernel::new(HELLO);
    let mut buffers = registry_of(&mut kernel, &[16, 16]);
    let first = Op::<ReadFixed<Buffer>>::read_fixed_at(&fd(), buffers.check_out(0).unwrap(), 0);
    let second = Unsubmitted::read_at(&fd(), buffers.check_out(1).unwrap(), 0);
    let (data0, data1) = (first.data.buf.user_data(), second.stable_data.buf.user_data());

    // The buffers are checked out, which is no obstacle by itself.
    assert_eq!(registry::unregister(&kernel.context), Ok(RegisterRequest::Unregister));

    kernel.context.operation_started(data0);
    kernel.context.operation_started(data1);
    assert_eq!(registry::unregister(&kernel.context), Err(Error::BuffersInUse));

    let cqe = kernel.perform(&first.sqe);
    kernel.context.operation_finished(data0);
    let (_, buf) = first.data.complete(CqeResult::new(cqe)).ok().unwrap();
    assert_eq!(registry::unregister(&kernel.context), Err(Error::BuffersInUse));

    // A failed operation is over, too.
    kernel.context.operation_finished(data1);
    let cqe = Entry { result: -EFAULT, flags: 0 };
    assert!(second.post_op.transform_oneshot_output(second.stable_data, cqe).is_err());

    assert_eq!(buf.bytes_init(), HELLO.len());
    let request = registry::unregister(&kernel.context).unwrap();
    let reply = kernel.register(request);
    assert_eq!(registry::complete_unregister(&mut kernel.context, reply), Ok(()));
}

#[test]
fn only_buffers_of_a_registry_keep_it_registered() {
    let mut kernel = Kernel::new(HELLO);
    let mut buffers = pool_of(&mut kernel, &[16]);
    let pooled = buffers.try_next(16).unwrap().user_data();
    let owned = kernel.allocate(16).user_data();
    kernel.context.operation_started(pooled);
    kernel.context.operation_started(owned);
    assert_eq!(kernel.context.in_flight, 0);

    let request = pool::unregister(&kernel.context).unwrap();
    let reply = kernel.register(request);
    assert_eq!(pool::complete_unregister(&mut kernel.context, reply), Ok(()));

    let _buffers = registry_of(&mut kernel, &[16]);
    assert_eq!(registry::unregister(&kernel.context), Ok(RegisterRequest::Unregister));
    kernel.context.operation_finished(pooled);
    kernel.context.operation_finished(owned);
    assert_eq!(kernel.context.in_flight, 0);
}

#[test]
fn refused_registration_keeps_the_error() {
    let mut context = Context::new();
    let mut kernel = Kernel::new(HELLO);
    let registration = registry::register(&context, vec![kernel.allocate(8)]).ok().unwrap();
    assert_eq!(
        registration.complete(&mut context, Err(Error::Os(12))).err(),
        Some(Error::Os(12))
    );
    // Nothing is registered, so that another attempt may be made.
    let registration = pool::register(&context, vec![kernel.allocate(8)]).ok().unwrap();
    assert_eq!(
        registration.complete(&mut context, Err(Error::Os(EBUSY))).err(),
        Some(Error::Os(EBUSY))
    );
    assert_eq!(pool::unregister(&context), Err(Error::NotRegistered));
}

#[test]
fn failed_read_hands_the_buffer_back() {
    let mut kernel = Kernel::new(HELLO);
    let buf = kernel.allocate(16);
    let op = Unsubmitted::read_at(&fd(), buf, 0);
    let cqe = Entry { result: -9, flags: 0 };
    match op.post_op.transform_oneshot_output(op.stable_data, cqe) {
        Err(BufError(error, buf)) => {
            assert_eq!(error, Error::Os(9));
            assert_eq!(buf.bytes_total(), 16);
        }
        Ok(_) => panic!("the read failed"),
    }
}

#[test]
fn failed_fixed_operations_hand_the_buffer_back() {
    let mut kernel = Kernel::new(HELLO);
    let mut buffers = registry_of(&mut kernel, &[16]);
    let buf = buffers.check_out(0).unwrap();
    let op = Op::<ReadFixed<Buffer>>::read_fixed_at(&fd(), buf, 0);
    let cqe = CqeResult::new(Entry { result: -5, flags: 0 });
    let buf = match op.data.complete(cqe) {
        Err(BufError(error, buf)) => {
            assert_eq!(error, Error::Os(5));
            assert_eq!(buf.bytes_init(), 0);
            buf
        }
        Ok(_) => panic!("the read failed"),
    };
    let op = Op::<WriteFixed<Buffer>>::write_fixed_at(&fd(), buf, 0);
    match op.data.complete(cqe) {
        Err(BufError(error, buf)) => {
            assert_eq!(error, Error::Os(5));
            buffers.check_in(buf);
        }
        Ok(_) => panic!("the write failed"),
    }
    assert!(buffers.check_out(0).is_some());
}

#[test]
fn partial_read_puts_only_the_bytes_read_to_use() {
    let mut kernel = Kernel::new(&HELLO[..7]);
    let parts = vec![kernel.allocate(5).part(0), kernel.allocate(9).part(0)];
    let (n, bufs) = submit(&mut kernel, Unsubmitted::read_at(&fd(), Buffer::new(parts), 0))
        .ok()
        .unwrap();
    assert_eq!(n, 7);
    assert_eq!(bufs.bytes_init(), 7);
    assert_eq!(kernel.bytes(&bufs, 0), b"hello");
    assert_eq!(kernel.bytes(&bufs, 1), b" w");
}
