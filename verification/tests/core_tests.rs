use io_core::async_io::OperationResult;
use io_core::error::{IoError, IoErrorKind};
use io_core::flight::{PollLatch, SingleFlight};
use io_core::text::{str_cmp, str_eq, StrOrder};
use io_core::unix::{to_operation_error, AioError, Unix};
use io_core::vfs::check_path;
use io_core::virtual_io::{SeekFrom, VirtualIo};
use io_core::vfs::{dir_prefixes, parent_dir_exec};
use io_core::windows::{
    is_pending, open_flags, to_operation_result, BOOL, CREATE_ALWAYS, ERROR_HANDLE_EOF,
    ERROR_IO_INCOMPLETE, ERROR_IO_PENDING, Error, GENERIC_READ, GENERIC_WRITE, OPEN_EXISTING,
};

const EINPROGRESS: i32 = libc::EINPROGRESS;
const AIO_NOTCANCELED: i32 = libc::AIO_NOTCANCELED;

fn trait_len<M: io_core::traits::Metadata>(m: &M) -> u64 {
    m.len()
}

#[test]
fn round_trip_at_offset() {
    // Write a payload at a nonzero offset into a new file, then read its
    // length back from the same offset: the bytes come back exactly.
    let payload = b"payload bytes";
    let mut io = VirtualIo::new(&[]);
    let mut f = io.create("data.bin").unwrap();
    f.seek(&io, SeekFrom::Start(40)).unwrap();
    f.write(&mut io, payload).unwrap();
    let mut g = io.open("data.bin").unwrap();
    g.seek(&io, SeekFrom::Start(40)).unwrap();
    let mut buf = vec![0u8; payload.len()];
    let n = g.read(&io, &mut buf).unwrap();
    assert_eq!(n, payload.len());
    assert_eq!(&buf, payload);
}

#[test]
fn eof_read_is_success_zero() {
    let mut io = VirtualIo::new(&[]);
    io.write("short.txt", b"abc").unwrap();
    let mut f = io.open("short.txt").unwrap();
    f.seek(&io, SeekFrom::Start(3)).unwrap();
    let mut buf = vec![0u8; 16];
    assert_eq!(f.read(&io, &mut buf).unwrap(), 0);
    f.seek(&io, SeekFrom::Start(1000)).unwrap();
    assert_eq!(f.read(&io, &mut buf).unwrap(), 0);
}

#[test]
fn poll_latch_is_idempotent() {
    let mut latch = PollLatch::new();
    assert!(matches!(latch.record(OperationResult::Pending), OperationResult::Pending));
    assert!(matches!(latch.record(OperationResult::Pending), OperationResult::Pending));
    assert!(!latch.is_terminal());
    assert!(matches!(
        latch.record(OperationResult::Success(13)),
        OperationResult::Success(13)
    ));
    assert!(latch.is_terminal());
    // Once terminal, the latch never flips back, whatever is polled.
    assert!(matches!(latch.record(OperationResult::Pending), OperationResult::Success(13)));
    assert!(matches!(
        latch.record(OperationResult::Failure(IoError { code: 5, kind: IoErrorKind::Other })),
        OperationResult::Success(13)
    ));
}

#[test]
fn single_flight_rejects_second_issue() {
    let mut gate = SingleFlight::new();
    assert!(!gate.is_busy());
    assert!(gate.try_issue());
    assert!(gate.is_busy());
    assert!(!gate.try_issue());
    assert!(!gate.try_issue());
    gate.retire();
    assert!(!gate.is_busy());
    assert!(gate.try_issue());
}

#[test]
fn overlapped_result_translation() {
    // A successful query reports the transferred size.
    let r = to_operation_result(BOOL(1), 13, Error(0));
    assert!(matches!(r, OperationResult::Success(13)));
    // End-of-file is success with zero bytes, never a failure.
    let r = to_operation_result(BOOL(0), 7, Error(ERROR_HANDLE_EOF));
    assert!(matches!(r, OperationResult::Success(0)));
    // Both "pending" codes mean the transfer is simply not done yet.
    assert!(matches!(
        to_operation_result(BOOL(0), 0, Error(ERROR_IO_PENDING)),
        OperationResult::Pending
    ));
    assert!(matches!(
        to_operation_result(BOOL(0), 0, Error(ERROR_IO_INCOMPLETE)),
        OperationResult::Pending
    ));
    // Anything else carries the raw code out as a failure.
    match to_operation_result(BOOL(0), 0, Error(5)) {
        OperationResult::Failure(e) => {
            assert_eq!(e.code, 5);
            assert_eq!(e.kind, IoErrorKind::Other);
        }
        _ => panic!(),
    }
}

#[test]
fn overlapped_issue_translation() {
    assert!(io_core::windows::to_operation_error(BOOL(1), Error(0)).is_ok());
    assert!(io_core::windows::to_operation_error(BOOL(0), Error(ERROR_IO_PENDING)).is_ok());
    let e = io_core::windows::to_operation_error(BOOL(0), Error(6)).unwrap_err();
    assert_eq!(e.code, 6);
    assert!(is_pending(Error(ERROR_IO_PENDING)));
    assert!(!is_pending(Error(0)));
    assert!(BOOL(1).to_bool());
    assert!(!BOOL(0).to_bool());
    assert_eq!(Error(38).to_error().code, 38);
    let (access, disposition) = open_flags(true);
    assert_eq!(access.0, GENERIC_WRITE);
    assert_eq!(disposition.0, CREATE_ALWAYS);
    // Open-mode reads an existing file and fails on a missing one: it
    // must never carry a disposition that creates.
    let (access, disposition) = open_flags(false);
    assert_eq!(access.0, GENERIC_READ);
    assert_eq!(disposition.0, OPEN_EXISTING);
}

#[test]
fn control_block_open_flags() {
    assert_eq!(
        Unix::open_flags(true, libc::O_WRONLY, libc::O_CREAT, libc::O_TRUNC, libc::O_RDONLY),
        libc::O_WRONLY | libc::O_CREAT | libc::O_TRUNC
    );
    // Open-mode is read-only with no create flag, so a missing file
    // fails the open.
    assert_eq!(
        Unix::open_flags(false, libc::O_WRONLY, libc::O_CREAT, libc::O_TRUNC, libc::O_RDONLY),
        libc::O_RDONLY
    );
}

#[test]
fn stdout_write_through() {
    let mut io = VirtualIo::new(&[]);
    io.stdout_write(b"Hello, world!\x08?").unwrap();
    // What was printed through the environment lands in its capture
    // buffer, where a later reading sees it.
    assert_eq!(io.stdout().to_stdout(), "Hello, world?");
    assert_eq!(io.stdout.to_stdout(), "Hello, world?");
}

#[test]
fn path_splitting() {
    assert_eq!(parent_dir_exec("a/b/c.txt").unwrap(), "a/b");
    assert!(parent_dir_exec("c.txt").is_none());
    let p = dir_prefixes("a/b/c.txt");
    assert_eq!(p, ["a", "a/b"].to_vec());
    assert!(dir_prefixes("plain").is_empty());
}

#[test]
fn overlapped_offset_split() {
    let o = io_core::windows::OVERLAPPED_Offset::new(0x1_2345_6789);
    assert_eq!(o.Offset, 0x2345_6789);
    assert_eq!(o.OffsetHigh, 0x1);
    let z = io_core::windows::OVERLAPPED_Offset::new(7);
    assert_eq!(z.Offset, 7);
    assert_eq!(z.OffsetHigh, 0);
}

#[test]
fn control_block_result_translation() {
    assert!(matches!(
        Unix::get_result(AioError(0), 12, EINPROGRESS),
        OperationResult::Success(12)
    ));
    assert!(matches!(
        Unix::get_result(AioError(0), 0, EINPROGRESS),
        OperationResult::Success(0)
    ));
    assert!(matches!(
        Unix::get_result(AioError(EINPROGRESS), 0, EINPROGRESS),
        OperationResult::Pending
    ));
    match Unix::get_result(AioError(9), 0, EINPROGRESS) {
        OperationResult::Failure(e) => assert_eq!(e.code, 9),
        _ => panic!(),
    }
    assert!(to_operation_error(0, 0).is_ok());
    let e = to_operation_error(-1, 13).unwrap_err();
    assert_eq!(e.code, 13);
    assert!(Unix::cancel_settled(0, AIO_NOTCANCELED));
    assert!(!Unix::cancel_settled(AIO_NOTCANCELED, AIO_NOTCANCELED));
    assert!(Unix::drain_settled(AioError(0), EINPROGRESS));
    assert!(!Unix::drain_settled(AioError(EINPROGRESS), EINPROGRESS));
}

#[test]
fn string_order() {
    assert!(matches!(str_cmp("a", "b"), StrOrder::Less));
    assert!(matches!(str_cmp("b", "a"), StrOrder::Greater));
    assert!(matches!(str_cmp("ab", "ab"), StrOrder::Equal));
    assert!(matches!(str_cmp("ab", "abc"), StrOrder::Less));
    assert!(matches!(str_cmp("abc", "ab"), StrOrder::Greater));
    assert!(matches!(str_cmp("", "a"), StrOrder::Less));
    assert!(str_eq("same", "same"));
    assert!(!str_eq("same", "sane"));
}

#[test]
fn path_checking() {
    assert!(check_path("a/b_c.d-e42").is_ok());
    let e = check_path("?").unwrap_err();
    assert_eq!(e.kind, IoErrorKind::InvalidInput);
    assert_eq!(check_path("sp ace").unwrap_err().kind, IoErrorKind::InvalidInput);
}

#[test]
fn error_variants() {
    let mut io = VirtualIo::new(&[]);
    // A path naming nothing is not found.
    assert_eq!(io.open("missing").unwrap_err().kind, IoErrorKind::NotFound);
    // A path with a character outside the allowed set is invalid input.
    assert_eq!(io.create("?").unwrap_err().kind, IoErrorKind::InvalidInput);
    // A file that is not valid UTF-8 is invalid data when read as text.
    io.write("bin", &[0xffu8, 0xfe]).unwrap();
    assert_eq!(io.read_to_string("bin").unwrap_err().kind, IoErrorKind::InvalidData);
    assert!(IoError { code: 0, kind: IoErrorKind::NotFound }.is_not_found());
    assert_eq!(IoError::from_raw_os_error(3).code, 3);
}

#[test]
fn scenario_single_write_read() {
    // Create a file, write thirteen bytes, poll the operation's latch to a
    // terminal state, then read the file back through a large buffer: the
    // read reports exactly thirteen bytes and they equal the payload.
    let mut io = VirtualIo::new(&[]);
    let mut f = io.create("a.txt").unwrap();
    let written = f.write(&mut io, b"Hello, world!").unwrap();
    let mut latch = PollLatch::new();
    assert!(matches!(latch.record(OperationResult::Pending), OperationResult::Pending));
    assert!(matches!(
        latch.record(OperationResult::Success(written)),
        OperationResult::Success(13)
    ));
    let mut g = io.open("a.txt").unwrap();
    let mut buffer = vec![0u8; 1024];
    let n = g.read(&io, &mut buffer).unwrap();
    assert_eq!(n, 13);
    assert_eq!(&buffer[..13], b"Hello, world!");
}

#[test]
fn scenario_chunked_read() {
    // Write 1300 bytes, then read them back in 1024-byte chunks, advancing
    // the offset by the bytes actually transferred, stopping at a chunk
    // that reports zero bytes: the chunks concatenate to the original.
    let origin = "Hello, world!".repeat(100);
    let mut io = VirtualIo::new(&[]);
    let mut f = io.create("big.txt").unwrap();
    f.write(&mut io, origin.as_bytes()).unwrap();
    let mut collected: Vec<u8> = Vec::new();
    let mut g = io.open("big.txt").unwrap();
    loop {
        let mut buffer = vec![0u8; 1024];
        g.seek(&io, SeekFrom::Start(collected.len() as u64)).unwrap();
        let n = g.read(&io, &mut buffer).unwrap();
        if n == 0 {
            break;
        }
        collected.extend_from_slice(&buffer[..n]);
    }
    assert_eq!(collected.len(), 1300);
    assert_eq!(&collected, origin.as_bytes());
}

#[test]
fn listing_and_names() {
    let mut io = VirtualIo::new(&[]);
    io.create_dir("a").unwrap();
    io.write("a/x.txt", b"1").unwrap();
    io.write("a/y.txt", b"22").unwrap();
    io.create_dir("a/z").unwrap();
    let all = io.read_dir("a").unwrap();
    let names: Vec<String> = all.iter().map(|e| e.path()).collect();
    assert_eq!(names, ["a/x.txt", "a/y.txt", "a/z"].to_vec());
    assert_eq!(all[0].file_name(), "x.txt");
    let m = all[1].metadata().unwrap();
    assert_eq!(trait_len(&m), 2);
    let files = io.read_dir_type("a", false).unwrap();
    let file_names: Vec<String> = files.iter().map(|e| e.path()).collect();
    assert_eq!(file_names, ["a/x.txt", "a/y.txt"].to_vec());
    assert_eq!(io.read_dir("b").unwrap_err().kind, IoErrorKind::NotFound);
}

#[test]
fn create_truncates() {
    let mut io = VirtualIo::new(&[]);
    io.write("t", b"long contents").unwrap();
    io.create("t").unwrap();
    assert_eq!(io.read("t").unwrap().len(), 0);
}

#[test]
fn operation_result_terminal() {
    assert!(OperationResult::Success(0).is_terminal());
    assert!(OperationResult::Failure(IoError { code: 1, kind: IoErrorKind::Other }).is_terminal());
    assert!(!OperationResult::Pending.is_terminal());
}
