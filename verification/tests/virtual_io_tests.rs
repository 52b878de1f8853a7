use io_core::vfs::Metadata;
use io_core::virtual_io::{SeekFrom, VirtualIo};

fn check_len(m: &Metadata, f: fn(m: &Metadata) -> u64, len: u64) {
    assert_eq!(f(m), len);
}

#[test]
fn lib_test() {
    let mut io = VirtualIo::new(&[]);
    io.write("test.txt", "Hello, world!".as_bytes()).unwrap();
    let result = io.read_to_string("test.txt").unwrap();
    assert_eq!(result, "Hello, world!");
    check_len(&io.metadata("test.txt").unwrap(), Metadata::len, 13);
    assert_eq!(io.current_dir().unwrap(), "");
}

#[test]
fn test_args() {
    let mut io = VirtualIo::new(&[]);
    io.args = ["a".to_string(), "b".to_string()].to_vec();
    let x = io.args();
    assert_eq!(&x, &["a", "b"]);
}

#[test]
fn test_stdout() {
    {
        let io = VirtualIo::new(&[]);
        let mut s = io.stdout();
        s.write(b"Hello, world!\x08?").unwrap();
        assert_eq!(s.to_stdout(), "Hello, world?");
    }
    {
        let io = VirtualIo::new(&[]);
        let mut s = io.stdout();
        s.write(b"Hello, world!\x08\x08?").unwrap();
        assert_eq!(s.to_stdout(), "Hello, worl?!");
    }
}

#[test]
fn test_write() {
    let mut io = VirtualIo::new(&[]);
    io.write("test.txt", "Hello, world!".as_bytes()).unwrap();
    let result = io.read("test.txt").unwrap();
    assert_eq!(result, "Hello, world!".as_bytes());
}

#[test]
fn test_write_file() {
    let mut i = VirtualIo::new(&[]);
    {
        let mut f = i.create("test.txt").unwrap();
        f.write(&mut i, "Hello, world!".as_bytes()).unwrap();
        f.write(&mut i, "?".as_bytes()).unwrap();
        f.flush().unwrap();
        let m = f.metadata(&i).unwrap();
        assert_eq!(m.len(), 14);
        assert!(!m.is_dir());
    }
    let result = i.read("test.txt").unwrap();
    assert_eq!(result, "Hello, world!?".as_bytes());
}

#[test]
fn test_write_seek() {
    let mut io = VirtualIo::new(&[]);
    {
        let mut f = io.create("test.txt").unwrap();
        f.write(&mut io, "Hello, world!".as_bytes()).unwrap();
        f.seek(&io, SeekFrom::Start(7)).unwrap();
        f.write(&mut io, "there!".as_bytes()).unwrap();
        f.flush().unwrap();
        let m = f.metadata(&io).unwrap();
        assert_eq!(m.len(), 13);
        assert!(!m.is_dir());
    }
    let result = io.read("test.txt").unwrap();
    assert_eq!(result, "Hello, there!".as_bytes());
}

#[test]
fn test_write_seek_current() {
    let mut io = VirtualIo::new(&[]);
    {
        let mut f = io.create("test.txt").unwrap();
        f.write(&mut io, "Hello, world!".as_bytes()).unwrap();
        f.seek(&io, SeekFrom::Current(2)).unwrap();
        f.write(&mut io, "there".as_bytes()).unwrap();
        f.flush().unwrap();
        let m = f.metadata(&io).unwrap();
        assert_eq!(m.len(), 20);
        assert!(!m.is_dir());
    }
    let result = io.read("test.txt").unwrap();
    assert_eq!(result, "Hello, world!\0\0there".as_bytes());
}

#[test]
fn test_write_seek_end() {
    let mut io = VirtualIo::new(&[]);
    {
        let mut f = io.create("test.txt").unwrap();
        f.write(&mut io, "Hello, world!".as_bytes()).unwrap();
        f.seek(&io, SeekFrom::End(-2)).unwrap();
        f.write(&mut io, "there".as_bytes()).unwrap();
        f.flush().unwrap();
        let m = f.metadata(&io).unwrap();
        assert_eq!(m.len(), 16);
        assert!(!m.is_dir());
    }
    let result = io.read("test.txt").unwrap();
    assert_eq!(result, "Hello, worlthere".as_bytes());
}

#[test]
fn test_dir_fail() {
    let mut io = VirtualIo::new(&[]);
    assert!(io.write("a/test.txt", "Hello, world!".as_bytes()).is_err());
    assert!(io.open("a").is_err());
}

#[test]
fn test_write_recursively() {
    let mut io = VirtualIo::new(&[]);
    assert!(io
        .write_recursively("a/test.txt", "Hello, world!".as_bytes())
        .is_ok());
    assert!(io
        .write_recursively("a/test2.txt", "Hello, world!".as_bytes())
        .is_ok());
    assert!(io.open("a").is_err());
}

#[test]
fn test_dir_rec() {
    let mut io = VirtualIo::new(&[]);
    assert!(io
        .write_recursively("a/b/test.txt", "Hello, world!".as_bytes())
        .is_ok());
    let x = io
        .read_dir_type("a", true)
        .unwrap()
        .iter()
        .map(|v| v.path())
        .collect::<Vec<_>>();
    assert_eq!(x, ["a/b"].to_vec());
}

#[test]
fn test_err() {
    let mut io = VirtualIo::new(&[]);
    assert!(io
        .write_recursively("?", "Hello, world!".as_bytes())
        .is_err());
}

#[test]
fn test_now() {
    let mut io = VirtualIo::new(&[]);
    assert_eq!(io.now().as_millis(), 0);
    assert_eq!(io.now().as_millis(), 1);
}

#[test]
fn test_metadata() {
    let mut io = VirtualIo::new(&[]);
    io.write("test.txt", "Hello, world!".as_bytes()).unwrap();
    io.create_dir("a").unwrap();
    {
        let m = io.metadata("test.txt").unwrap();
        check_len(&m, Metadata::len, 13);
        assert!(!m.is_dir());
    }
    {
        io.metadata("test.txt/").unwrap_err();
    }
    {
        io.metadata("b").unwrap_err();
    }
    {
        let m = io.metadata("a").unwrap();
        assert!(m.is_dir());
    }
    {
        let m = io.metadata("a/").unwrap();
        assert!(m.is_dir());
    }
}

#[test]
fn test_set_current_dir() {
    let io = VirtualIo::new(&[]);
    assert!(io.set_current_dir("").is_ok());
    assert!(io.set_current_dir("a").is_err());
}
