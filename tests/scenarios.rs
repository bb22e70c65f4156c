//! The library driven against an in-memory stand-in for the server's
//! large-object functions, the way a caller with a real connection drives it.
use std::cell::RefCell;
use std::collections::HashMap;

use postgres_large_object::{
    classify, copy_read_reply, negotiate, open_call, parse_server_version, position_from_reply,
    Call, LargeObject,
    LoError, Mode, SeekFrom, INV_WRITE,
};

enum Answer {
    Nothing,
    Int(i64),
    Bytes(Vec<u8>),
}

struct Descriptor {
    oid: u32,
    writable: bool,
    pos: i64,
}

struct Server {
    version: &'static str,
    objects: HashMap<u32, Vec<u8>>,
    next_oid: u32,
    fds: HashMap<i32, Descriptor>,
    next_fd: i32,
    closes: usize,
}

const UNDEFINED_OBJECT: &str = "42704";
const NOT_WRITABLE: &str = "55000";
const INVALID_PARAMETER: &str = "22023";
const MAX_OBJECT_SIZE: i64 = 4_398_046_509_056;

impl Server {
    fn new(version: &'static str) -> RefCell<Server> {
        RefCell::new(Server {
            version,
            objects: HashMap::new(),
            next_oid: 16384,
            fds: HashMap::new(),
            next_fd: 0,
            closes: 0,
        })
    }

    fn call(&mut self, call: &Call, buf: &[u8]) -> Result<Answer, &'static str> {
        match *call {
            Call::Create => {
                let oid = self.next_oid;
                self.next_oid += 1;
                self.objects.insert(oid, Vec::new());
                Ok(Answer::Int(oid as i64))
            }
            Call::Unlink { oid } => match self.objects.remove(&oid) {
                Some(_) => Ok(Answer::Int(1)),
                None => Err(UNDEFINED_OBJECT),
            },
            Call::Open { oid, flags } => {
                if !self.objects.contains_key(&oid) {
                    return Err(UNDEFINED_OBJECT);
                }
                let fd = self.next_fd;
                self.next_fd += 1;
                self.fds.insert(fd, Descriptor { oid, writable: flags & INV_WRITE != 0, pos: 0 });
                Ok(Answer::Int(fd as i64))
            }
            Call::Read { fd, len } => {
                let d = self.fds.get_mut(&fd).ok_or(UNDEFINED_OBJECT)?;
                let data = &self.objects[&d.oid];
                let from = (d.pos as usize).min(data.len());
                let to = (from + len as usize).min(data.len());
                d.pos += (to - from) as i64;
                Ok(Answer::Bytes(data[from..to].to_vec()))
            }
            Call::Write { fd, start, end } => {
                let d = self.fds.get_mut(&fd).ok_or(UNDEFINED_OBJECT)?;
                if !d.writable {
                    return Err(NOT_WRITABLE);
                }
                let data = self.objects.get_mut(&d.oid).unwrap();
                let pos = d.pos as usize;
                let bytes = &buf[start..end];
                if d.pos + bytes.len() as i64 > MAX_OBJECT_SIZE {
                    return Err(INVALID_PARAMETER);
                }
                if data.len() < pos + bytes.len() {
                    data.resize(pos + bytes.len(), 0);
                }
                data[pos..pos + bytes.len()].copy_from_slice(bytes);
                d.pos += bytes.len() as i64;
                Ok(Answer::Nothing)
            }
            Call::Seek { fd, offset, whence } => self.seek(fd, offset as i64, whence, i32::MAX as i64),
            Call::Seek64 { fd, offset, whence } => self.seek(fd, offset, whence, MAX_OBJECT_SIZE),
            Call::Truncate { fd, len } => self.truncate(fd, len as i64),
            Call::Truncate64 { fd, len } => self.truncate(fd, len),
            Call::Close { fd } => {
                self.fds.remove(&fd).ok_or(UNDEFINED_OBJECT)?;
                self.closes += 1;
                Ok(Answer::Nothing)
            }
        }
    }

    fn seek(&mut self, fd: i32, offset: i64, whence: i32, limit: i64) -> Result<Answer, &'static str> {
        let d = self.fds.get_mut(&fd).ok_or(UNDEFINED_OBJECT)?;
        let base = match whence {
            0 => 0,
            1 => d.pos,
            2 => self.objects[&d.oid].len() as i64,
            _ => return Err(INVALID_PARAMETER),
        };
        let pos = base + offset;
        if pos < 0 || pos > limit {
            return Err(INVALID_PARAMETER);
        }
        d.pos = pos;
        Ok(Answer::Int(pos))
    }

    fn truncate(&mut self, fd: i32, len: i64) -> Result<Answer, &'static str> {
        let d = self.fds.get(&fd).ok_or(UNDEFINED_OBJECT)?;
        if !d.writable {
            return Err(NOT_WRITABLE);
        }
        if len < 0 || len > MAX_OBJECT_SIZE {
            return Err(INVALID_PARAMETER);
        }
        self.objects.get_mut(&d.oid).unwrap().resize(len as usize, 0);
        Ok(Answer::Nothing)
    }
}

fn run(server: &RefCell<Server>, call: Call, buf: &[u8]) -> Result<Answer, LoError> {
    server.borrow_mut().call(&call, buf).map_err(|code| classify(Some(code), &call))
}

fn create(server: &RefCell<Server>) -> Result<u32, LoError> {
    match run(server, Call::Create, &[])? {
        Answer::Int(oid) => Ok(oid as u32),
        _ => Err(LoError::Protocol),
    }
}

fn delete(server: &RefCell<Server>, oid: u32) -> Result<(), LoError> {
    run(server, Call::Unlink { oid }, &[]).map(|_| ())
}

struct Handle<'s> {
    server: &'s RefCell<Server>,
    lo: LargeObject,
}

fn open(server: &RefCell<Server>, oid: u32, mode: Mode) -> Result<Handle<'_>, LoError> {
    let version = server.borrow().version;
    assert!(parse_server_version(version).is_some(), "malformed server version");
    let has_64 = negotiate(version);
    match run(server, open_call(oid, mode), &[])? {
        Answer::Int(fd) => Ok(Handle { server, lo: LargeObject::new(fd as i32, has_64) }),
        _ => Err(LoError::Protocol),
    }
}

impl<'s> Handle<'s> {
    fn write_all(&mut self, buf: &[u8]) -> Result<(), LoError> {
        let mut written = 0;
        while let Some(call) = self.lo.write_call(buf.len(), written) {
            run(self.server, call, buf)?;
            if let Call::Write { end, .. } = call {
                written = end;
            }
        }
        Ok(())
    }

    fn read(&mut self, buf: &mut [u8]) -> Result<usize, LoError> {
        match run(self.server, self.lo.read_call(buf.len()), &[])? {
            Answer::Bytes(data) => Ok(copy_read_reply(buf, &data)),
            _ => Err(LoError::Protocol),
        }
    }

    fn read_to_end(&mut self, out: &mut Vec<u8>) -> Result<(), LoError> {
        let mut chunk = [0u8; 4];
        loop {
            let n = self.read(&mut chunk)?;
            if n == 0 {
                return Ok(());
            }
            out.extend_from_slice(&chunk[..n]);
        }
    }

    fn position(&mut self, call: Call) -> Result<u64, LoError> {
        match run(self.server, call, &[])? {
            Answer::Int(v) => position_from_reply(v),
            _ => Err(LoError::Protocol),
        }
    }

    fn seek(&mut self, pos: SeekFrom) -> Result<u64, LoError> {
        let call = self.lo.seek(pos)?;
        self.position(call)
    }

    fn tell(&mut self) -> Result<u64, LoError> {
        let call = self.lo.tell();
        self.position(call)
    }

    fn truncate(&mut self, len: i64) -> Result<(), LoError> {
        let call = self.lo.truncate(len)?;
        run(self.server, call, &[]).map(|_| ())
    }

    fn finish_inner(&mut self) -> Result<(), LoError> {
        match self.lo.close_call() {
            Some(call) => run(self.server, call, &[]).map(|_| ()),
            None => Ok(()),
        }
    }

    fn finish(mut self) -> Result<(), LoError> {
        self.finish_inner()
    }
}

impl<'s> Drop for Handle<'s> {
    fn drop(&mut self) {
        let _ = self.finish_inner();
    }
}

#[test]
fn test_create_delete() {
    let conn = Server::new("16.2");
    let oid = create(&conn).unwrap();
    delete(&conn, oid).unwrap();
}

#[test]
fn test_delete_bogus() {
    let conn = Server::new("16.2");
    match delete(&conn, 0) {
        Ok(()) => panic!("unexpected success"),
        Err(LoError::NotFound) => {}
        Err(e) => panic!("unexpected error: {:?}", e),
    }
}

#[test]
fn test_open_bogus() {
    let conn = Server::new("16.2");
    match open(&conn, 0, Mode::Read) {
        Ok(_) => panic!("unexpected success"),
        Err(LoError::NotFound) => {}
        Err(e) => panic!("unexpected error: {:?}", e),
    };
}

#[test]
fn test_open_finish() {
    let conn = Server::new("16.2");
    let oid = create(&conn).unwrap();
    let lo = open(&conn, oid, Mode::Read).unwrap();
    lo.finish().unwrap();
    assert_eq!(conn.borrow().closes, 1);
}

#[test]
fn test_write_read() {
    let conn = Server::new("16.2");
    let oid = create(&conn).unwrap();
    let mut lo = open(&conn, oid, Mode::Write).unwrap();
    lo.write_all(b"hello world!!!").unwrap();
    let mut lo = open(&conn, oid, Mode::Read).unwrap();
    let mut out = vec![];
    lo.read_to_end(&mut out).unwrap();
    assert_eq!(out, b"hello world!!!");
}

fn seek_tell_on(version: &'static str) {
    let conn = Server::new(version);
    let oid = create(&conn).unwrap();
    let mut lo = open(&conn, oid, Mode::Write).unwrap();
    lo.write_all(b"hello world!!!").unwrap();

    assert_eq!(14, lo.seek(SeekFrom::Current(0)).unwrap());
    assert_eq!(1, lo.seek(SeekFrom::Start(1)).unwrap());
    let mut buf = [0];
    assert_eq!(1, lo.read(&mut buf).unwrap());
    assert_eq!(b'e', buf[0]);
    assert_eq!(2, lo.seek(SeekFrom::Current(0)).unwrap());
    assert_eq!(10, lo.seek(SeekFrom::End(-4)).unwrap());
    assert_eq!(1, lo.read(&mut buf).unwrap());
    assert_eq!(b'd', buf[0]);
    assert_eq!(8, lo.seek(SeekFrom::Current(-3)).unwrap());
    assert_eq!(1, lo.read(&mut buf).unwrap());
    assert_eq!(b'r', buf[0]);
}

#[test]
fn test_seek_tell() {
    seek_tell_on("16.2");
}

#[test]
fn seek_tell_with_32_bit_calls() {
    seek_tell_on("9.2.24");
}

#[test]
fn test_write_with_read_fd() {
    let conn = Server::new("16.2");
    let oid = create(&conn).unwrap();
    let mut lo = open(&conn, oid, Mode::Read).unwrap();
    assert!(lo.write_all(b"hello world!!!").is_err());
    assert_eq!(lo.write_all(b"hello world!!!"), Err(LoError::Permission));
}

#[test]
fn test_truncate() {
    let conn = Server::new("16.2");
    let oid = create(&conn).unwrap();
    let mut lo = open(&conn, oid, Mode::Write).unwrap();
    lo.write_all(b"hello world!!!").unwrap();

    lo.truncate(5).unwrap();
    lo.seek(SeekFrom::Start(0)).unwrap();
    let mut buf = vec![];
    lo.read_to_end(&mut buf).unwrap();
    assert_eq!(buf, b"hello");
    lo.truncate(10).unwrap();
    lo.seek(SeekFrom::Start(0)).unwrap();
    buf.clear();
    lo.read_to_end(&mut buf).unwrap();
    assert_eq!(buf, b"hello\0\0\0\0\0");
}

#[test]
fn truncate_beyond_32_bit_range_makes_no_call() {
    let conn = Server::new("9.1");
    let oid = create(&conn).unwrap();
    let mut lo = open(&conn, oid, Mode::Write).unwrap();
    assert_eq!(lo.truncate(1 << 32), Err(LoError::InvalidArgument));
    assert_eq!(lo.seek(SeekFrom::Start(1 << 32)), Err(LoError::InvalidArgument));
    assert_eq!(lo.tell(), Ok(0));
}

#[test]
fn finish_then_drop_closes_once() {
    let conn = Server::new("16.2");
    let oid = create(&conn).unwrap();
    {
        let mut lo = open(&conn, oid, Mode::Read).unwrap();
        lo.finish_inner().unwrap();
        lo.finish_inner().unwrap();
        lo.finish().unwrap();
    }
    assert_eq!(conn.borrow().closes, 1);
    {
        let _lo = open(&conn, oid, Mode::Read).unwrap();
    }
    assert_eq!(conn.borrow().closes, 2);
}

#[test]
fn seek_then_tell_agrees() {
    for version in ["9.0", "12.1"] {
        let conn = Server::new(version);
        let oid = create(&conn).unwrap();
        let mut lo = open(&conn, oid, Mode::ReadWrite).unwrap();
        lo.write_all(b"0123456789").unwrap();
        for pos in [SeekFrom::Start(0), SeekFrom::Start(7), SeekFrom::End(-2), SeekFrom::Current(-3),
                    SeekFrom::Start(100), SeekFrom::End(5)] {
            let at = lo.seek(pos).unwrap();
            assert_eq!(lo.tell().unwrap(), at);
        }
        assert_eq!(lo.seek(SeekFrom::Current(-1000)), Err(LoError::Protocol));
    }
    let conn = Server::new("16.2");
    let oid = create(&conn).unwrap();
    let mut lo = open(&conn, oid, Mode::Write).unwrap();
    assert_eq!(lo.seek(SeekFrom::Start(1 << 40)), Ok(1 << 40));
    assert_eq!(lo.seek(SeekFrom::Start(1 << 50)), Err(LoError::Protocol));
}
