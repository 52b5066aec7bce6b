use sftp_server::backend::{BackendCall, BackendReply};
use sftp_server::common::{FileAttributes, Metadata};
use sftp_server::error::Error;
use sftp_server::server::{respond, Pending, Server, Step, Waiting};
use sftp_server::stream::packet::PayloadTrait;
use sftp_server::stream::packet::extended::{Request, Response};
use sftp_server::stream::packet::kind::PacketType;
use sftp_server::stream::packet::name::{File, Name};
use sftp_server::stream::packet::open::{Open, OpenFlags, OPEN_CREATE, OPEN_READ, OPEN_WRITE};
use sftp_server::stream::packet::request::{
    Close, FSetStat, Fstat, Lstat, MkDir, OpenDir, Read, ReadDir, ReadLink, RealPath, Remove,
    Rename, RmDir, SetStat, Stat, Symlink, Write,
};
use sftp_server::stream::packet::response::{Attrs, Data, Handle};
use sftp_server::stream::packet::status::{Status, StatusType};
use sftp_server::stream::packet::{Packet, Payload};
use std::collections::BTreeMap;

/// A backend that keeps files and directories in memory, under paths as
/// the client writes them.
struct Memory {
    dirs: Vec<String>,
    files: BTreeMap<String, Vec<u8>>,
    open: BTreeMap<u128, String>,
    last_opened: Option<String>,
}

impl Memory {
    fn new() -> Self {
        Memory { dirs: Vec::new(), files: BTreeMap::new(), open: BTreeMap::new(), last_opened: None }
    }

    fn metadata(&self, path: &str) -> Option<Metadata> {
        if path.is_empty() || path == "." || self.dirs.iter().any(|d| d == path) {
            Some(Metadata::new(path, 0, true, false, None, 1, 2, 0o755, 10, 20))
        } else {
            self.files
                .get(path)
                .map(|d| Metadata::new(path, d.len() as u64, false, true, None, 1, 2, 0o644, 10, 20))
        }
    }

    fn perform(&mut self, call: &BackendCall) -> BackendReply {
        match call {
            BackendCall::Metadata { path } => match self.metadata(path) {
                Some(m) => BackendReply::Metadata(m),
                None => BackendReply::Failed(Error::IO),
            },
            BackendCall::List { path } => {
                let mut entries = Vec::new();
                for d in &self.dirs {
                    entries.push(Metadata::new(d, 0, true, false, None, 1, 2, 0o755, 10, 20));
                }
                for (name, data) in &self.files {
                    entries.push(
                        Metadata::new(name, data.len() as u64, false, true, None, 1, 2, 0o644, 10, 20),
                    );
                }
                if path.is_empty() { BackendReply::Listing(entries) } else { BackendReply::Failed(Error::IO) }
            }
            BackendCall::Open { path, create, .. } => {
                if !self.files.contains_key(path) {
                    if !*create {
                        return BackendReply::Failed(Error::IO);
                    }
                    self.files.insert(path.clone(), Vec::new());
                }
                self.last_opened = Some(path.clone());
                BackendReply::Metadata(self.metadata(path).unwrap())
            }
            BackendCall::Read { handle, offset, len } => {
                let data = &self.files[&self.open[handle]];
                let start = (*offset as usize).min(data.len());
                let end = (start + *len as usize).min(data.len());
                let mut buffer = vec![0u8; *len as usize];
                buffer[..end - start].copy_from_slice(&data[start..end]);
                BackendReply::Read { data: buffer, count: end - start }
            }
            BackendCall::Write { handle, offset, data } => {
                let file = self.files.get_mut(&self.open[handle]).unwrap();
                let count = data.len().min(3);
                let start = *offset as usize;
                if file.len() < start + count {
                    file.resize(start + count, 0);
                }
                file[start..start + count].copy_from_slice(&data[..count]);
                BackendReply::Written { count }
            }
            BackendCall::SetMetadata { path, .. } => {
                if self.metadata(path).is_some() { BackendReply::Done } else { BackendReply::Failed(Error::Metadata) }
            }
            BackendCall::DeleteFile { path } => {
                if self.files.remove(path).is_some() { BackendReply::Done } else { BackendReply::Failed(Error::IO) }
            }
            BackendCall::MkDir { path } => {
                self.dirs.push(path.clone());
                BackendReply::Done
            }
            BackendCall::RmDir { path } => {
                let before = self.dirs.len();
                self.dirs.retain(|d| d != path);
                if self.dirs.len() < before { BackendReply::Done } else { BackendReply::Failed(Error::IO) }
            }
            BackendCall::Rename { from, to } => match self.files.remove(from) {
                Some(d) => {
                    self.files.insert(to.clone(), d);
                    BackendReply::Done
                }
                None => BackendReply::Failed(Error::IO),
            },
        }
    }
}

fn serve(server: &mut Server, backend: &mut Memory, request: Payload) -> Payload {
    let mut step = server.process_request(request.into_packet());
    loop {
        match step {
            Step::Respond(packet) => {
                assert_eq!(packet.header, packet.payload.header());
                if let Payload::Handle(h) = &packet.payload {
                    if let Some(path) = backend.last_opened.take() {
                        backend.open.insert(h.handle, path);
                    }
                }
                return packet.payload;
            }
            Step::Call(pending) => {
                let reply = backend.perform(&pending.call);
                step = server.resume(pending, reply);
            }
        }
    }
}

fn status(id: u32, status: StatusType, message: &str) -> Payload {
    Payload::Status(Status {
        id,
        status,
        message: message.to_string(),
        language: "en-US".to_string(),
    })
}

fn open(server: &mut Server, backend: &mut Memory, id: u32, path: &str) -> u128 {
    let request = Payload::Open(Open {
        id,
        path: path.to_string(),
        pflags: OpenFlags { bits: OPEN_READ | OPEN_WRITE | OPEN_CREATE },
        attrs: FileAttributes::new(),
    });
    match serve(server, backend, request) {
        Payload::Handle(Handle { id: got, handle }) => {
            assert_eq!(got, id);
            handle
        }
        other => panic!("no handle: {:?}", other),
    }
}

#[test]
fn init_is_answered_with_version_three() {
    let mut server = Server::new(0);
    let (request, _) = Packet::parse(&[0, 0, 0, 5, 1, 0, 0, 0, 3]).unwrap();
    match server.process_request(request) {
        Step::Respond(p) => assert_eq!(p.serialize(), vec![0, 0, 0, 5, 2, 0, 0, 0, 3]),
        other => panic!("no response: {:?}", other),
    }
    assert_eq!(
        serve(&mut server, &mut Memory::new(), Payload::init(6, vec![1, 2])),
        Payload::version(3, vec![])
    );
}

#[test]
fn mkdir_succeeds() {
    let mut server = Server::new(0);
    let mut backend = Memory::new();
    let bytes = [0u8, 0, 0, 0x0e, 0x0e, 0, 0, 0, 7, 0, 0, 0, 1, b'a', 0, 0, 0, 0];
    let (request, _) = Packet::parse(&bytes).unwrap();
    assert_eq!(serve(&mut server, &mut backend, request.payload), status(7, StatusType::OK, "OK"));
    assert_eq!(backend.dirs, vec!["a".to_string()]);
}

#[test]
fn a_directory_is_listed_once_and_whole() {
    let mut server = Server::new(0);
    let mut backend = Memory::new();
    let mkdir = Payload::MkDir(MkDir { id: 7, path: "a".to_string(), attrs: FileAttributes::new() });
    serve(&mut server, &mut backend, mkdir);
    let handle = match serve(
        &mut server,
        &mut backend,
        Payload::OpenDir(OpenDir { id: 8, path: "".to_string() }),
    ) {
        Payload::Handle(Handle { id: 8, handle }) => handle,
        other => panic!("no handle: {:?}", other),
    };
    assert!(server.is_live(handle));
    match serve(&mut server, &mut backend, Payload::ReadDir(ReadDir { id: 9, handle })) {
        Payload::Name(Name { id: 9, files }) => {
            assert_eq!(files.len(), 1);
            assert_eq!(files[0].filename, "a");
            assert_eq!(files[0].longname, "a");
            assert_eq!(files[0].attrs.flags.bits(), 15);
            assert_eq!(files[0].attrs.get_permissions().unwrap() & 0o040000, 0o040000);
        }
        other => panic!("no names: {:?}", other),
    }
    assert_eq!(
        serve(&mut server, &mut backend, Payload::ReadDir(ReadDir { id: 10, handle })),
        status(10, StatusType::EOF, "EOF")
    );
}

#[test]
fn three_files_are_listed_with_bare_and_joined_names() {
    let mut server = Server::new(0);
    let entries = vec![
        Metadata::new("x", 1, false, true, None, 1, 2, 0o644, 10, 20),
        Metadata::new("y", 2, false, true, None, 1, 2, 0o600, 11, 21),
        Metadata::new("z", 3, false, true, None, 1, 2, 0o640, 12, 22),
    ];
    let step = server.process_request(
        Payload::OpenDir(OpenDir { id: 1, path: "dir".to_string() }).into_packet(),
    );
    let pending = match step {
        Step::Call(p) => p,
        other => panic!("no call: {:?}", other),
    };
    assert_eq!(pending.call, BackendCall::List { path: "dir".to_string() });
    assert_eq!(pending.waiting, Waiting::OpenDir { path: "dir".to_string() });
    let handle = 77u128;
    let step = server.resume_with(pending, BackendReply::Listing(entries.clone()), handle);
    assert_eq!(step, Step::Respond(Payload::Handle(Handle { id: 1, handle }).into_packet()));
    let step = server.process_request(Payload::ReadDir(ReadDir { id: 2, handle }).into_packet());
    let files: Vec<File> = ["x", "y", "z"]
        .iter()
        .zip(entries.iter())
        .map(|(n, m)| File {
            filename: n.to_string(),
            longname: format!("dir/{}", n),
            attrs: FileAttributes::from_metadata(m),
        })
        .collect();
    assert_eq!(step, Step::Respond(Payload::Name(Name { id: 2, files }).into_packet()));
    let step = server.process_request(Payload::ReadDir(ReadDir { id: 3, handle }).into_packet());
    assert_eq!(step, Step::Respond(status(3, StatusType::EOF, "EOF").into_packet()));
}

#[test]
fn removing_what_is_not_there_fails() {
    let mut server = Server::new(0);
    let mut backend = Memory::new();
    let response = serve(
        &mut server,
        &mut backend,
        Payload::Remove(Remove { id: 9, path: "missing".to_string() }),
    );
    assert_eq!(response, status(9, StatusType::Failure, "Failed to delete file: I/O failure"));
    match response {
        Payload::Status(s) => assert!(s.message.contains("delete")),
        _ => unreachable!(),
    }
}

#[test]
fn what_is_written_is_read_back() {
    let mut server = Server::new(0);
    let mut backend = Memory::new();
    let handle = open(&mut server, &mut backend, 1, "f");
    let write = Payload::Write(Write { id: 10, handle, offset: 0, data: b"hello".to_vec() });
    assert_eq!(serve(&mut server, &mut backend, write), status(10, StatusType::OK, "OK"));
    assert_eq!(backend.files["f"], b"hello".to_vec());
    let read = Payload::Read(Read { id: 11, handle, offset: 0, len: 5 });
    assert_eq!(
        serve(&mut server, &mut backend, read),
        Payload::Data(Data { id: 11, data: b"hello".to_vec() })
    );
    let read = Payload::Read(Read { id: 12, handle, offset: 5, len: 1 });
    assert_eq!(serve(&mut server, &mut backend, read), status(12, StatusType::EOF, "EOF"));
    let read = Payload::Read(Read { id: 13, handle, offset: 3, len: 100 });
    assert_eq!(
        serve(&mut server, &mut backend, read),
        Payload::Data(Data { id: 13, data: b"lo".to_vec() })
    );
    let read = Payload::Read(Read { id: 14, handle, offset: 1000, len: 10 });
    assert_eq!(serve(&mut server, &mut backend, read), status(14, StatusType::EOF, "EOF"));
}

#[test]
fn a_write_goes_on_until_all_is_written() {
    let mut server = Server::new(0);
    let handle = 5u128;
    let pending = Pending {
        id: 1,
        waiting: Waiting::Open,
        call: BackendCall::Metadata { path: "f".to_string() },
    };
    let m = Metadata::new("f", 0, false, true, None, 1, 2, 0o644, 10, 20);
    server.resume_with(pending, BackendReply::Metadata(m), handle);
    let write = Payload::Write(Write { id: 2, handle, offset: 10, data: b"hello".to_vec() });
    let pending = match server.process_request(write.into_packet()) {
        Step::Call(p) => p,
        other => panic!("no call: {:?}", other),
    };
    assert_eq!(
        pending.call,
        BackendCall::Write { handle, offset: 10, data: b"hello".to_vec() }
    );
    let pending = match server.resume(pending, BackendReply::Written { count: 2 }) {
        Step::Call(p) => p,
        other => panic!("no call: {:?}", other),
    };
    assert_eq!(
        pending,
        Pending {
            id: 2,
            waiting: Waiting::Write,
            call: BackendCall::Write { handle, offset: 12, data: b"llo".to_vec() },
        }
    );
    assert_eq!(
        server.resume(pending, BackendReply::Written { count: 3 }),
        Step::Respond(status(2, StatusType::OK, "OK").into_packet())
    );
    let far = Pending {
        id: 3,
        waiting: Waiting::Write,
        call: BackendCall::Write { handle, offset: u64::MAX, data: vec![1, 2] },
    };
    assert_eq!(
        server.resume(far, BackendReply::Written { count: 1 }),
        Step::Respond(
            status(3, StatusType::Failure, "Failed to write: offset out of range").into_packet()
        )
    );
}

#[test]
fn real_path_names_the_clean_path() {
    let mut server = Server::new(0);
    let mut backend = Memory::new();
    backend.files.insert("./x/../y".to_string(), vec![1, 2, 3]);
    let response =
        serve(&mut server, &mut backend, Payload::real_path(13, "./x/../y"));
    let m = Metadata::new("./x/../y", 3, false, true, None, 1, 2, 0o644, 10, 20);
    let attrs = FileAttributes::from_metadata(&m);
    assert_eq!(
        response,
        Payload::Name(Name {
            id: 13,
            files: vec![File { filename: "y".to_string(), longname: "y".to_string(), attrs }],
        })
    );
    assert_eq!(
        serve(&mut server, &mut backend, Payload::real_path(14, "../up")),
        status(14, StatusType::Failure, "invalid path")
    );
    assert_eq!(
        serve(&mut server, &mut backend, Payload::real_path(15, "nowhere")),
        status(15, StatusType::Failure, "Failed to read metadata: I/O failure")
    );
}

#[test]
fn a_refused_path_is_named_in_the_failure() {
    let mut server = Server::new(0);
    let request = Payload::Stat(Stat { id: 4, path: "../x".to_string() });
    let pending = match server.process_request(request.into_packet()) {
        Step::Call(p) => p,
        other => panic!("no call: {:?}", other),
    };
    assert_eq!(pending.call, BackendCall::Metadata { path: "../x".to_string() });
    let step = server.resume(pending, BackendReply::Failed(Error::InvalidPath));
    assert_eq!(
        step,
        Step::Respond(
            status(4, StatusType::Failure, "Failed to read metadata: invalid path").into_packet()
        )
    );
}

#[test]
fn open_handles_are_distinct() {
    let mut server = Server::new(0);
    let mut backend = Memory::new();
    let mut handles = Vec::new();
    for i in 0..50u32 {
        handles.push(open(&mut server, &mut backend, i, &format!("f{}", i)));
    }
    for (i, h) in handles.iter().enumerate() {
        assert!(server.is_live(*h));
        assert!(!handles[..i].contains(h));
    }
    let closed = handles[0];
    assert_eq!(
        serve(&mut server, &mut backend, Payload::Close(Close { id: 99, handle: closed })),
        status(99, StatusType::OK, "OK")
    );
    for i in 0..50u32 {
        let again = open(&mut server, &mut backend, 100 + i, "f0");
        assert_ne!(again, closed);
        assert!(!handles.contains(&again));
        handles.push(again);
    }
}

#[test]
fn a_handle_in_use_is_not_given_out_again() {
    let mut server = Server::new(0);
    let m = Metadata::new("f", 0, false, true, None, 1, 2, 0o644, 10, 20);
    let pending = |id| Pending {
        id,
        waiting: Waiting::Open,
        call: BackendCall::Metadata { path: "f".to_string() },
    };
    assert_eq!(
        server.resume_with(pending(1), BackendReply::Metadata(m.clone()), 42),
        Step::Respond(Payload::Handle(Handle { id: 1, handle: 42 }).into_packet())
    );
    assert_eq!(
        server.resume_with(pending(2), BackendReply::Metadata(m.clone()), 42),
        Step::Respond(
            status(2, StatusType::Failure, "Failed to open file: no free handle").into_packet()
        )
    );
    let listing = Pending {
        id: 3,
        waiting: Waiting::OpenDir { path: "d".to_string() },
        call: BackendCall::List { path: "d".to_string() },
    };
    assert_eq!(
        server.resume_with(listing, BackendReply::Listing(vec![]), 42),
        Step::Respond(
            status(3, StatusType::Failure, "Failed to list directory: no free handle")
                .into_packet()
        )
    );
    assert!(server.is_live(42));
    assert!(!server.is_live(43));
}

#[test]
fn a_closed_handle_is_gone() {
    let mut server = Server::new(0);
    let mut backend = Memory::new();
    let handle = open(&mut server, &mut backend, 1, "f");
    assert_eq!(
        serve(&mut server, &mut backend, Payload::Close(Close { id: 2, handle })),
        status(2, StatusType::OK, "OK")
    );
    assert!(!server.is_live(handle));
    assert_eq!(
        serve(&mut server, &mut backend, Payload::Read(Read { id: 3, handle, offset: 0, len: 1 })),
        status(3, StatusType::NoSuchFile, "No such file")
    );
    assert_eq!(
        serve(
            &mut server,
            &mut backend,
            Payload::Write(Write { id: 4, handle, offset: 0, data: vec![1] })
        ),
        status(4, StatusType::NoSuchFile, "No such file")
    );
    assert_eq!(
        serve(&mut server, &mut backend, Payload::Fstat(Fstat { id: 5, handle })),
        status(5, StatusType::NoSuchFile, "Handle not found")
    );
    assert_eq!(
        serve(
            &mut server,
            &mut backend,
            Payload::FSetStat(FSetStat { id: 6, handle, attrs: FileAttributes::new() })
        ),
        status(6, StatusType::NoSuchFile, "Handle not found")
    );
    assert_eq!(
        serve(&mut server, &mut backend, Payload::ReadDir(ReadDir { id: 7, handle })),
        status(7, StatusType::NoSuchFile, "Handle not found")
    );
    let text = uuid::Uuid::from_u128(handle).to_string();
    assert_eq!(
        serve(&mut server, &mut backend, Payload::Close(Close { id: 8, handle })),
        status(8, StatusType::NoSuchFile, &format!("Handle {} does not exist", text))
    );
}

#[test]
fn closing_a_directory_gives_it_up() {
    let mut server = Server::new(0);
    let mut backend = Memory::new();
    let handle = match serve(
        &mut server,
        &mut backend,
        Payload::OpenDir(OpenDir { id: 8, path: "".to_string() }),
    ) {
        Payload::Handle(h) => h.handle,
        other => panic!("no handle: {:?}", other),
    };
    assert_eq!(
        serve(&mut server, &mut backend, Payload::Close(Close { id: 9, handle })),
        status(9, StatusType::OK, "OK")
    );
    assert!(!server.is_live(handle));
}

#[test]
fn attributes_of_paths_and_files() {
    let mut server = Server::new(0);
    let mut backend = Memory::new();
    backend.dirs.push("d".to_string());
    backend.files.insert("f".to_string(), vec![0; 9]);
    for (id, request) in [
        (1, Payload::Stat(Stat { id: 1, path: "d".to_string() })),
        (2, Payload::Lstat(Lstat { id: 2, path: "d".to_string() })),
    ] {
        match serve(&mut server, &mut backend, request) {
            Payload::Attrs(Attrs { id: got, attrs }) => {
                assert_eq!(got, id);
                assert_eq!(attrs.flags.bits(), 15);
                assert_eq!(attrs.get_permissions(), Some(0o040755));
            }
            other => panic!("no attributes: {:?}", other),
        }
    }
    let handle = open(&mut server, &mut backend, 3, "f");
    backend.files.insert("f".to_string(), vec![0; 100]);
    match serve(&mut server, &mut backend, Payload::Fstat(Fstat { id: 4, handle })) {
        Payload::Attrs(Attrs { id: 4, attrs }) => {
            assert_eq!(attrs.size, Some(9));
            assert_eq!(attrs.get_permissions(), Some(0o644));
            assert_eq!(attrs.get_uid_gid(), Some((1, 2)));
            assert_eq!(attrs.get_atime_mtime(), Some((10, 20)));
        }
        other => panic!("no attributes: {:?}", other),
    }
    assert_eq!(
        serve(&mut server, &mut backend, Payload::Stat(Stat { id: 5, path: "no".to_string() })),
        status(5, StatusType::Failure, "Failed to read metadata: I/O failure")
    );
}

#[test]
fn set_stat_hands_on_what_the_flags_announce() {
    let mut server = Server::new(0);
    let mut attrs = FileAttributes::new();
    attrs.set_uid_gid(5, 6);
    attrs.set_atime_mtime(7, 8);
    let request = Payload::SetStat(SetStat { id: 1, path: "p".to_string(), attrs });
    let step = server.process_request(request.into_packet());
    let expected = Pending {
        id: 1,
        waiting: Waiting::SetStat,
        call: BackendCall::SetMetadata {
            path: "p".to_string(),
            uid_and_gid: Some((5, 6)),
            permissions: None,
            atime_and_mtime: Some((7, 8)),
        },
    };
    assert_eq!(step, Step::Call(expected.clone()));
    assert_eq!(
        server.resume(expected.clone(), BackendReply::Done),
        Step::Respond(status(1, StatusType::OK, "OK").into_packet())
    );
    assert_eq!(
        server.resume(expected, BackendReply::Failed(Error::Metadata)),
        Step::Respond(
            status(1, StatusType::Failure, "Failed to set metadata: metadata error").into_packet()
        )
    );
    let mut backend = Memory::new();
    backend.files.insert("held".to_string(), vec![]);
    let handle = open(&mut server, &mut backend, 2, "held");
    let mut attrs = FileAttributes::new();
    attrs.set_permissions(0o600);
    let step = server
        .process_request(Payload::FSetStat(FSetStat { id: 3, handle, attrs }).into_packet());
    assert_eq!(
        step,
        Step::Call(Pending {
            id: 3,
            waiting: Waiting::SetStat,
            call: BackendCall::SetMetadata {
                path: "held".to_string(),
                uid_and_gid: None,
                permissions: Some(0o600),
                atime_and_mtime: None,
            },
        })
    );
}

#[test]
fn open_decodes_its_flags() {
    let mut server = Server::new(0);
    let request = Payload::Open(Open {
        id: 1,
        path: "p".to_string(),
        pflags: OpenFlags { bits: 0x8000_0000 | 0x01 | 0x04 | 0x10 },
        attrs: FileAttributes::new(),
    });
    assert_eq!(
        server.process_request(request.into_packet()),
        Step::Call(Pending {
            id: 1,
            waiting: Waiting::Open,
            call: BackendCall::Open {
                path: "p".to_string(),
                read: true,
                write: false,
                append: true,
                create: false,
                truncate: true,
                create_new: false,
            },
        })
    );
    let failed = Pending {
        id: 1,
        waiting: Waiting::Open,
        call: BackendCall::Metadata { path: "p".to_string() },
    };
    assert_eq!(
        server.resume(failed, BackendReply::Failed(Error::IO)),
        Step::Respond(
            status(1, StatusType::Failure, "Failed to open file: I/O failure").into_packet()
        )
    );
}

#[test]
fn files_and_directories_come_and_go() {
    let mut server = Server::new(0);
    let mut backend = Memory::new();
    backend.files.insert("a".to_string(), vec![1]);
    assert_eq!(
        serve(
            &mut server,
            &mut backend,
            Payload::Rename(Rename { id: 1, oldpath: "a".to_string(), newpath: "b".to_string() })
        ),
        status(1, StatusType::OK, "OK")
    );
    assert!(backend.files.contains_key("b"));
    assert_eq!(
        serve(
            &mut server,
            &mut backend,
            Payload::Rename(Rename { id: 2, oldpath: "a".to_string(), newpath: "c".to_string() })
        ),
        status(2, StatusType::Failure, "Failed to rename: I/O failure")
    );
    assert_eq!(
        serve(&mut server, &mut backend, Payload::RmDir(RmDir { id: 3, path: "d".to_string() })),
        status(3, StatusType::Failure, "Failed to delete directory: I/O failure")
    );
    backend.dirs.push("d".to_string());
    assert_eq!(
        serve(&mut server, &mut backend, Payload::RmDir(RmDir { id: 4, path: "d".to_string() })),
        status(4, StatusType::OK, "OK")
    );
    assert_eq!(
        serve(&mut server, &mut backend, Payload::Remove(Remove { id: 5, path: "b".to_string() })),
        status(5, StatusType::OK, "OK")
    );
    let failed = Pending {
        id: 6,
        waiting: Waiting::MkDir,
        call: BackendCall::MkDir { path: "d".to_string() },
    };
    assert_eq!(
        server.resume(failed, BackendReply::Failed(Error::IO)),
        Step::Respond(
            status(6, StatusType::Failure, "Failed to create directory: I/O failure")
                .into_packet()
        )
    );
}

#[test]
fn what_is_not_carried_out_is_unsupported() {
    let mut server = Server::new(0);
    let mut backend = Memory::new();
    let requests = vec![
        Payload::ReadLink(ReadLink { id: 1, path: "l".to_string() }),
        Payload::Symlink(Symlink {
            id: 1,
            linkpath: "l".to_string(),
            targetpath: "t".to_string(),
        }),
        Payload::Extended(Request { id: 1, request: "x@y".to_string(), data: vec![] }),
    ];
    for request in requests {
        assert_eq!(
            serve(&mut server, &mut backend, request),
            status(1, StatusType::OpUnsupported, "Operation unsupported")
        );
    }
}

#[test]
fn responses_are_no_requests() {
    let mut server = Server::new(0);
    let mut backend = Memory::new();
    let responses = vec![
        (0, Payload::version(3, vec![])),
        (2, status(2, StatusType::OK, "OK")),
        (3, Payload::Handle(Handle { id: 3, handle: 1 })),
        (4, Payload::Data(Data { id: 4, data: vec![] })),
        (5, Payload::Name(Name::new(5))),
        (6, Payload::Attrs(Attrs { id: 6, attrs: FileAttributes::new() })),
        (7, Payload::ExtendedReply(Response { id: 7, data: vec![] })),
    ];
    for (id, response) in responses {
        assert_eq!(
            serve(&mut server, &mut backend, response),
            status(id, StatusType::BadMessage, "Bad message")
        );
    }
}

#[test]
fn an_answer_that_fits_no_request_is_a_failure() {
    let mut server = Server::new(0);
    let pending = Pending {
        id: 1,
        waiting: Waiting::Remove,
        call: BackendCall::DeleteFile { path: "p".to_string() },
    };
    let unexpected = status(1, StatusType::Failure, "Unexpected answer from the backend");
    assert_eq!(
        server.resume(pending.clone(), BackendReply::Written { count: 1 }),
        Step::Respond(unexpected.clone().into_packet())
    );
    assert_eq!(
        server.resume(pending, BackendReply::Listing(vec![])),
        Step::Respond(unexpected.into_packet())
    );
}

#[test]
fn a_read_answers_with_what_was_filled() {
    let mut server = Server::new(0);
    let pending = |id| Pending {
        id,
        waiting: Waiting::Read { handle: 1, offset: 0 },
        call: BackendCall::Read { handle: 1, offset: 0, len: 4 },
    };
    assert_eq!(
        server.resume(pending(1), BackendReply::Read { data: vec![1, 2, 3, 4], count: 2 }),
        Step::Respond(Payload::Data(Data { id: 1, data: vec![1, 2] }).into_packet())
    );
    assert_eq!(
        server.resume(pending(2), BackendReply::Read { data: vec![1, 2, 3, 4], count: 9 }),
        Step::Respond(Payload::Data(Data { id: 2, data: vec![1, 2, 3, 4] }).into_packet())
    );
    assert_eq!(
        server.resume(pending(3), BackendReply::Read { data: vec![0; 4], count: 0 }),
        Step::Respond(status(3, StatusType::EOF, "EOF").into_packet())
    );
    assert_eq!(
        server.resume(pending(4), BackendReply::Failed(Error::IO)),
        Step::Respond(status(4, StatusType::Failure, "Failed to read: I/O failure").into_packet())
    );
}

#[test]
fn responses_are_well_formed_packets() {
    let packet = respond(Payload::Data(Data { id: 1, data: vec![7; 100] }));
    assert_eq!(packet.header.kind, PacketType::Data);
    assert_eq!(packet.header.length, 1 + 4 + 4 + 100);
    assert_eq!(Server::new(3).id, 3);
}

#[test]
fn a_bad_payload_is_a_bad_message() {
    let mut server = Server::new(0);
    assert_eq!(
        server.process_frame(sftp_server::reassembly::Frame::Malformed { id: 9 }),
        Step::Respond(status(9, StatusType::BadMessage, "error decoding packet").into_packet())
    );
    let request = Payload::ReadLink(ReadLink { id: 1, path: "l".to_string() }).into_packet();
    assert_eq!(
        server.process_frame(sftp_server::reassembly::Frame::Packet(request)),
        Step::Respond(status(1, StatusType::OpUnsupported, "Operation unsupported").into_packet())
    );
}
