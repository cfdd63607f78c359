use actix_web::web::Bytes;
use std::collections::VecDeque;
use std::io::{Error, ErrorKind};
use stream_buffering::config::FileBufferingStreamWrapper;
use stream_buffering::error::{BufferingError, StreamError};
use stream_buffering::stream::{Action, Event, FileBufferingStream};

type Source = VecDeque<Result<Bytes, String>>;
type Item = Option<Result<Bytes, StreamError<String>>>;

/// A filesystem of one file, kept in memory, that fails on request.
struct Disk {
    dir: String,
    name: String,
    content: Vec<u8>,
    position: usize,
    created: usize,
    rewinds: usize,
    fail_next: bool,
}

fn empty_disk() -> Disk {
    Disk {
        dir: String::new(),
        name: String::new(),
        content: Vec::new(),
        position: 0,
        created: 0,
        rewinds: 0,
        fail_next: false,
    }
}

fn refused(disk: &mut Disk) -> Option<Error> {
    if disk.fail_next {
        disk.fail_next = false;
        Some(Error::new(ErrorKind::Other, "refused"))
    } else {
        None
    }
}

/// Carries out one request of the stream on the disk.
fn perform(disk: &mut Disk, action: Action<String>) -> Event<String> {
    match action {
        Action::CreateFile { dir, name, head, tail } => match refused(disk) {
            Some(e) => Event::Stored(Err(e)),
            None => {
                disk.dir = dir;
                disk.name = name;
                disk.content = head.to_vec();
                disk.content.extend_from_slice(&tail);
                disk.position = disk.content.len();
                disk.created += 1;
                Event::Stored(Ok(()))
            }
        },
        Action::AppendFile { data } => match refused(disk) {
            Some(e) => Event::Stored(Err(e)),
            None => {
                disk.content.truncate(disk.position);
                disk.content.extend_from_slice(&data);
                disk.position = disk.content.len();
                Event::Stored(Ok(()))
            }
        },
        Action::ReadFile { rewind, len } => {
            if rewind {
                disk.position = 0;
                disk.rewinds += 1;
            }
            match refused(disk) {
                Some(e) => Event::Loaded(Err(e)),
                None => {
                    let data = disk.content[disk.position..disk.position + len].to_vec();
                    disk.position += len;
                    Event::Loaded(Ok(data))
                }
            }
        }
        other => panic!("not a request to the filesystem: {:?}", other),
    }
}

/// Drives one production step to its end, as a driver does.
fn produce(stream: &mut FileBufferingStream<Source>, disk: &mut Disk) -> Item {
    let mut event = Event::Demand;
    loop {
        assert!(stream.admits(&event));
        event = match stream.step(event) {
            Action::PollSource => Event::Source(stream.source_mut().pop_front()),
            Action::Yield(item) => return item,
            request => perform(disk, request),
        };
    }
}

fn source_of(chunks: &[&str]) -> Source {
    chunks.iter().map(|c| Ok(Bytes::copy_from_slice(c.as_bytes()))).collect()
}

fn wrapper() -> FileBufferingStreamWrapper {
    FileBufferingStreamWrapper::new(String::from("/tmp"))
}

fn chunk_of(item: Item) -> Vec<u8> {
    match item {
        Some(Ok(bytes)) => bytes.to_vec(),
        other => panic!("expected a chunk, got {:?}", other),
    }
}

/// Drains the source to its end and returns the chunks that were yielded.
fn drain(stream: &mut FileBufferingStream<Source>, disk: &mut Disk) -> Vec<Vec<u8>> {
    let mut chunks = Vec::new();
    while !stream.is_drained() {
        match produce(stream, disk) {
            Some(Ok(bytes)) => chunks.push(bytes.to_vec()),
            Some(Err(_)) => {}
            None => {}
        }
    }
    chunks
}

/// Replays one pass and returns its chunks.
fn pass(stream: &mut FileBufferingStream<Source>, disk: &mut Disk) -> Vec<Vec<u8>> {
    let mut chunks = Vec::new();
    loop {
        match produce(stream, disk) {
            Some(Ok(bytes)) => chunks.push(bytes.to_vec()),
            Some(Err(e)) => panic!("replay failed: {:?}", e),
            None => return chunks,
        }
    }
}

#[test]
fn example_in_memory_replay() {
    let mut stream =
        wrapper().threshold(10).produce_chunk_size(4).wrap(source_of(&["hello", "world"]));
    let mut disk = empty_disk();
    assert_eq!(chunk_of(produce(&mut stream, &mut disk)), b"hello");
    assert_eq!(chunk_of(produce(&mut stream, &mut disk)), b"world");
    assert!(produce(&mut stream, &mut disk).is_none());
    assert!(stream.is_drained());
    assert!(stream.backing_file().is_none());
    assert_eq!(disk.created, 0);
    assert_eq!(chunk_of(produce(&mut stream, &mut disk)), b"hell");
    assert_eq!(chunk_of(produce(&mut stream, &mut disk)), b"owor");
    assert_eq!(chunk_of(produce(&mut stream, &mut disk)), b"ld");
    assert!(produce(&mut stream, &mut disk).is_none());
}

#[test]
fn example_spill_to_disk() {
    let mut stream =
        wrapper().threshold(5).produce_chunk_size(5).wrap(source_of(&["hello", "world"]));
    let mut disk = empty_disk();
    assert_eq!(chunk_of(produce(&mut stream, &mut disk)), b"hello");
    assert!(stream.backing_file().is_none());
    assert_eq!(chunk_of(produce(&mut stream, &mut disk)), b"world");
    assert_eq!(disk.created, 1);
    assert_eq!(disk.dir, "/tmp");
    assert_eq!(stream.backing_file(), Some(&disk.name));
    assert_eq!(disk.content, b"helloworld");
    assert!(produce(&mut stream, &mut disk).is_none());
    assert_eq!(chunk_of(produce(&mut stream, &mut disk)), b"hello");
    assert_eq!(chunk_of(produce(&mut stream, &mut disk)), b"world");
    assert!(produce(&mut stream, &mut disk).is_none());
}

#[test]
fn example_overflow() {
    let mut stream =
        wrapper().buffer_limit(Some(8)).produce_chunk_size(4).wrap(source_of(&["hello", "world"]));
    let mut disk = empty_disk();
    assert_eq!(chunk_of(produce(&mut stream, &mut disk)), b"hello");
    match produce(&mut stream, &mut disk) {
        Some(Err(StreamError::Buffering(BufferingError::Overflow))) => {}
        other => panic!("expected an overflow, got {:?}", other),
    }
    assert_eq!(stream.buffered_len(), 5);
    assert!(produce(&mut stream, &mut disk).is_none());
    assert_eq!(chunk_of(produce(&mut stream, &mut disk)), b"hell");
    assert_eq!(chunk_of(produce(&mut stream, &mut disk)), b"o");
    assert!(produce(&mut stream, &mut disk).is_none());
}
