use actix_web::web::Bytes;
use std::collections::VecDeque;
use std::io::{Error, ErrorKind};
use stream_buffering::config::FileBufferingStreamWrapper;
use stream_buffering::error::{BufferingError, StreamError};
use stream_buffering::stream::{Action, Event, FileBufferingStream};

type Source = VecDeque<Result<Bytes, String>>;
type Item = Option<Result<Bytes, StreamError<String>>>;

/// A filesystem of one file, kept in memory, that fails on request.
struct Disk {
    dir: String,
    name: String,
    content: Vec<u8>,
    position: usize,
    created: usize,
    rewinds: usize,
    fail_next: bool,
}

fn empty_disk() -> Disk {
    Disk {
        dir: String::new(),
        name: String::new(),
        content: Vec::new(),
        position: 0,
        created: 0,
        rewinds: 0,
        fail_next: false,
    }
}

fn refused(disk: &mut Disk) -> Option<Error> {
    if disk.fail_next {
        disk.fail_next = false;
        Some(Error::new(ErrorKind::Other, "refused"))
    } else {
        None
    }
}

/// Carries out one request of the stream on the disk.
fn perform(disk: &mut Disk, action: Action<String>) -> Event<String> {
    match action {
        Action::CreateFile { dir, name, head, tail } => match refused(disk) {
            Some(e) => Event::Stored(Err(e)),
            None => {
                disk.dir = dir;
                disk.name = name;
                disk.content = head.to_vec();
                disk.content.extend_from_slice(&tail);
                disk.position = disk.content.len();
                disk.created += 1;
                Event::Stored(Ok(()))
            }
        },
        Action::AppendFile { data } => match refused(disk) {
            Some(e) => Event::Stored(Err(e)),
            None => {
                disk.content.truncate(disk.position);
                disk.content.extend_from_slice(&data);
                disk.position = disk.content.len();
                Event::Stored(Ok(()))
            }
        },
        Action::ReadFile { rewind, len } => {
            if rewind {
                disk.position = 0;
                disk.rewinds += 1;
            }
            match refused(disk) {
                Some(e) => Event::Loaded(Err(e)),
                None => {
                    let data = disk.content[disk.position..disk.position + len].to_vec();
                    disk.position += len;
                    Event::Loaded(Ok(data))
                }
            }
        }
        other => panic!("not a request to the filesystem: {:?}", other),
    }
}

/// Drives one production step to its end, as a driver does.
fn produce(stream: &mut FileBufferingStream<Source>, disk: &mut Disk) -> Item {
    let mut event = Event::Demand;
    loop {
        assert!(stream.admits(&event));
        event = match stream.step(event) {
            Action::PollSource => Event::Source(stream.source_mut().pop_front()),
            Action::Yield(item) => return item,
            request => perform(disk, request),
        };
    }
}

fn source_of(chunks: &[&str]) -> Source {
    chunks.iter().map(|c| Ok(Bytes::copy_from_slice(c.as_bytes()))).collect()
}

fn wrapper() -> FileBufferingStreamWrapper {
    FileBufferingStreamWrapper::new(String::from("/tmp"))
}

fn chunk_of(item: Item) -> Vec<u8> {
    match item {
        Some(Ok(bytes)) => bytes.to_vec(),
        other => panic!("expected a chunk, got {:?}", other),
    }
}

/// Drains the source to its end and returns the chunks that were yielded.
fn drain(stream: &mut FileBufferingStream<Source>, disk: &mut Disk) -> Vec<Vec<u8>> {
    let mut chunks = Vec::new();
    while !stream.is_drained() {
        match produce(stream, disk) {
            Some(Ok(bytes)) => chunks.push(bytes.to_vec()),
            Some(Err(_)) => {}
            None => {}
        }
    }
    chunks
}

/// Replays one pass and returns its chunks.
fn pass(stream: &mut FileBufferingStream<Source>, disk: &mut Disk) -> Vec<Vec<u8>> {
    let mut chunks = Vec::new();
    loop {
        match produce(stream, disk) {
            Some(Ok(bytes)) => chunks.push(bytes.to_vec()),
            Some(Err(e)) => panic!("replay failed: {:?}", e),
            None => return chunks,
        }
    }
}

use stream_buffering::config::DEFAULT_SIZE;

#[test]
fn a_demand_polls_the_source_while_draining() {
    let mut stream = wrapper().wrap(source_of(&["ab"]));
    assert!(matches!(stream.step::<String>(Event::Demand), Action::PollSource));
    assert!(matches!(stream.step::<String>(Event::Demand), Action::PollSource));
    assert_eq!(stream.source().len(), 1);
}

#[test]
fn an_event_that_nothing_asked_for_begins_a_new_step() {
    let mut stream = wrapper().wrap(source_of(&["ab"]));
    assert!(matches!(stream.step::<String>(Event::Stored(Ok(()))), Action::PollSource));
    let mut stream = wrapper().wrap(source_of(&["ab"]));
    assert!(matches!(
        stream.step::<String>(Event::Loaded(Ok(b"zz".to_vec()))),
        Action::PollSource
    ));
    let mut stream = wrapper().wrap(source_of(&["ab"]));
    let early = Event::Source(Some(Ok(Bytes::copy_from_slice(b"zz"))));
    assert!(stream.admits(&early));
    assert!(matches!(stream.step::<String>(early), Action::PollSource));
    assert_eq!(stream.buffered_len(), 0);
}

#[test]
fn an_abandoned_write_is_not_captured() {
    let mut stream = wrapper().threshold(1).wrap(source_of(&["ab", "cd"]));
    assert!(matches!(stream.step::<String>(Event::Demand), Action::PollSource));
    let item = stream.source_mut().pop_front();
    assert!(matches!(stream.step(Event::Source(item)), Action::CreateFile { .. }));
    assert!(matches!(stream.step::<String>(Event::Demand), Action::PollSource));
    assert_eq!(stream.buffered_len(), 0);
    assert!(stream.backing_file().is_none());
    assert!(matches!(stream.step::<String>(Event::Stored(Ok(()))), Action::PollSource));
    assert_eq!(stream.buffered_len(), 0);
    assert!(stream.backing_file().is_none());
}

#[test]
fn an_abandoned_read_leaves_the_cursor_moved() {
    let mut stream = wrapper().threshold(0).produce_chunk_size(2).wrap(source_of(&["abcde"]));
    let mut disk = empty_disk();
    drain(&mut stream, &mut disk);
    assert!(matches!(
        stream.step::<String>(Event::Demand),
        Action::ReadFile { rewind: true, len: 2 }
    ));
    assert!(matches!(
        stream.step::<String>(Event::Demand),
        Action::ReadFile { rewind: false, len: 2 }
    ));
    assert_eq!(stream.size_hint(), Some((4, Some(5))));
}

#[test]
fn ordinary_events_are_admitted() {
    let mut stream = wrapper().wrap(source_of(&["ab"]));
    assert!(stream.admits(&Event::<String>::Demand));
    assert!(stream.admits(&Event::<String>::Source(None)));
    assert!(stream.admits(&Event::<String>::Source(Some(Err(String::from("e"))))));
    assert!(stream.admits(&Event::<String>::Stored(Ok(()))));
    assert!(stream.admits(&Event::<String>::Loaded(Ok(Vec::new()))));
    stream.step::<String>(Event::Demand);
    assert!(stream.admits(&Event::<String>::Source(Some(Ok(Bytes::copy_from_slice(b"ab"))))));
    assert!(stream.admits(&Event::<String>::Source(Some(Ok(Bytes::new())))));
}

#[test]
fn default_sizes_are_thirty_kibibytes() {
    assert_eq!(DEFAULT_SIZE, 30 * 1024);
    let exact = vec![7u8; 30720];
    let mut source = Source::new();
    source.push_back(Ok(Bytes::from(exact.clone())));
    source.push_back(Ok(Bytes::copy_from_slice(b"!")));
    let mut stream = wrapper().wrap(source);
    let mut disk = empty_disk();
    assert_eq!(chunk_of(produce(&mut stream, &mut disk)), exact);
    assert!(stream.backing_file().is_none());
    assert_eq!(chunk_of(produce(&mut stream, &mut disk)), b"!");
    assert!(stream.backing_file().is_some());
    assert_eq!(disk.content.len(), 30721);
    assert!(produce(&mut stream, &mut disk).is_none());
    let lengths: Vec<usize> = pass(&mut stream, &mut disk).iter().map(|c| c.len()).collect();
    assert_eq!(lengths, vec![30720, 1]);
}

#[test]
fn there_is_no_limit_by_default() {
    let data = vec![1u8; 200_000];
    let mut stream = wrapper().wrap(Source::from(vec![Ok(Bytes::from(data.clone()))]));
    let mut disk = empty_disk();
    assert_eq!(chunk_of(produce(&mut stream, &mut disk)), data);
    assert_eq!(stream.buffered_len(), 200_000);
}

#[test]
fn the_directory_given_at_first_is_used() {
    let mut stream = FileBufferingStreamWrapper::new(String::from("/var/spool"))
        .threshold(0)
        .wrap(source_of(&["a"]));
    assert_eq!(stream.tmp_dir(), "/var/spool");
    let mut disk = empty_disk();
    produce(&mut stream, &mut disk);
    assert_eq!(disk.dir, "/var/spool");
}

#[test]
fn the_directory_can_be_set() {
    let mut stream =
        wrapper().tmp_dir(String::from("/data/buffers")).threshold(0).wrap(source_of(&["a"]));
    assert_eq!(stream.tmp_dir(), "/data/buffers");
    let mut disk = empty_disk();
    produce(&mut stream, &mut disk);
    assert_eq!(disk.dir, "/data/buffers");
}

#[test]
fn each_setter_changes_its_own_setting_only() {
    let wrapper = wrapper()
        .threshold(3)
        .produce_chunk_size(2)
        .buffer_limit(Some(7))
        .tmp_dir(String::from("/d"));
    let mut stream = wrapper.wrap(source_of(&["abc", "d", "efg", "h"]));
    let mut disk = empty_disk();
    assert_eq!(chunk_of(produce(&mut stream, &mut disk)), b"abc");
    assert_eq!(disk.created, 0);
    assert_eq!(chunk_of(produce(&mut stream, &mut disk)), b"d");
    assert_eq!(disk.created, 1);
    assert_eq!(disk.dir, "/d");
    assert_eq!(chunk_of(produce(&mut stream, &mut disk)), b"efg");
    assert!(matches!(
        produce(&mut stream, &mut disk),
        Some(Err(StreamError::Buffering(BufferingError::Overflow)))
    ));
    assert!(produce(&mut stream, &mut disk).is_none());
    let lengths: Vec<usize> = pass(&mut stream, &mut disk).iter().map(|c| c.len()).collect();
    assert_eq!(lengths, vec![2, 2, 2, 1]);
}

#[test]
fn a_limit_can_be_lifted_again() {
    let mut stream =
        wrapper().buffer_limit(Some(1)).buffer_limit(None).wrap(source_of(&["hello"]));
    let mut disk = empty_disk();
    assert_eq!(chunk_of(produce(&mut stream, &mut disk)), b"hello");
}

#[test]
fn wrapped_streams_share_nothing() {
    let wrapper = wrapper().threshold(4).produce_chunk_size(100);
    let mut one = wrapper.wrap(source_of(&["abc"]));
    let mut two = wrapper.wrap(source_of(&["uvwxyz"]));
    let mut disk_one = empty_disk();
    let mut disk_two = empty_disk();
    drain(&mut one, &mut disk_one);
    drain(&mut two, &mut disk_two);
    assert!(one.backing_file().is_none());
    assert!(two.backing_file().is_some());
    assert_eq!(pass(&mut one, &mut disk_one), vec![b"abc".to_vec()]);
    assert_eq!(pass(&mut two, &mut disk_two), vec![b"uvwxyz".to_vec()]);
}

#[test]
fn a_wrapper_refers_to_itself() {
    let wrapper = wrapper().threshold(2);
    let same: &FileBufferingStreamWrapper = wrapper.as_ref();
    let mut stream = same.wrap(source_of(&["abc"]));
    let mut disk = empty_disk();
    produce(&mut stream, &mut disk);
    assert_eq!(disk.created, 1);
}

#[test]
fn a_new_stream_is_empty_and_draining() {
    let stream = FileBufferingStream::new(source_of(&["ab"]), String::from("/t"), 1, 2, Some(3));
    assert!(!stream.is_drained());
    assert_eq!(stream.buffered_len(), 0);
    assert!(stream.backing_file().is_none());
    assert_eq!(stream.tmp_dir(), "/t");
    assert_eq!(stream.source().len(), 1);
}

#[test]
fn an_io_error_becomes_a_buffering_error() {
    match BufferingError::from(Error::new(ErrorKind::PermissionDenied, "no")) {
        BufferingError::Io(e) => {
            assert_eq!(e.kind(), ErrorKind::PermissionDenied);
            assert_eq!(e.to_string(), "no");
        }
        BufferingError::Overflow => panic!("expected an error of the filesystem"),
    }
}
