//! The settings shared by every stream that one wrapper makes.

use crate::model::StreamView;
use crate::stream::FileBufferingStream;
use vstd::prelude::*;

verus! {

/// The settings, as plain values.
pub struct ConfigView {
    /// Directory in which backing files are created.
    pub tmp_dir: Seq<char>,
    /// Most bytes that a stream keeps in memory.
    pub threshold: usize,
    /// Length of a replayed chunk.
    pub produce_chunk_size: usize,
    /// Most bytes that a stream captures in all, if limited.
    pub buffer_limit: Option<usize>,
}

/// The threshold and the chunk size of a new wrapper: thirty kibibytes.
pub const DEFAULT_SIZE: usize = 30720;

/// Makes buffering streams. A source that has been wrapped can be read any
/// number of times.
pub struct FileBufferingStreamWrapper {
    tmp_dir: String,
    threshold: usize,
    produce_chunk_size: usize,
    buffer_limit: Option<usize>,
}

impl View for FileBufferingStreamWrapper {
    type V = ConfigView;

    closed spec fn view(&self) -> ConfigView {
        ConfigView {
            tmp_dir: self.tmp_dir@,
            threshold: self.threshold,
            produce_chunk_size: self.produce_chunk_size,
            buffer_limit: self.buffer_limit,
        }
    }
}

impl FileBufferingStreamWrapper {
    /// A wrapper with the default sizes and no limit, whose backing files go
    /// to `tmp_dir`: the caller passes the temporary directory of the
    /// operating system unless it wants another.
    pub fn new(tmp_dir: String) -> (wrapper: Self)
        ensures
            wrapper@ == (ConfigView {
                tmp_dir: tmp_dir@,
                threshold: DEFAULT_SIZE,
                produce_chunk_size: DEFAULT_SIZE,
                buffer_limit: None,
            }),
    {
        FileBufferingStreamWrapper {
            tmp_dir,
            threshold: DEFAULT_SIZE,
            produce_chunk_size: DEFAULT_SIZE,
            buffer_limit: None,
        }
    }

    /// The directory for the backing files of larger bodies.
    pub fn tmp_dir(self, v: String) -> (wrapper: Self)
        ensures
            wrapper@ == (ConfigView { tmp_dir: v@, ..self@ }),
    {
        let mut wrapper = self;
        wrapper.tmp_dir = v;
        wrapper
    }

    /// The most bytes kept in memory. A body that grows past it is written
    /// to disk.
    pub fn threshold(self, v: usize) -> (wrapper: Self)
        ensures
            wrapper@ == (ConfigView { threshold: v, ..self@ }),
    {
        let mut wrapper = self;
        wrapper.threshold = v;
        wrapper
    }

    /// The length of the chunks in which a buffered body is read back.
    pub fn produce_chunk_size(self, v: usize) -> (wrapper: Self)
        ensures
            wrapper@ == (ConfigView { produce_chunk_size: v, ..self@ }),
    {
        let mut wrapper = self;
        wrapper.produce_chunk_size = v;
        wrapper
    }

    /// The most bytes that a body may have. Reading past it is an error.
    pub fn buffer_limit(self, v: Option<usize>) -> (wrapper: Self)
        ensures
            wrapper@ == (ConfigView { buffer_limit: v, ..self@ }),
    {
        let mut wrapper = self;
        wrapper.buffer_limit = v;
        wrapper
    }

    /// Wraps `inner` in a stream of its own, which starts empty and takes a
    /// copy of these settings.
    pub fn wrap<S>(&self, inner: S) -> (stream: FileBufferingStream<S>)
        ensures
            stream.wf(),
            stream.inner() == inner,
            stream@ == StreamView::initial(
                self@.tmp_dir,
                self@.threshold,
                self@.produce_chunk_size,
                self@.buffer_limit,
            ),
    {
        FileBufferingStream::new(
            inner,
            self.tmp_dir.clone(),
            self.threshold,
            self.produce_chunk_size,
            self.buffer_limit,
        )
    }
}

impl AsRef<FileBufferingStreamWrapper> for FileBufferingStreamWrapper {
    fn as_ref(&self) -> (wrapper: &FileBufferingStreamWrapper)
        ensures
            wrapper == self,
    {
        self
    }
}

} // verus!
