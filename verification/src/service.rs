//! The thumbnail request flow.
//!
//! A `get_thumbnail(path, size)` request proceeds in strict order, stopping
//! at the first hit: memory cache, then source existence, then the disk
//! cache validated against the source's modification time, then full
//! decode / resize / encode. The flow is written as a chain of step values:
//! each step states what it decided, the host performs the file-system
//! action the step asks for and feeds the result to the next step. Disk
//! trouble never fails a request — it only degrades to regeneration — and
//! every served payload is also stored in the memory cache.
//!
//! The heavy work — reading files, decoding, encoding — happens outside
//! the memory-cache lock: the steps that do it take no cache, and only the
//! final, cheap [`ReadyThumbnail::store`] expects to run under the lock.

use vstd::prelude::*;
use vstd::string::StringExecFns;

use crate::cache::{insert_model, lookup, ThumbnailCache};
use crate::digest::{disk_cache_filename, spec_disk_cache_filename};
use crate::imaging::{decodes_ok, make_thumbnail_jpeg, thumb_jpeg_of, thumb_jpeg_ok, ThumbGenError};
use crate::payload::{data_url_of, to_data_url};

verus! {

/// The errors a request can surface. Disk-cache failures are deliberately
/// absent: they degrade to a cache miss or a skipped write, never to an
/// error.
pub enum ThumbError {
    /// The source image does not exist.
    NotFound { path: String },
    /// The source bytes could not be read or decoded as an image.
    DecodeFailed { detail: String },
    /// The resized image could not be encoded.
    EncodeFailed { detail: String },
    /// The memory-cache lock was poisoned; unexpected and fatal.
    LockError,
}

impl ThumbError {
    /// A human-readable description of the error.
    pub fn message(&self) -> (r: String)
        ensures
            match self {
                ThumbError::NotFound { path } => r@ == "image file not found: "@ + path@,
                ThumbError::DecodeFailed { detail } => r@ == "failed to decode image: "@
                    + detail@,
                ThumbError::EncodeFailed { detail } => r@ == "failed to encode thumbnail: "@
                    + detail@,
                ThumbError::LockError => r@ == "thumbnail cache lock poisoned"@,
            },
    {
        match self {
            ThumbError::NotFound { path } => {
                let mut s = "image file not found: ".to_owned();
                s.append(path.as_str());
                s
            },
            ThumbError::DecodeFailed { detail } => {
                let mut s = "failed to decode image: ".to_owned();
                s.append(detail.as_str());
                s
            },
            ThumbError::EncodeFailed { detail } => {
                let mut s = "failed to encode thumbnail: ".to_owned();
                s.append(detail.as_str());
                s
            },
            ThumbError::LockError => "thumbnail cache lock poisoned".to_owned(),
        }
    }
}

/// Whether a disk-cache entry may be served: both modification times must
/// be known and the cache file must be no older than the source. A missing
/// file or unreadable metadata on either side invalidates the entry.
pub open spec fn spec_disk_valid(cache_mtime: Option<u64>, source_mtime: Option<u64>) -> bool {
    &&& cache_mtime is Some
    &&& source_mtime is Some
    &&& cache_mtime->Some_0 >= source_mtime->Some_0
}

/// Decides whether a disk-cache entry is still valid for its source.
pub fn is_disk_cache_valid(cache_mtime: Option<u64>, source_mtime: Option<u64>) -> (r: bool)
    ensures
        r == spec_disk_valid(cache_mtime, source_mtime),
{
    match (cache_mtime, source_mtime) {
        (Some(c), Some(s)) => c >= s,
        _ => false,
    }
}

/// Law: a disk entry strictly older than its source is never considered
/// valid, so a request made after the source changed regenerates the
/// thumbnail instead of serving the stale entry.
pub proof fn lemma_stale_disk_entry_is_invalid(cache_mtime: u64, source_mtime: u64)
    requires
        cache_mtime < source_mtime,
    ensures
        !spec_disk_valid(Some(cache_mtime), Some(source_mtime)),
{
}

/// What the flow decided after learning whether the source file exists.
pub enum SourceCheck {
    /// The source does not exist: the request fails, terminally.
    Missing(ThumbError),
    /// The source exists and a disk cache is available: probe it.
    Probe(DiskProbe),
    /// The source exists but no disk cache is available: regenerate from
    /// the source alone.
    Generate(GenerateStep),
}

/// A pending probe of the disk cache: the host is asked for the
/// modification times of the named cache file and of the source.
pub struct DiskProbe {
    path: String,
    size: u32,
    filename: String,
}

/// What the flow decided after seeing the modification times.
pub enum DiskDecision {
    /// The disk entry is valid: the host is asked to read the named file.
    Read(DiskRead),
    /// The disk entry is missing or stale: regenerate.
    Generate(GenerateStep),
}

/// A pending read of a valid disk-cache file.
pub struct DiskRead {
    path: String,
    size: u32,
    filename: String,
}

/// What the flow decided after the disk read.
pub enum AfterDiskRead {
    /// The disk bytes were wrapped as a payload, ready to store and serve.
    Ready(ReadyThumbnail),
    /// The read failed after all: fall through to regeneration.
    Generate(GenerateStep),
}

/// A pending regeneration: the host is asked to read the source file's
/// bytes.
pub struct GenerateStep {
    path: String,
    size: u32,
    filename: Option<String>,
}

/// A best-effort write the host should attempt: store `bytes` under the
/// disk-cache file `filename`. Failure is to be ignored.
pub struct DiskWrite {
    pub filename: String,
    pub bytes: Vec<u8>,
}

/// How a regeneration ended.
pub enum GenerateOutcome {
    /// The payload is ready to store and serve.
    Ready(ReadyThumbnail),
    /// Decoding or encoding failed: the request fails, terminally.
    Failed(ThumbError),
}

/// A payload ready to serve, with the best-effort disk write that goes
/// with it (if a disk cache is available). The expensive work is done;
/// only [`Self::store`] remains, which the host calls under the
/// memory-cache lock.
pub struct ReadyThumbnail {
    path: String,
    size: u32,
    payload: String,
    write: Option<DiskWrite>,
}

impl ReadyThumbnail {
    pub closed spec fn spec_path(self) -> Seq<char> {
        self.path@
    }

    pub closed spec fn spec_size(self) -> u32 {
        self.size
    }

    pub closed spec fn spec_payload(self) -> Seq<char> {
        self.payload@
    }

    pub closed spec fn spec_write(self) -> Option<DiskWrite> {
        self.write
    }

    /// Records the payload in the memory cache and hands it out together
    /// with the pending disk write. The one step meant to run under the
    /// cache lock: it only inserts, no decoding or encoding happens here.
    pub fn store(self, cache: &mut ThumbnailCache) -> (r: (String, Option<DiskWrite>))
        requires
            old(cache).wf(),
        ensures
            final(cache).wf(),
            final(cache).spec_max() == old(cache).spec_max(),
            r.0@ == self.spec_payload(),
            r.1 == self.spec_write(),
            final(cache).model() == insert_model(
                old(cache).model(),
                old(cache).spec_max(),
                self.spec_path(),
                self.spec_size(),
                self.spec_payload(),
            ),
            lookup(final(cache).model(), self.spec_path(), self.spec_size()) == Some(
                self.spec_payload(),
            ),
    {
        let served = self.payload.clone();
        cache.insert((self.path, self.size), self.payload);
        (served, self.write)
    }
}

impl DiskProbe {
    pub closed spec fn spec_path(self) -> Seq<char> {
        self.path@
    }

    pub closed spec fn spec_size(self) -> u32 {
        self.size
    }

    pub closed spec fn spec_filename(self) -> Seq<char> {
        self.filename@
    }

    /// The disk-cache file name whose metadata the host should look up.
    pub fn filename(&self) -> (r: &String)
        ensures
            r@ == self.spec_filename(),
    {
        &self.filename
    }

    /// Decides, from the two modification times, whether the disk entry may
    /// be served or the thumbnail must be regenerated.
    pub fn evaluate(self, cache_mtime: Option<u64>, source_mtime: Option<u64>) -> (r: DiskDecision)
        ensures
            match r {
                DiskDecision::Read(d) => {
                    &&& spec_disk_valid(cache_mtime, source_mtime)
                    &&& d.spec_path() == self.spec_path()
                    &&& d.spec_size() == self.spec_size()
                    &&& d.spec_filename() == self.spec_filename()
                },
                DiskDecision::Generate(g) => {
                    &&& !spec_disk_valid(cache_mtime, source_mtime)
                    &&& g.spec_path() == self.spec_path()
                    &&& g.spec_size() == self.spec_size()
                    &&& g.spec_filename() == Some(self.spec_filename())
                },
            },
    {
        if is_disk_cache_valid(cache_mtime, source_mtime) {
            DiskDecision::Read(DiskRead { path: self.path, size: self.size, filename: self.filename })
        } else {
            DiskDecision::Generate(
                GenerateStep { path: self.path, size: self.size, filename: Some(self.filename) },
            )
        }
    }
}

impl DiskRead {
    pub closed spec fn spec_path(self) -> Seq<char> {
        self.path@
    }

    pub closed spec fn spec_size(self) -> u32 {
        self.size
    }

    pub closed spec fn spec_filename(self) -> Seq<char> {
        self.filename@
    }

    /// The disk-cache file name the host should read.
    pub fn filename(&self) -> (r: &String)
        ensures
            r@ == self.spec_filename(),
    {
        &self.filename
    }

    /// Takes the bytes the host read from the disk cache (`None` for a
    /// failed read). A successful read becomes the served payload — with
    /// no write-back, the disk already holds it — and a failed one
    /// degrades to regeneration.
    pub fn accept(self, bytes: Option<Vec<u8>>) -> (r: AfterDiskRead)
        requires
            bytes matches Some(b) ==> b@.len() <= usize::MAX / 4 * 3,
        ensures
            match r {
                AfterDiskRead::Ready(t) => {
                    &&& bytes matches Some(b) && t.spec_payload() == data_url_of(b@)
                    &&& t.spec_path() == self.spec_path()
                    &&& t.spec_size() == self.spec_size()
                    &&& t.spec_write() is None
                },
                AfterDiskRead::Generate(g) => {
                    &&& bytes is None
                    &&& g.spec_path() == self.spec_path()
                    &&& g.spec_size() == self.spec_size()
                    &&& g.spec_filename() == Some(self.spec_filename())
                },
            },
    {
        match bytes {
            Some(b) => {
                let payload = to_data_url(b.as_slice());
                AfterDiskRead::Ready(
                    ReadyThumbnail { path: self.path, size: self.size, payload, write: None },
                )
            },
            None => AfterDiskRead::Generate(
                GenerateStep { path: self.path, size: self.size, filename: Some(self.filename) },
            ),
        }
    }
}

impl GenerateStep {
    pub closed spec fn spec_path(self) -> Seq<char> {
        self.path@
    }

    pub closed spec fn spec_size(self) -> u32 {
        self.size
    }

    pub closed spec fn spec_filename(self) -> Option<Seq<char>> {
        match self.filename {
            Some(f) => Some(f@),
            None => None,
        }
    }

    /// The tail of a regeneration once encoded thumbnail bytes exist:
    /// wraps them as a payload and pairs it with the best-effort disk
    /// write if a disk cache is available.
    pub fn finish(self, jpeg: Vec<u8>) -> (r: ReadyThumbnail)
        requires
            jpeg@.len() <= usize::MAX / 4 * 3,
        ensures
            r.spec_path() == self.spec_path(),
            r.spec_size() == self.spec_size(),
            r.spec_payload() == data_url_of(jpeg@),
            match r.spec_write() {
                Some(w) => self.spec_filename() == Some(w.filename@) && w.bytes@ == jpeg@,
                None => self.spec_filename() is None,
            },
    {
        let payload = to_data_url(jpeg.as_slice());
        let write = match self.filename {
            Some(name) => Some(DiskWrite { filename: name, bytes: jpeg }),
            None => None,
        };
        ReadyThumbnail { path: self.path, size: self.size, payload, write }
    }

    /// Regenerates the thumbnail from the source bytes the host read
    /// (`None` for a failed read). Succeeds exactly when the bytes decode
    /// and the scaled image encodes (and its encoding is small enough to
    /// wrap, a machine limit no real image reaches); the payload is then
    /// the data URL of exactly the pipeline's JPEG bytes, which are also
    /// what the disk write carries. In particular, whether a disk cache is
    /// available has no bearing on success. Decode and encode failures are
    /// told apart, terminally.
    pub fn run(self, source_bytes: Option<Vec<u8>>) -> (r: GenerateOutcome)
        ensures
            match r {
                GenerateOutcome::Ready(t) => {
                    &&& t.spec_path() == self.spec_path()
                    &&& t.spec_size() == self.spec_size()
                    &&& match source_bytes {
                        Some(b) => {
                            &&& thumb_jpeg_ok(b@, self.spec_size())
                            &&& thumb_jpeg_of(b@, self.spec_size()).len() <= usize::MAX / 4 * 3
                            &&& t.spec_payload() == data_url_of(
                                thumb_jpeg_of(b@, self.spec_size()),
                            )
                            &&& match t.spec_write() {
                                Some(w) => self.spec_filename() == Some(w.filename@)
                                    && w.bytes@ == thumb_jpeg_of(b@, self.spec_size()),
                                None => self.spec_filename() is None,
                            }
                        },
                        None => false,
                    }
                },
                GenerateOutcome::Failed(e) => match source_bytes {
                    Some(b) => {
                        if !decodes_ok(b@) {
                            e is DecodeFailed
                        } else if !thumb_jpeg_ok(b@, self.spec_size()) {
                            e is EncodeFailed
                        } else {
                            &&& thumb_jpeg_of(b@, self.spec_size()).len() > usize::MAX / 4 * 3
                            &&& e is EncodeFailed
                        }
                    },
                    None => e is DecodeFailed,
                },
            },
    {
        let bytes = match source_bytes {
            Some(b) => b,
            None => {
                return GenerateOutcome::Failed(
                    ThumbError::DecodeFailed { detail: "source file could not be read".to_owned() },
                );
            },
        };
        let jpeg = match make_thumbnail_jpeg(bytes.as_slice(), self.size) {
            Ok(v) => v,
            Err(ThumbGenError::Decode(detail)) => {
                return GenerateOutcome::Failed(ThumbError::DecodeFailed { detail });
            },
            Err(ThumbGenError::Encode(detail)) => {
                return GenerateOutcome::Failed(ThumbError::EncodeFailed { detail });
            },
        };
        if jpeg.len() > usize::MAX / 4 * 3 {
            return GenerateOutcome::Failed(
                ThumbError::EncodeFailed { detail: "encoded thumbnail too large".to_owned() },
            );
        }
        GenerateOutcome::Ready(self.finish(jpeg))
    }
}

/// The step after the memory cache missed: fails a request for a source
/// that does not exist, otherwise heads for the disk cache when one is
/// available (`use_disk`) and for regeneration when none is.
pub fn check_source(image_path: String, size: u32, exists: bool, use_disk: bool) -> (r: SourceCheck)
    ensures
        match r {
            SourceCheck::Missing(e) => {
                &&& !exists
                &&& e matches ThumbError::NotFound { path } && path@ == image_path@
            },
            SourceCheck::Probe(p) => {
                &&& exists && use_disk
                &&& p.spec_path() == image_path@
                &&& p.spec_size() == size
                &&& p.spec_filename() == spec_disk_cache_filename(image_path@, size)
            },
            SourceCheck::Generate(g) => {
                &&& exists && !use_disk
                &&& g.spec_path() == image_path@
                &&& g.spec_size() == size
                &&& g.spec_filename() is None
            },
        },
{
    if !exists {
        SourceCheck::Missing(ThumbError::NotFound { path: image_path })
    } else if use_disk {
        let filename = disk_cache_filename(&image_path, size);
        SourceCheck::Probe(DiskProbe { path: image_path, size, filename })
    } else {
        SourceCheck::Generate(GenerateStep { path: image_path, size, filename: None })
    }
}

} // verus!
