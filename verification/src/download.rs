//! The decisions of a download: what the local file is called, and which
//! progress events the arriving bytes give rise to.

use vstd::prelude::*;
use vstd::string::*;

use crate::progress::UpdateProgress;
use crate::text::{patch_prefix, patch_suffix, version_field};
use crate::version::Version;

verus! {

/// The name of the staging directory, beneath the working directory, that
/// receives the downloaded archives.
pub const UPDATES_DIR: &'static str = "updates";

/// The size, in bytes, of the chunks in which a download is read and
/// written.
pub const CHUNK_SIZE: usize = 8192;

/// An answer counts as a success if its status code is one of 200 to 299.
pub open spec fn is_success_status(code: u16) -> bool {
    200 <= code < 300
}

/// Whether a status code tells of success.
pub fn status_is_success(code: u16) -> (ok: bool)
    ensures
        ok == is_success_status(code),
{
    200 <= code && code < 300
}

/// The name of the local file for the patch of a version:
/// `patch-<version>.zip`. The same version always gets the same name, so a
/// repeated download replaces the earlier file.
pub open spec fn file_name_of(version_text: Seq<char>) -> Seq<char> {
    patch_prefix() + version_text + patch_suffix()
}

/// The local file name for the patch of `version`.
pub fn patch_file_name(version: &Version) -> (name: String)
    requires
        version.wf(),
    ensures
        name@ == file_name_of(version@.text()),
{
    let text = version.to_string();
    proof {
        reveal_strlit("patch-");
        reveal_strlit(".zip");
        assert("patch-"@ =~= patch_prefix());
        assert(".zip"@ =~= patch_suffix());
    }
    String::from_str("patch-").concat(text.as_str()).concat(".zip")
}

/// A file name made for a version names that version again: the pattern
/// that the catalog recognises reads back exactly the text between prefix
/// and suffix.
pub proof fn lemma_file_name_names_its_version(version_text: Seq<char>)
    ensures
        version_field(file_name_of(version_text)) == Some(version_text),
{
    let name = file_name_of(version_text);
    assert(name.take(6) =~= patch_prefix());
    assert(name.skip(name.len() - 4) =~= patch_suffix());
    assert(name.subrange(6, name.len() - 4) =~= version_text);
}

/// A name of the pattern is the file name made for its version field.
pub proof fn lemma_patch_name_is_made_of_its_field(name: Seq<char>)
    requires
        version_field(name) is Some,
    ensures
        name == file_name_of(version_field(name)->0),
{
    assert(name =~= name.take(6) + name.subrange(6, name.len() - 4) + name.skip(name.len() - 4));
}

/// The running state of one download: the text of the version being
/// fetched, the size that the server announced (0 if it announced none) and
/// the bytes received so far.
pub struct DownloadTracker {
    version: String,
    expected: u64,
    received: u64,
}

impl DownloadTracker {
    pub closed spec fn version(&self) -> Seq<char> {
        self.version@
    }

    pub closed spec fn expected(&self) -> nat {
        self.expected as nat
    }

    pub closed spec fn received(&self) -> nat {
        self.received as nat
    }

    /// Starts to track a download of which nothing has arrived yet. Without
    /// an announced length the expected size is 0.
    pub fn new(version: String, content_length: Option<u64>) -> (tracker: DownloadTracker)
        ensures
            tracker.version() == version@,
            tracker.received() == 0,
            tracker.expected() == (match content_length {
                Some(length) => length as nat,
                None => 0,
            }),
    {
        let expected: u64 = match content_length {
            Some(length) => length,
            None => 0,
        };
        DownloadTracker { version, expected, received: 0 }
    }

    /// The bytes received so far.
    pub fn bytes_received(&self) -> (n: u64)
        ensures
            n == self.received(),
    {
        self.received
    }

    /// Whether a chunk of `chunk` bytes can still be counted.
    pub fn can_record(&self, chunk: usize) -> (fits: bool)
        ensures
            fits == (self.received() + chunk <= u64::MAX),
    {
        chunk as u64 <= u64::MAX - self.received
    }

    /// Counts a chunk of `chunk` bytes that was written to disk. Where the
    /// server announced a size, the chunk gives rise to one `Downloading`
    /// event with the new count; where it announced none, to no event.
    pub fn record(&mut self, chunk: usize) -> (event: Option<UpdateProgress>)
        requires
            old(self).received() + chunk <= u64::MAX,
        ensures
            final(self).version() == old(self).version(),
            final(self).expected() == old(self).expected(),
            final(self).received() == old(self).received() + chunk,
            old(self).expected() == 0 ==> event is None,
            old(self).expected() > 0 ==> (event matches Some(
                UpdateProgress::Downloading { current, total, version, received, expected },
            ) && current == 1 && total == 1 && version@ == old(self).version() && received
                == final(self).received() && expected == old(self).expected()),
    {
        self.received = self.received + chunk as u64;
        if self.expected > 0 {
            Some(
                UpdateProgress::Downloading {
                    current: 1,
                    total: 1,
                    version: self.version.clone(),
                    received: self.received,
                    expected: self.expected,
                },
            )
        } else {
            None
        }
    }
}

} // verus!
