//! The marker of the last export.
//!
//! The marker is one small file that holds the time of the latest annotation
//! exported so far, as an RFC 3339 date and time. [`LastSyncFile`] is that
//! file as a value: where it lies and what it holds. The caller reads the
//! file into it before a run and writes it back afterwards.

use vstd::prelude::*;
use vstd::string::*;
use vstd::utf8::{decode_utf8, encode_utf8, encode_utf8_decode_utf8, valid_utf8};

use crate::calendar::{instant_of_text, rfc3339_text};
use crate::epoch::Timestamp;
use crate::errors::Errors;

verus! {

/// The directory of the program's own state, below the user's data directory.
pub const STATE_DIRECTORY: &'static str = "ibooks-export";

/// The name of the marker file in that directory.
pub const MARKER_FILE: &'static str = "last_sync";

/// `core::str::Utf8Error`: why bytes are no UTF-8 text.
#[verifier::external_type_specification]
#[verifier::external_body]
pub struct ExUtf8Error(core::str::Utf8Error);

/// `core::str::from_utf8` accepts exactly the byte sequences that are valid
/// UTF-8, and gives them back unchanged as text.
pub assume_specification[ core::str::from_utf8 ](v: &[u8]) -> (r: Result<
    &str,
    core::str::Utf8Error,
>)
    ensures
        r is Ok <==> valid_utf8(v@),
        r matches Ok(text) ==> encode_utf8(text@) == v@,
;

/// The marker file: its place and what it holds.
pub struct LastSyncFile {
    directory: String,
    path: String,
    contents: Option<Vec<u8>>,
}

/// The mathematical value of a [`LastSyncFile`].
pub ghost struct LastSyncFileView {
    /// The directory that holds the file.
    pub directory: Seq<char>,
    /// The file's path.
    pub path: Seq<char>,
    /// The file's bytes; `None` while there is no file.
    pub contents: Option<Seq<u8>>,
}

impl View for LastSyncFile {
    type V = LastSyncFileView;

    closed spec fn view(&self) -> LastSyncFileView {
        LastSyncFileView {
            directory: self.directory@,
            path: self.path@,
            contents: match self.contents {
                Some(bytes) => Some(bytes@),
                None => None,
            },
        }
    }
}

/// The marker that a file with these contents holds. No file is no marker;
/// a file that is not UTF-8 text, or whose text names no instant, is an
/// error.
pub open spec fn marker_of(contents: Option<Seq<u8>>) -> Result<Option<int>, Errors> {
    match contents {
        None => Ok(None),
        Some(bytes) => if valid_utf8(bytes) {
            marker_of_instant(instant_of_text(decode_utf8(bytes)))
        } else {
            Err(Errors::UnableToReadSyncFile)
        },
    }
}

/// The marker of a file whose text names `instant`, or names none.
pub open spec fn marker_of_instant(instant: Option<int>) -> Result<Option<int>, Errors> {
    match instant {
        Some(secs) => Ok(Some(secs)),
        None => Err(Errors::UnableToReadSyncFile),
    }
}

/// The result of reading a marker, with the instant as a number.
pub open spec fn marker_view(r: Result<Option<Timestamp>, Errors>) -> Result<Option<int>, Errors> {
    match r {
        Ok(Some(t)) => Ok(Some(t@)),
        Ok(None) => Ok(None),
        Err(e) => Err(e),
    }
}

/// The marker of a file whose text was read as `instant`: a file that is
/// there must name an instant.
pub fn marker_from_instant(instant: Option<Timestamp>) -> (r: Result<Option<Timestamp>, Errors>)
    ensures
        marker_view(r) == marker_of_instant(instant.deep_view()),
        instant matches Some(t) ==> r == Ok::<Option<Timestamp>, Errors>(Some(t)),
{
    match instant {
        Some(t) => Ok(Some(t)),
        None => Err(Errors::UnableToReadSyncFile),
    }
}

impl LastSyncFile {
    /// The marker file below the data directory `data_dir`, not read yet.
    /// Without a data directory there is no place for it.
    pub fn find(data_dir: &Option<String>) -> (r: Result<LastSyncFile, Errors>)
        ensures
            data_dir is None ==> (r matches Err(e) && e == Errors::UnableToFindProgramLocation),
            data_dir matches Some(d) ==> r matches Ok(file) && file@ == (LastSyncFileView {
                directory: d@ + "/"@ + STATE_DIRECTORY@,
                path: d@ + "/"@ + STATE_DIRECTORY@ + "/"@ + MARKER_FILE@,
                contents: None,
            }),
    {
        match data_dir {
            Some(d) => {
                let mut directory = d.clone();
                directory.append("/");
                directory.append(STATE_DIRECTORY);
                let mut path = directory.clone();
                path.append("/");
                path.append(MARKER_FILE);
                Ok(LastSyncFile { directory, path, contents: None })
            },
            None => Err(Errors::UnableToFindProgramLocation),
        }
    }

    /// The directory that holds the file.
    pub fn directory(&self) -> (directory: &String)
        ensures
            directory@ == self@.directory,
    {
        &self.directory
    }

    /// The file's path.
    pub fn path(&self) -> (path: &String)
        ensures
            path@ == self@.path,
    {
        &self.path
    }

    /// The file's bytes, `None` while there is no file.
    pub fn contents(&self) -> (contents: &Option<Vec<u8>>)
        ensures
            contents.deep_view() == self@.contents,
    {
        proof {
            match &self.contents {
                Some(bytes) => {
                    assert(bytes.deep_view() =~= bytes@);
                },
                None => {},
            }
        }
        &self.contents
    }

    /// Takes `bytes` as what the file holds.
    pub fn load(&mut self, bytes: Vec<u8>)
        ensures
            final(self)@ == (LastSyncFileView { contents: Some(bytes@), ..old(self)@ }),
    {
        self.contents = Some(bytes);
    }

    /// The marker that the file holds.
    pub fn read(&self) -> (r: Result<Option<Timestamp>, Errors>)
        ensures
            marker_view(r) == marker_of(self@.contents),
    {
        match &self.contents {
            None => Ok(None),
            Some(bytes) => match core::str::from_utf8(bytes.as_slice()) {
                Ok(text) => {
                    proof {
                        encode_utf8_decode_utf8(text@);
                    }
                    marker_from_instant(Timestamp::parse_from_rfc3339(text))
                },
                Err(_) => Err(Errors::UnableToReadSyncFile),
            },
        }
    }

    /// Makes `ts` the marker: the file then holds its RFC 3339 text.
    pub fn update(&mut self, ts: Timestamp)
        ensures
            final(self)@ == (LastSyncFileView {
                contents: Some(encode_utf8(rfc3339_text(ts@))),
                ..old(self)@
            }),
    {
        let text = ts.to_rfc3339();
        self.contents = Some(text.as_str().as_bytes_vec());
    }
}

} // verus!
