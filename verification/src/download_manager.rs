use vstd::prelude::*;
use crate::models::{DownloadConfig, DownloadItem, DownloadStatus, tracker_name};
use crate::numbers::{decimal, push_decimal};

verus! {

/// The byte offset at which a resumed transfer continues: the server
/// ignored the range request when it answered 200 to a request that had one,
/// so the transfer starts over.
pub open spec fn effective_start(start_byte: u64, status: u16) -> u64 {
    if start_byte > 0 && status == 200 { 0 } else { start_byte }
}

/// A 2xx status.
pub open spec fn is_success(status: u16) -> bool {
    200 <= status < 300
}

/// The announced total of a transfer that continues at `start`.
pub open spec fn announced_total(content_length: Option<u64>, start: u64) -> Option<u64> {
    match content_length {
        Some(len) => Some((len + start) as u64),
        None => None,
    }
}

/// What to do with the server's answer.
#[derive(Debug)]
pub enum ResponseAction {
    /// The server says the range is past the end: the file is complete
    /// with `downloaded` bytes, out of `total`.
    AlreadyComplete { downloaded: u64, total: Option<u64> },
    /// The status is an error; the download fails.
    HttpError,
    /// Write the body to the destination, appending to it when `append`,
    /// else creating (or truncating) it; the file holds `start_byte` bytes
    /// before the body.
    Write { append: bool, start_byte: u64 },
}

/// What to do after a read from the body.
#[derive(Debug)]
pub enum ChunkAction {
    /// Write the bytes read and read again.
    Continue,
    /// The body is exhausted: the file holds `downloaded` bytes; `expected`
    /// is the announced total.
    Finished { downloaded: u64, expected: Option<u64> },
}

/// The bookkeeping of one download: where it resumes, how many bytes the
/// destination file holds, and how many the server announced.
pub struct DownloadSession {
    start_byte: u64,
    downloaded: u64,
    expected: Option<u64>,
}

impl DownloadSession {
    pub closed spec fn start(&self) -> u64 {
        self.start_byte
    }

    pub closed spec fn bytes(&self) -> u64 {
        self.downloaded
    }

    pub closed spec fn expected_total(&self) -> Option<u64> {
        self.expected
    }

    /// Whether `on_response` can take this answer: the announced total of an
    /// accepted body must fit in 64 bits.
    pub fn response_fits(&self, status: u16, content_length: Option<u64>) -> (b: bool)
        ensures
            b == (status == 416 || !is_success(status) || content_length is None
                || content_length->0 + effective_start(self.start(), status) <= u64::MAX),
    {
        if status == 416 || !(200 <= status && status < 300) {
            return true;
        }
        match content_length {
            None => true,
            Some(len) => {
                let start = if self.start_byte > 0 && status == 200 { 0 } else { self.start_byte };
                len <= u64::MAX - start
            },
        }
    }

    /// Whether `on_chunk` can count `bytes_read` more bytes.
    pub fn chunk_fits(&self, bytes_read: usize) -> (b: bool)
        ensures
            b == (self.bytes() + bytes_read <= u64::MAX),
    {
        bytes_read as u64 <= u64::MAX - self.downloaded
    }

    /// The byte offset the transfer continues at.
    pub fn start_byte(&self) -> (b: u64)
        ensures
            b == self.start(),
    {
        self.start_byte
    }

    /// A session for a destination that already holds `resume_from` bytes.
    pub fn new(resume_from: u64) -> (s: DownloadSession)
        ensures
            s.start() == resume_from,
            s.bytes() == resume_from,
            s.expected_total() is None,
    {
        DownloadSession { start_byte: resume_from, downloaded: resume_from, expected: None }
    }

    /// The HTTP `Range` header to send: none for a fresh download, else
    /// `bytes=<start>-`.
    pub fn range_header(&self) -> (h: Option<String>)
        ensures
            self.start() == 0 ==> h is None,
            self.start() > 0 ==> h is Some && h->0@ == "bytes="@ + decimal(self.start() as nat) + "-"@,
    {
        if self.start_byte == 0 {
            None
        } else {
            let mut h = String::from_str("bytes=");
            push_decimal(&mut h, self.start_byte);
            h.append("-");
            Some(h)
        }
    }

    /// Takes the response's status and announced body length. A 416 means
    /// the file is already complete; a status outside 2xx is an error;
    /// otherwise the body is written, from the start when the server ignored
    /// the range request.
    pub fn on_response(&mut self, status: u16, content_length: Option<u64>) -> (a: ResponseAction)
        requires
            status == 416 || !is_success(status) || content_length is None
                || content_length->0 + effective_start(old(self).start(), status) <= u64::MAX,
        ensures
            status == 416 ==> a == (ResponseAction::AlreadyComplete {
                downloaded: old(self).start(),
                total: Some(old(self).start()),
            }) && *final(self) == *old(self),
            status != 416 && !is_success(status) ==> a is HttpError && *final(self) == *old(self),
            status != 416 && is_success(status) ==> {
                let st = effective_start(old(self).start(), status);
                &&& a == (ResponseAction::Write { append: st > 0, start_byte: st })
                &&& final(self).start() == st
                &&& final(self).bytes() == st
                &&& final(self).expected_total() == announced_total(content_length, st)
            },
    {
        if status == 416 {
            return ResponseAction::AlreadyComplete { downloaded: self.start_byte, total: Some(self.start_byte) };
        }
        if !(200 <= status && status < 300) {
            return ResponseAction::HttpError;
        }
        if self.start_byte > 0 && status == 200 {
            self.start_byte = 0;
        }
        self.downloaded = self.start_byte;
        self.expected = match content_length {
            Some(len) => Some(len + self.start_byte),
            None => None,
        };
        ResponseAction::Write { append: self.start_byte > 0, start_byte: self.start_byte }
    }

    /// Takes the number of bytes the last read of the body returned; 0
    /// means the body is exhausted.
    pub fn on_chunk(&mut self, bytes_read: usize) -> (a: ChunkAction)
        requires
            old(self).bytes() + bytes_read <= u64::MAX,
        ensures
            final(self).start() == old(self).start(),
            final(self).expected_total() == old(self).expected_total(),
            bytes_read == 0 ==> final(self).bytes() == old(self).bytes() && a == (ChunkAction::Finished {
                downloaded: old(self).bytes(),
                expected: old(self).expected_total(),
            }),
            bytes_read > 0 ==> final(self).bytes() == old(self).bytes() + bytes_read && a is Continue,
    {
        if bytes_read == 0 {
            ChunkAction::Finished { downloaded: self.downloaded, expected: self.expected }
        } else {
            self.downloaded = self.downloaded + bytes_read as u64;
            ChunkAction::Continue
        }
    }

    /// The bytes the destination holds, and the announced total.
    pub fn result(&self) -> (r: (u64, Option<u64>))
        ensures
            r == (self.bytes(), self.expected_total()),
    {
        (self.downloaded, self.expected)
    }
}

/// The name given to the `i`-th (from 0) entry of a new tracker.
pub open spec fn numbered_name(i: int) -> Seq<char> {
    "Download "@ + decimal((i + 1) as nat)
}

/// Where a new tracker puts the download with id `id`.
pub open spec fn default_destination(id: Seq<char>) -> Seq<char> {
    "downloads/"@ + id + ".txt"@
}

/// A tracker with one not-started entry, without URL, per id, in order.
/// The application saves it to the tracking file.
pub fn initialize_tracker(ids: Vec<String>) -> (c: DownloadConfig)
    ensures
        c.name@ == tracker_name(),
        c.downloads@.len() == ids@.len(),
        forall|i: int| 0 <= i < ids@.len() ==> {
            let item = #[trigger] c.downloads@[i];
            &&& item.id == ids@[i]
            &&& item.name@ == numbered_name(i)
            &&& item.url@.len() == 0
            &&& item.destination@ == default_destination(ids@[i]@)
            &&& item.status_info is NotStarted
        },
{
    let mut downloads: Vec<DownloadItem> = Vec::new();
    let len = ids.len();
    let mut i: usize = 0;
    while i < len
        invariant
            i <= len,
            len == ids@.len(),
            downloads@.len() == i,
            forall|k: int| 0 <= k < i ==> {
                let item = #[trigger] downloads@[k];
                &&& item.id == ids@[k]
                &&& item.name@ == numbered_name(k)
                &&& item.url@.len() == 0
                &&& item.destination@ == default_destination(ids@[k]@)
                &&& item.status_info is NotStarted
            },
        decreases len - i,
    {
        let id = ids[i].clone();
        let mut name = String::from_str("Download ");
        push_decimal(&mut name, i as u64 + 1);
        let mut destination = String::from_str("downloads/");
        destination.append(id.as_str());
        destination.append(".txt");
        downloads.push(DownloadItem { id, name, url: String::new(), destination, status_info: DownloadStatus::NotStarted });
        i += 1;
    }
    DownloadConfig { name: String::from_str("Dowman Download Tracker"), downloads }
}

} // verus!
