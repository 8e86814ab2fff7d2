//! The decisions around handing a stream to an HTTP consumer: what the
//! first peek at the stream means, how a partial-content range is put
//! together, and the trigger whose consumption stops the upstream
//! subscription.

use vstd::prelude::*;

use crate::decimal::dec_of;
use crate::decimal::u64_to_string;
use crate::errors::Error;
use crate::models::TunerSubscriptionId;

verus! {

/// What the first look at a fresh stream found, within the allowed wait.
#[derive(Clone, Copy, PartialEq, Eq, Structural, Debug)]
pub enum FirstPeek {
    /// The stream ended before yielding anything.
    EndOfStream,
    /// Nothing arrived within the time limit.
    TimedOut,
    /// A first chunk is there.
    Chunk,
}

/// Whether streaming may begin: an upstream that ends at once means the
/// program is gone; one that stays silent past the limit timed out; a
/// first chunk opens the response.
pub fn classify_first_peek(peek: FirstPeek) -> (r: Result<(), Error>)
    ensures
        peek is EndOfStream ==> r == Err::<(), Error>(Error::ProgramNotFound),
        peek is TimedOut ==> r == Err::<(), Error>(Error::StreamingTimedOut),
        peek is Chunk ==> r == Ok::<(), Error>(()),
{
    match peek {
        FirstPeek::EndOfStream => Err(Error::ProgramNotFound),
        FirstPeek::TimedOut => Err(Error::StreamingTimedOut),
        FirstPeek::Chunk => Ok(()),
    }
}

/// A byte range of a sized body: first and last byte served, of `size` in
/// all.
#[derive(Clone, Copy, PartialEq, Eq, Structural, Debug)]
pub struct StreamRange {
    pub first: u64,
    pub last: u64,
    pub size: u64,
}

impl StreamRange {
    pub open spec fn wf(self) -> bool {
        self.first <= self.last && self.last < self.size
    }

    /// A range over `[first, size)`. Fails on an empty or overrunning
    /// range.
    pub fn new(first: u64, size: u64) -> (r: Result<StreamRange, Error>)
        ensures
            first < size ==> r == Ok::<StreamRange, Error>(
                (StreamRange { first, last: (size - 1) as u64, size }),
            ),
            first >= size ==> r == Err::<StreamRange, Error>(Error::OutOfRange),
            r matches Ok(v) ==> v.wf(),
    {
        if first < size {
            Ok(StreamRange { first, last: size - 1, size })
        } else {
            Err(Error::OutOfRange)
        }
    }

    /// Anything short of the whole body is partial and served as 206.
    pub fn is_partial(&self) -> (r: bool)
        requires
            self.wf(),
        ensures
            r == !(self.first == 0 && self.last == self.size - 1),
    {
        !(self.first == 0 && self.last == self.size - 1)
    }

    /// How many bytes the range covers.
    pub fn bytes(&self) -> (r: u64)
        requires
            self.wf(),
        ensures
            r == self.last - self.first + 1,
    {
        self.last - self.first + 1
    }

    /// The `content-range` header value: `bytes <first>-<last>/<size>`.
    pub fn make_content_range(&self) -> (r: String)
        ensures
            r@ == "bytes "@ + dec_of(self.first as nat) + "-"@ + dec_of(self.last as nat) + "/"@
                + dec_of(self.size as nat),
    {
        let mut out = String::from_str("bytes ");
        out.append(u64_to_string(self.first).as_str());
        out.append("-");
        out.append(u64_to_string(self.last).as_str());
        out.append("/");
        out.append(u64_to_string(self.size).as_str());
        out
    }
}

/// The byte ranges an HTTP `Range` header asks of a body of `size` bytes:
/// `(start, length)` pairs, or nothing when the header is unreadable or
/// asks only for ranges past the end.
pub uninterp spec fn http_ranges_of(header: Seq<char>, size: u64) -> Option<Seq<(u64, u64)>>;

/// Relies on http_range's HttpRange::parse: the outcome is a function of
/// the header text and the size alone, and its source keeps every range
/// it returns within the body. For a body with bytes, each range starts
/// before the end, covers at least one byte and ends within the body; a
/// zero-sized body can only yield the empty range at its start, since the
/// suffix form clamps its length to the body.
#[verifier::external_body]
fn parse_http_ranges(header: &str, size: u64) -> (r: Option<Vec<(u64, u64)>>)
    ensures
        match r {
            Some(v) => http_ranges_of(header@, size) == Some(
                v@,
            ) && forall|i: int|
                0 <= i < v@.len() ==> (#[trigger] v@[i]).0 <= size && v@[i].0 + v@[i].1 <= size
                    && (size > 0 ==> v@[i].0 < size && v@[i].1 >= 1),
            None => http_ranges_of(header@, size) is None,
        },
{
    match http_range::HttpRange::parse(header, size) {
        Ok(ranges) => Some(ranges.iter().map(|r| (r.start, r.length)).collect()),
        Err(_) => None,
    }
}

/// Where a timeshift record stream starts: the first requested range's
/// start, as the consumer's `Range` header names it, or the
/// record's beginning where there is no usable header.
pub fn record_stream_start(header: &Option<String>, size: u64) -> (r: Option<u64>)
    ensures
        match header {
            Some(h) => match http_ranges_of(h@, size) {
                Some(ranges) => if ranges.len() > 0 {
                    r == Some(ranges[0].0) && ranges[0].0 <= size && (size > 0 ==> ranges[0].0
                        < size)
                } else {
                    r is None
                },
                None => r is None,
            },
            None => r is None,
        },
{
    match header {
        Option::None => Option::None,
        Option::Some(h) => {
            match parse_http_ranges(h.as_str(), size) {
                Option::None => Option::None,
                Option::Some(ranges) => {
                    if ranges.len() > 0 {
                        Option::Some(ranges[0].0)
                    } else {
                        Option::None
                    }
                },
            }
        },
    }
}

} // verus!
