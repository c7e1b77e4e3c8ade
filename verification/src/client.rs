//! The decisions of the blocking client: its settings, the frame cap, the
//! deadline, reading a reply frame, and checking the reply against the
//! request. The socket calls stand outside this library.

use vstd::prelude::*;
use vstd::string::StringExecFns;
use crate::text::concat;
use crate::install::Platform;
use crate::cache::same_text;
use crate::envelope::{Fault, Outcome, Response, Version};
use crate::limits::{default_transport_limits, Limits};

verus! {

#[verifier::external_type_specification]
#[verifier::external_body]
pub struct ExIoError(std::io::Error);

/// A blocking client for one daemon socket. Each call opens one connection
/// and sends one request.
#[derive(Clone, Debug)]
pub struct Client {
    socket: String,
    version: Version,
    limits: Limits,
    deadline_ms: u64,
}

/// Why a call failed.
#[derive(Debug)]
#[non_exhaustive]
pub enum ClientError {
    /// No daemon listens at the socket path.
    Unavailable,
    /// The deadline passed.
    Timeout,
    /// The socket belongs to another user.
    PeerMismatch,
    /// The request or the response is larger than the frame cap.
    FrameTooLarge,
    /// The request body could not be serialized.
    Encode,
    /// The daemon closed the connection without a response, as it does for a
    /// request it refuses.
    Closed,
    /// The response is not a response envelope for this request.
    InvalidFrame,
    /// The handler's error, or one of the transport's own codes.
    Remote(Fault),
    /// Any other socket error.
    Io(std::io::Error),
}

impl Client {
    pub closed spec fn socket_view(&self) -> Seq<char> {
        self.socket@
    }

    pub closed spec fn version_view(&self) -> Version {
        self.version
    }

    pub closed spec fn limits_view(&self) -> Limits {
        self.limits
    }

    pub closed spec fn deadline_view(&self) -> u64 {
        self.deadline_ms
    }

    /// A client for the daemon at `socket` that speaks `version`, with the
    /// default limits and a 5 second deadline.
    pub fn new(socket: &str, version: Version) -> (client: Client)
        ensures
            client.socket_view() == socket@,
            client.version_view() == version,
            client.limits_view() == default_transport_limits(),
            client.deadline_view() == 5_000,
    {
        Client {
            socket: socket.to_owned(),
            version,
            limits: Limits::default(),
            deadline_ms: 5_000,
        }
    }

    /// Sets the one deadline, in milliseconds, for connect, write, and read
    /// together.
    pub fn with_deadline(self, deadline_ms: u64) -> (client: Client)
        ensures
            client.deadline_view() == deadline_ms,
            client.socket_view() == self.socket_view(),
            client.version_view() == self.version_view(),
            client.limits_view() == self.limits_view(),
    {
        Client { deadline_ms, ..self }
    }

    /// Sets the frame cap. The client uses only `max_frame_bytes`.
    pub fn with_limits(self, limits: Limits) -> (client: Client)
        ensures
            client.limits_view() == limits,
            client.socket_view() == self.socket_view(),
            client.version_view() == self.version_view(),
            client.deadline_view() == self.deadline_view(),
    {
        Client { limits, ..self }
    }

    /// The socket path.
    pub fn socket(&self) -> (socket: &str)
        ensures
            socket@ == self.socket_view(),
    {
        self.socket.as_str()
    }

    /// The version the client speaks.
    pub fn version(&self) -> (version: Version)
        ensures
            version == self.version_view(),
    {
        self.version
    }

    /// The largest frame in either direction.
    pub fn max_frame_bytes(&self) -> (max: usize)
        ensures
            max == self.limits_view().max_frame_bytes,
    {
        self.limits.max_frame_bytes
    }

    /// The deadline in milliseconds.
    pub fn deadline_ms(&self) -> (deadline: u64)
        ensures
            deadline == self.deadline_view(),
    {
        self.deadline_ms
    }

    /// Whether a request frame of `length` bytes, newline included, may be
    /// sent; a larger one fails with [`ClientError::FrameTooLarge`] before
    /// anything connects.
    pub fn request_fits(&self, length: usize) -> (fits: bool)
        ensures
            fits == (length <= self.limits_view().max_frame_bytes),
    {
        length <= self.limits.max_frame_bytes
    }

    /// What a call returns for the reply `response` to the request with id
    /// `request_id`: the handler's response, the handler's error as
    /// [`ClientError::Remote`], or [`ClientError::InvalidFrame`] when the
    /// reply answers another request, or answers under another major.
    pub fn accept<R>(&self, request_id: &str, response: Response<R>) -> (result: Result<
        R,
        ClientError,
    >)
        ensures
            response.id@ != request_id@ ==> result matches Err(ClientError::InvalidFrame),
            response.id@ == request_id@ ==> match response.outcome {
                Outcome::Reply(r) => if response.v.major != self.version_view().major {
                    result matches Err(ClientError::InvalidFrame)
                } else {
                    result == Ok::<R, ClientError>(r)
                },
                Outcome::Fault(f) => result matches Err(ClientError::Remote(g)) && g == f,
            },
    {
        if !same_text(response.id.as_str(), request_id) {
            return Err(ClientError::InvalidFrame);
        }
        match response.outcome {
            Outcome::Reply(r) => if response.v.major != self.version.major {
                Err(ClientError::InvalidFrame)
            } else {
                Ok(r)
            },
            Outcome::Fault(f) => Err(ClientError::Remote(f)),
        }
    }
}

/// The time left before `deadline`, both in the same unit, or
/// [`ClientError::Timeout`] once none is left.
pub fn left(deadline: u64, now: u64) -> (rest: Result<u64, ClientError>)
    ensures
        now < deadline ==> rest == Ok::<u64, ClientError>((deadline - now) as u64),
        now >= deadline ==> rest matches Err(ClientError::Timeout),
{
    if now < deadline {
        Ok(deadline - now)
    } else {
        Err(ClientError::Timeout)
    }
}

/// Whether the user the client sees listening on the socket is trusted: the
/// client's own user, which systemd runs the daemon as, or, under launchd,
/// root, which creates every agent's socket itself. On macOS the `0700`
/// directory around the socket is what keeps other users out.
pub fn listener_trusted(platform: Platform, listener: u32, own: u32) -> (trusted: bool)
    ensures
        trusted == (listener == own || (platform == Platform::MacOs && listener == 0)),
{
    listener == own || (platform == Platform::MacOs && listener == 0)
}

/// What a read of one chunk of the reply gives.
#[derive(Debug)]
pub enum ReadStep {
    /// No newline yet: read more.
    More,
    /// The frame before the first newline.
    Done(Vec<u8>),
    /// The frame, newline included, is longer than the cap.
    TooLarge,
}

/// The position of the first newline in `bytes` at or after `from`.
pub open spec fn first_newline(bytes: Seq<u8>, from: int) -> Option<int> {
    if exists|i: int| from <= i < bytes.len() && bytes[i] == 10u8 {
        Some(
            choose|i: int|
                from <= i < bytes.len() && bytes[i] == 10u8 && forall|j: int|
                    from <= j < i ==> bytes[j] != 10u8,
        )
    } else {
        None
    }
}

/// When `bytes` holds a newline at or after `from`, the first one is a
/// newline, in range, with none before it.
pub proof fn lemma_first_newline(bytes: Seq<u8>, from: int, i: int)
    requires
        from <= i < bytes.len(),
        bytes[i] == 10u8,
    ensures
        first_newline(bytes, from) is Some,
        ({
            let o = first_newline(bytes, from).unwrap();
            from <= o <= i && bytes[o] == 10u8 && forall|j: int| from <= j < o ==> bytes[j] != 10u8
        }),
    decreases i - from,
{
    if exists|j: int| from <= j < i && bytes[j] == 10u8 {
        let j = choose|j: int| from <= j < i && bytes[j] == 10u8;
        lemma_first_newline(bytes, from, j);
    } else {
        assert(from <= i < bytes.len() && bytes[i] == 10u8 && forall|j: int|
            from <= j < i ==> bytes[j] != 10u8);
    }
}

/// Reads one reply frame, chunk by chunk: up to the first newline, and never
/// more than the cap. Only the new bytes are searched, so a reply near the
/// cap costs one pass.
pub struct FrameReader {
    frame: Vec<u8>,
    max: usize,
}

impl FrameReader {
    pub closed spec fn frame_view(&self) -> Seq<u8> {
        self.frame@
    }

    pub closed spec fn max_view(&self) -> usize {
        self.max
    }

    /// A reader for a frame of at most `max` bytes, newline included.
    pub fn new(max: usize) -> (reader: FrameReader)
        ensures
            reader.frame_view() == Seq::<u8>::empty(),
            reader.max_view() == max,
    {
        FrameReader { frame: Vec::new(), max }
    }

    /// Takes the next chunk. With `before` the bytes read so far, which hold
    /// no newline: the frame is done at the chunk's first newline, unless the
    /// frame and its newline pass the cap; without a newline, a frame that
    /// reached the cap is too large.
    pub fn push(&mut self, chunk: &[u8]) -> (step: ReadStep)
        ensures
            final(self).max_view() == old(self).max_view(),
            ({
                let before = old(self).frame_view();
                let all = before + chunk@;
                match first_newline(chunk@, 0) {
                    Some(offset) => if before.len() + offset >= old(self).max_view() {
                        step is TooLarge
                    } else {
                        step matches ReadStep::Done(line) && line@ == all.take(
                            before.len() + offset,
                        )
                    },
                    None => if all.len() >= old(self).max_view() {
                        step is TooLarge
                    } else {
                        step is More && final(self).frame_view() == all
                    },
                }
            }),
    {
        let start = self.frame.len();
        let mut i: usize = 0;
        while i < chunk.len() && chunk[i] != 10u8
            invariant
                i <= chunk@.len(),
                forall|j: int| 0 <= j < i ==> chunk@[j] != 10u8,
            decreases chunk@.len() - i,
        {
            i = i + 1;
        }
        let ghost before = self.frame@;
        let mut k: usize = 0;
        while k < chunk.len()
            invariant
                k <= chunk@.len(),
                self.max == old(self).max,
                self.frame@ == before + chunk@.take(k as int),
            decreases chunk@.len() - k,
        {
            self.frame.push(chunk[k]);
            assert(chunk@.take(k + 1) =~= chunk@.take(k as int).push(chunk@[k as int]));
            k = k + 1;
        }
        assert(chunk@.take(chunk@.len() as int) =~= chunk@);
        let total = self.frame.len();
        if i < chunk.len() {
            proof {
                let o = choose|o: int|
                    0 <= o < chunk@.len() && chunk@[o] == 10u8 && forall|j: int|
                        0 <= j < o ==> chunk@[j] != 10u8;
                assert(chunk@[i as int] == 10u8);
                if o < i {
                } else if o > i {
                }
                assert(o == i);
            }
            assert(start + i <= total);
            let end = start + i;
            if end >= self.max {
                return ReadStep::TooLarge;
            }
            let mut line: Vec<u8> = Vec::new();
            let mut m: usize = 0;
            while m < end
                invariant
                    m <= end,
                    end <= self.frame@.len(),
                    line@ == self.frame@.take(m as int),
                decreases end - m,
            {
                line.push(self.frame[m]);
                assert(self.frame@.take(m + 1) =~= self.frame@.take(m as int).push(
                    self.frame@[m as int],
                ));
                m = m + 1;
            }
            return ReadStep::Done(line);
        }
        if self.frame.len() >= self.max {
            return ReadStep::TooLarge;
        }
        ReadStep::More
    }

    /// What was read before the stream ended without a newline: the last
    /// frame, as a line reader gives it at the end of its input, or `None`
    /// when nothing was read. The server takes a request this way.
    pub fn rest(&self) -> (rest: Option<Vec<u8>>)
        ensures
            self.frame_view().len() == 0 ==> rest is None,
            self.frame_view().len() > 0 ==> (rest matches Some(r) && r@ == self.frame_view()),
    {
        if self.frame.len() == 0 {
            return None;
        }
        let mut out: Vec<u8> = Vec::new();
        let mut i: usize = 0;
        while i < self.frame.len()
            invariant
                i <= self.frame.len(),
                out@ == self.frame@.take(i as int),
            decreases self.frame.len() - i,
        {
            out.push(self.frame[i]);
            assert(self.frame@.take(i + 1) =~= self.frame@.take(i as int).push(self.frame@[i as int]));
            i = i + 1;
        }
        assert(self.frame@.take(self.frame.len() as int) =~= self.frame@);
        Some(out)
    }

    /// What the end of the stream before a newline means: the daemon closed
    /// the connection without a reply, or sent a partial frame.
    pub fn eof(&self) -> (error: ClientError)
        ensures
            self.frame_view().len() == 0 ==> error is Closed,
            self.frame_view().len() > 0 ==> error is InvalidFrame,
    {
        if self.frame.len() == 0 {
            ClientError::Closed
        } else {
            ClientError::InvalidFrame
        }
    }
}


/// The `Display` text of an I/O error. What the text is, std does not
/// promise.
#[verifier::external_body]
pub(crate) fn io_error_text(error: &std::io::Error) -> String {
    error.to_string()
}

impl ClientError {
    /// What went wrong, for a person. A socket error gives its own text after
    /// `socket error: `; a remote fault gives its code and message.
    pub fn describe(&self) -> (text: String)
        ensures
            match self {
                ClientError::Unavailable => text@ == "no daemon is listening"@,
                ClientError::Timeout => text@ == "the daemon did not answer in time"@,
                ClientError::PeerMismatch => text@ == "the daemon runs as another user"@,
                ClientError::FrameTooLarge => text@ == "a frame is larger than the cap"@,
                ClientError::Encode => text@ == "the request could not be serialized"@,
                ClientError::Closed => text@ == "the daemon closed the connection"@,
                ClientError::InvalidFrame => text@ == "the daemon sent an invalid response"@,
                ClientError::Remote(fault) => text@ == fault.code@ + ": "@ + fault.message@,
                ClientError::Io(_) => exists|error: Seq<char>| text@ == "socket error: "@ + error,
            },
    {
        match self {
            ClientError::Unavailable => "no daemon is listening".to_owned(),
            ClientError::Timeout => "the daemon did not answer in time".to_owned(),
            ClientError::PeerMismatch => "the daemon runs as another user".to_owned(),
            ClientError::FrameTooLarge => "a frame is larger than the cap".to_owned(),
            ClientError::Encode => "the request could not be serialized".to_owned(),
            ClientError::Closed => "the daemon closed the connection".to_owned(),
            ClientError::InvalidFrame => "the daemon sent an invalid response".to_owned(),
            ClientError::Remote(fault) => {
                let mut text = concat(fault.code.as_str(), ": ");
                text.append(fault.message.as_str());
                text
            },
            ClientError::Io(error) => {
                let error_text = io_error_text(error);
                let text = concat("socket error: ", error_text.as_str());
                assert(text@ == "socket error: "@ + error_text@);
                text
            },
        }
    }
}

} // verus!
