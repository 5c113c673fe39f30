//! The incremental frame parser: bytes go in at the tail of a queue, typed
//! frames come out at its head, and a frame that is not yet whole is left
//! untouched.

use crate::buffer::{
    buf_advance, buf_extend, buf_get_i32, buf_get_u16, buf_get_u32, buf_get_u8, buf_slice,
    buf_view, buf_with_capacity,
};
use crate::wire::{be16, be32, be32_signed, peek_u16, peek_u32};
use bytes::BytesMut;
use vstd::prelude::*;

verus! {

/// The security types a client may select.
#[derive(Debug, Clone, Copy, PartialEq, Eq, Structural)]
pub enum Security {
    /// Security type 1: no authentication.
    NoAuth,
}

/// Whether the client asks for the desktop alone or agrees to share it.
#[derive(Debug, Clone, Copy, PartialEq, Eq, Structural)]
pub enum Access {
    Exclusive,
    Shared,
}

/// A rectangle of the framebuffer that the client wants to be sent.
#[derive(Debug, Clone, Copy, PartialEq, Eq, Structural)]
pub struct UpdateRequest {
    pub incremental: bool,
    pub xpos: usize,
    pub ypos: usize,
    pub width: usize,
    pub height: usize,
}

/// One message of the client, decoded.
#[derive(Debug, PartialEq, Eq)]
pub enum Frame {
    ProtocolVersion(String),
    SecuritySelection(Security),
    ClientInit(Access),
    SetPixelFormat,
    SetEncodings(Vec<i32>),
    KeyEvent(u8, u32),
    PointerEvent(u8, u16, u16),
    ClientCutText,
    FramebufferUpdateRequest(UpdateRequest),
    EOF,
}

/// A frame as a mathematical value.
pub enum FrameView {
    ProtocolVersion(Seq<char>),
    SecuritySelection(Security),
    ClientInit(Access),
    SetPixelFormat,
    SetEncodings(Seq<i32>),
    KeyEvent(u8, u32),
    PointerEvent(u8, u16, u16),
    ClientCutText,
    FramebufferUpdateRequest(UpdateRequest),
    EOF,
}

impl View for Frame {
    type V = FrameView;

    open spec fn view(&self) -> FrameView {
        match *self {
            Frame::ProtocolVersion(text) => FrameView::ProtocolVersion(text@),
            Frame::SecuritySelection(kind) => FrameView::SecuritySelection(kind),
            Frame::ClientInit(access) => FrameView::ClientInit(access),
            Frame::SetPixelFormat => FrameView::SetPixelFormat,
            Frame::SetEncodings(list) => FrameView::SetEncodings(list@),
            Frame::KeyEvent(down, keysym) => FrameView::KeyEvent(down, keysym),
            Frame::PointerEvent(buttons, x, y) => FrameView::PointerEvent(buttons, x, y),
            Frame::ClientCutText => FrameView::ClientCutText,
            Frame::FramebufferUpdateRequest(request) => FrameView::FramebufferUpdateRequest(
                request,
            ),
            Frame::EOF => FrameView::EOF,
        }
    }
}

/// Why the parser gave up. After the first failure every pull reports
/// `EarlierFailure`.
#[derive(Debug, Clone, Copy, PartialEq, Eq, Structural)]
pub enum ParseError {
    EarlierFailure,
    HandshakeTooLong,
    InvalidHandshakeByte,
    InvalidSecurity(u8),
    InvalidMessage(u8),
}

/// The character of a decimal digit.
pub open spec fn digit(d: u8) -> char {
    (48 + d) as char
}

/// A byte in decimal, without leading zeros.
pub open spec fn decimal(n: u8) -> Seq<char> {
    if n >= 100 {
        seq![digit(n / 100), digit((n / 10) % 10), digit(n % 10)]
    } else if n >= 10 {
        seq![digit(n / 10), digit(n % 10)]
    } else {
        seq![digit(n)]
    }
}

/// What an error says for itself.
pub open spec fn message_text(error: ParseError) -> Seq<char> {
    match error {
        ParseError::EarlierFailure => "earlier failure"@,
        ParseError::HandshakeTooLong => "handshake too long"@,
        ParseError::InvalidHandshakeByte => "invalid handshake byte"@,
        ParseError::InvalidSecurity(code) => "invalid security "@ + decimal(code),
        ParseError::InvalidMessage(id) => "invalid message "@ + decimal(id),
    }
}

/// What the parser expects next. The stages follow one another in this
/// order and `Message` lasts.
#[derive(Debug, Clone, Copy, PartialEq, Eq, Structural)]
pub enum Stage {
    Version,
    SecuritySelection,
    ClientInit,
    Message,
}

/// The most bytes a version line may hold before its newline.
pub const MAX_VERSION_LINE: usize = 100;

/// What the head of a byte queue amounts to at a given stage.
pub enum Decoded {
    /// No whole frame yet: more bytes are needed.
    Incomplete,
    /// A frame, the number of bytes it occupies and the stage after it.
    Complete { frame: FrameView, used: nat, next: Stage },
    /// The bytes cannot be a frame; `used` bytes were read to find out.
    Invalid { error: ParseError, used: nat },
}

/// How a version line ends.
pub enum LineEnd {
    /// No newline yet, and room for more bytes.
    Open,
    /// More than `MAX_VERSION_LINE` bytes and no newline among them.
    TooLong,
    /// The position of the newline.
    At(int),
}

/// Looks for the newline that ends the version line, from `from` on.
pub open spec fn line_end(bytes: Seq<u8>, from: int) -> LineEnd
    decreases MAX_VERSION_LINE + 1 - from,
{
    if from > MAX_VERSION_LINE {
        LineEnd::TooLong
    } else if from >= bytes.len() {
        LineEnd::Open
    } else if bytes[from] == 10 {
        LineEnd::At(from)
    } else {
        line_end(bytes, from + 1)
    }
}

/// The position of the first byte that is not ASCII in `bytes[from..end]`.
pub open spec fn first_high(bytes: Seq<u8>, from: int, end: int) -> Option<int>
    decreases end - from,
{
    if from >= end {
        None
    } else if bytes[from] >= 128 {
        Some(from)
    } else {
        first_high(bytes, from + 1, end)
    }
}

/// The first `len` bytes as text.
pub open spec fn ascii_text(bytes: Seq<u8>, len: int) -> Seq<char> {
    Seq::new(len as nat, |i: int| bytes[i] as char)
}

/// The version line: ASCII text up to a newline that at most
/// `MAX_VERSION_LINE` bytes precede. The limit is on the line itself, so the
/// verdict does not depend on how the bytes were cut into chunks.
pub open spec fn decode_version(bytes: Seq<u8>) -> Decoded {
    match line_end(bytes, 0) {
        LineEnd::Open => Decoded::Incomplete,
        LineEnd::TooLong => Decoded::Invalid { error: ParseError::HandshakeTooLong, used: 0 },
        LineEnd::At(end) => match first_high(bytes, 0, end) {
            Some(at) => Decoded::Invalid {
                error: ParseError::InvalidHandshakeByte,
                used: (at + 1) as nat,
            },
            None => Decoded::Complete {
                frame: FrameView::ProtocolVersion(ascii_text(bytes, end)),
                used: (end + 1) as nat,
                next: Stage::SecuritySelection,
            },
        },
    }
}

/// The security selection: one byte, which must be 1.
pub open spec fn decode_security(bytes: Seq<u8>) -> Decoded {
    if bytes.len() < 1 {
        Decoded::Incomplete
    } else if bytes[0] != 1 {
        Decoded::Invalid { error: ParseError::InvalidSecurity(bytes[0]), used: 1 }
    } else {
        Decoded::Complete {
            frame: FrameView::SecuritySelection(Security::NoAuth),
            used: 1,
            next: Stage::ClientInit,
        }
    }
}

/// The client's initialisation: one byte, 0 for exclusive access.
pub open spec fn decode_client_init(bytes: Seq<u8>) -> Decoded {
    if bytes.len() < 1 {
        Decoded::Incomplete
    } else {
        Decoded::Complete {
            frame: FrameView::ClientInit(
                if bytes[0] == 0 {
                    Access::Exclusive
                } else {
                    Access::Shared
                },
            ),
            used: 1,
            next: Stage::Message,
        }
    }
}

/// The 16-bit field at `at`.
pub open spec fn field16(bytes: Seq<u8>, at: int) -> u16 {
    be16(bytes[at], bytes[at + 1])
}

/// The 32-bit field at `at`.
pub open spec fn field32(bytes: Seq<u8>, at: int) -> u32 {
    be32(bytes[at], bytes[at + 1], bytes[at + 2], bytes[at + 3])
}

/// The encoding identifiers of a SetEncodings message that lists `count`.
pub open spec fn encodings(bytes: Seq<u8>, count: nat) -> Seq<i32> {
    Seq::new(
        count,
        |i: int|
            be32_signed(
                bytes[4 + 4 * i],
                bytes[4 + 4 * i + 1],
                bytes[4 + 4 * i + 2],
                bytes[4 + 4 * i + 3],
            ),
    )
}

/// A message of the serving stage, told by its first byte. Its whole length
/// must be present before it counts.
pub open spec fn decode_message(bytes: Seq<u8>) -> Decoded {
    if bytes.len() < 1 {
        Decoded::Incomplete
    } else if bytes[0] == 0 {
        if bytes.len() < 20 {
            Decoded::Incomplete
        } else {
            Decoded::Complete { frame: FrameView::SetPixelFormat, used: 20, next: Stage::Message }
        }
    } else if bytes[0] == 2 {
        if bytes.len() < 4 || bytes.len() < 4 + 4 * field16(bytes, 2) {
            Decoded::Incomplete
        } else {
            Decoded::Complete {
                frame: FrameView::SetEncodings(encodings(bytes, field16(bytes, 2) as nat)),
                used: (4 + 4 * field16(bytes, 2)) as nat,
                next: Stage::Message,
            }
        }
    } else if bytes[0] == 3 {
        if bytes.len() < 10 {
            Decoded::Incomplete
        } else {
            Decoded::Complete {
                frame: FrameView::FramebufferUpdateRequest(
                    UpdateRequest {
                        incremental: bytes[1] != 0,
                        xpos: field16(bytes, 2) as usize,
                        ypos: field16(bytes, 4) as usize,
                        width: field16(bytes, 6) as usize,
                        height: field16(bytes, 8) as usize,
                    },
                ),
                used: 10,
                next: Stage::Message,
            }
        }
    } else if bytes[0] == 4 {
        if bytes.len() < 8 {
            Decoded::Incomplete
        } else {
            Decoded::Complete {
                frame: FrameView::KeyEvent(bytes[1], field32(bytes, 4)),
                used: 8,
                next: Stage::Message,
            }
        }
    } else if bytes[0] == 5 {
        if bytes.len() < 6 {
            Decoded::Incomplete
        } else {
            Decoded::Complete {
                frame: FrameView::PointerEvent(bytes[1], field16(bytes, 2), field16(bytes, 4)),
                used: 6,
                next: Stage::Message,
            }
        }
    } else if bytes[0] == 6 {
        if bytes.len() < 8 || bytes.len() < 8 + field32(bytes, 4) {
            Decoded::Incomplete
        } else {
            Decoded::Complete {
                frame: FrameView::ClientCutText,
                used: (8 + field32(bytes, 4)) as nat,
                next: Stage::Message,
            }
        }
    } else {
        Decoded::Invalid { error: ParseError::InvalidMessage(bytes[0]), used: 0 }
    }
}

/// What the head of the queue amounts to at `stage`.
pub open spec fn decode(stage: Stage, bytes: Seq<u8>) -> Decoded {
    match stage {
        Stage::Version => decode_version(bytes),
        Stage::SecuritySelection => decode_security(bytes),
        Stage::ClientInit => decode_client_init(bytes),
        Stage::Message => decode_message(bytes),
    }
}

/// The parser as a mathematical value.
#[verifier::ext_equal]
pub struct ParserState {
    /// What is expected next.
    pub stage: Stage,
    /// The bytes received and not yet consumed.
    pub bytes: Seq<u8>,
    /// Whether the byte source has ended.
    pub eof: bool,
    /// Whether the parser has failed; it never recovers.
    pub failed: bool,
}

/// What one pull hands out: a frame, nothing yet, or an error.
pub type Pulled = Result<Option<FrameView>, ParseError>;

/// One pull: the state after it and what it hands out.
pub open spec fn pull_spec(p: ParserState) -> (ParserState, Pulled) {
    if p.failed {
        (p, Err(ParseError::EarlierFailure))
    } else if p.bytes.len() == 0 {
        (
            p,
            Ok(
                if p.eof {
                    Some(FrameView::EOF)
                } else {
                    None
                },
            ),
        )
    } else {
        match decode(p.stage, p.bytes) {
            Decoded::Incomplete => (p, Ok(None)),
            Decoded::Complete { frame, used, next } => (
                ParserState { stage: next, bytes: p.bytes.skip(used as int), ..p },
                Ok(Some(frame)),
            ),
            Decoded::Invalid { error, used } => (
                ParserState { bytes: p.bytes.skip(used as int), failed: true, ..p },
                Err(error),
            ),
        }
    }
}

/// The result of a pull as a mathematical value.
pub open spec fn pulled_view(r: Result<Option<Frame>, ParseError>) -> Pulled {
    match r {
        Ok(Some(frame)) => Ok(Some(frame@)),
        Ok(None) => Ok(None),
        Err(error) => Err(error),
    }
}

/// The state after new input: bytes join the tail, an empty chunk marks the
/// end of the source, and nothing is taken in after the end.
pub open spec fn feed(p: ParserState, chunk: Seq<u8>) -> ParserState {
    if p.eof {
        p
    } else if chunk.len() == 0 {
        ParserState { eof: true, ..p }
    } else {
        ParserState { bytes: p.bytes + chunk, ..p }
    }
}

/// Why a run of pulls stopped.
#[derive(Debug, Clone, Copy, PartialEq, Eq, Structural)]
pub enum Progress {
    /// The queue holds no whole frame: more bytes are needed.
    Starved,
    /// The source has ended and the queue is empty.
    Ended,
    /// The parser failed.
    Failed(ParseError),
}

/// The outcome of pulling until no frame comes.
#[verifier::ext_equal]
pub struct Drained {
    /// The frames handed out, in order.
    pub frames: Seq<FrameView>,
    /// The parser afterwards.
    pub state: ParserState,
    /// Why no further frame came.
    pub stop: Progress,
}

/// Pulls until a pull hands out no frame or hands out `EOF`, which ends
/// the sequence without being part of it.
pub open spec fn drain_spec(p: ParserState) -> Drained
    decreases p.bytes.len(),
    via drain_decreases
{
    let (q, r) = pull_spec(p);
    match r {
        Err(error) => Drained { frames: Seq::empty(), state: q, stop: Progress::Failed(error) },
        Ok(None) => Drained { frames: Seq::empty(), state: q, stop: Progress::Starved },
        Ok(Some(frame)) => if frame is EOF {
            Drained { frames: Seq::empty(), state: q, stop: Progress::Ended }
        } else {
            let rest = drain_spec(q);
            Drained { frames: seq![frame] + rest.frames, ..rest }
        },
    }
}

#[via_fn]
proof fn drain_decreases(p: ParserState) {
    lemma_decode_bounds(p.stage, p.bytes);
}

/// A frame occupies at least one byte and no more than the queue holds, a
/// failure reads no more than the queue holds, and no frame decoded from
/// bytes is `EOF`.
pub proof fn lemma_decode_bounds(stage: Stage, bytes: Seq<u8>)
    ensures
        match decode(stage, bytes) {
            Decoded::Incomplete => true,
            Decoded::Complete { frame, used, next } => 1 <= used <= bytes.len() && !(frame is EOF),
            Decoded::Invalid { error, used } => used <= bytes.len() && error
                != ParseError::EarlierFailure,
        },
{
    if stage == Stage::Version {
        lemma_line_end_at(bytes, 0);
        if let LineEnd::At(end) = line_end(bytes, 0) {
            lemma_first_high_at(bytes, 0, end);
        }
    }
}

/// Where the scan finds a byte that is not ASCII, it lies in the range.
pub proof fn lemma_first_high_at(bytes: Seq<u8>, from: int, end: int)
    ensures
        first_high(bytes, from, end) matches Some(at) ==> {
            &&& from <= at < end
            &&& bytes[at] >= 128
            &&& forall|j: int| from <= j < at ==> bytes[j] < 128
        },
        first_high(bytes, from, end) is None ==> forall|j: int| from <= j < end ==> bytes[j] < 128,
    decreases end - from,
{
    if from < end && bytes[from] < 128 {
        lemma_first_high_at(bytes, from + 1, end);
    }
}

/// The frames of a vector as mathematical values.
pub open spec fn frames_view(frames: Seq<Frame>) -> Seq<FrameView> {
    frames.map_values(|frame: Frame| frame@)
}

/// From `from` on, the scan of the line goes as it does from the start.
proof fn lemma_line_end_from(bytes: Seq<u8>, from: int)
    requires
        0 <= from <= MAX_VERSION_LINE + 1,
        from <= bytes.len(),
        forall|j: int| 0 <= j < from ==> bytes[j] != 10,
    ensures
        line_end(bytes, 0) == line_end(bytes, from),
    decreases from,
{
    if from > 0 {
        lemma_line_end_from(bytes, from - 1);
    }
}

/// Where a line ends there is a newline, and none before it.
pub proof fn lemma_line_end_at(bytes: Seq<u8>, from: int)
    requires
        0 <= from,
    ensures
        line_end(bytes, from) matches LineEnd::At(end) ==> {
            &&& from <= end <= MAX_VERSION_LINE
            &&& end < bytes.len()
            &&& bytes[end] == 10
            &&& forall|j: int| from <= j < end ==> bytes[j] != 10
        },
    decreases MAX_VERSION_LINE + 1 - from,
{
    if from <= MAX_VERSION_LINE && from < bytes.len() && bytes[from] != 10 {
        lemma_line_end_at(bytes, from + 1);
    }
}

/// The scan for a byte that is not ASCII, told by what lies before `at`.
proof fn lemma_first_high(bytes: Seq<u8>, from: int, at: int, end: int)
    requires
        0 <= from <= at <= end,
        forall|j: int| from <= j < at ==> bytes[j] < 128,
    ensures
        at < end && bytes[at] >= 128 ==> first_high(bytes, from, end) == Some(at),
        at == end ==> first_high(bytes, from, end) == None::<int>,
    decreases at - from,
{
    if from < at {
        lemma_first_high(bytes, from + 1, at, end);
    }
}

/// `String::push`: the character is added at the end of the text.
#[verifier::external_body]
fn push_char(text: &mut String, c: char)
    ensures
        final(text)@ == old(text)@.push(c),
{
    text.push(c)
}

/// Appends a byte in decimal.
fn push_decimal(text: &mut String, n: u8)
    ensures
        final(text)@ == old(text)@ + decimal(n),
{
    if n >= 100 {
        push_char(text, (48 + n / 100) as char);
    }
    if n >= 10 {
        push_char(text, (48 + (n / 10) % 10) as char);
    }
    push_char(text, (48 + n % 10) as char);
    assert(text@ =~= old(text)@ + decimal(n));
}

impl ParseError {
    /// The error in words.
    pub fn message(&self) -> (text: String)
        ensures
            text@ == message_text(*self),
    {
        match *self {
            ParseError::EarlierFailure => String::from_str("earlier failure"),
            ParseError::HandshakeTooLong => String::from_str("handshake too long"),
            ParseError::InvalidHandshakeByte => String::from_str("invalid handshake byte"),
            ParseError::InvalidSecurity(code) => {
                let mut text = String::from_str("invalid security ");
                push_decimal(&mut text, code);
                text
            },
            ParseError::InvalidMessage(id) => {
                let mut text = String::from_str("invalid message ");
                push_decimal(&mut text, id);
                text
            },
        }
    }
}

/// An error as the result of an operation.
pub fn fail_<T>(error: ParseError) -> (r: Result<T, ParseError>)
    ensures
        r == Err::<T, ParseError>(error),
{
    Err(error)
}

/// What a scan for the end of the version line found.
enum Scan {
    Open,
    TooLong,
    At(usize),
}

/// Scans for the end of the version line.
fn find_line_end(bytes: &[u8]) -> (found: Scan)
    ensures
        match found {
            Scan::Open => line_end(bytes@, 0) == LineEnd::Open,
            Scan::TooLong => line_end(bytes@, 0) == LineEnd::TooLong,
            Scan::At(end) => line_end(bytes@, 0) == LineEnd::At(end as int),
        },
{
    let mut i: usize = 0;
    loop
        invariant
            i <= MAX_VERSION_LINE + 1,
            i <= bytes@.len(),
            forall|j: int| 0 <= j < i ==> bytes@[j] != 10,
        decreases MAX_VERSION_LINE + 1 - i,
    {
        proof {
            lemma_line_end_from(bytes@, i as int);
        }
        if i > MAX_VERSION_LINE {
            return Scan::TooLong;
        }
        if i >= bytes.len() {
            return Scan::Open;
        }
        if bytes[i] == 10 {
            return Scan::At(i);
        }
        i = i + 1;
    }
}

/// The frame parser: a byte queue, the stage reached, and two flags.
pub struct Rfb {
    buf: BytesMut,
    eof: bool,
    failed: bool,
    state: Stage,
}

impl View for Rfb {
    type V = ParserState;

    closed spec fn view(&self) -> ParserState {
        ParserState {
            stage: self.state,
            bytes: buf_view(self.buf),
            eof: self.eof,
            failed: self.failed,
        }
    }
}

impl Rfb {
    /// A parser that has seen no byte and expects the version line.
    pub fn new() -> (rfb: Self)
        ensures
            rfb@ == (ParserState {
                stage: Stage::Version,
                bytes: Seq::<u8>::empty(),
                eof: false,
                failed: false,
            }),
    {
        Rfb { buf: buf_with_capacity(4096), eof: false, failed: false, state: Stage::Version }
    }

    /// Records a failure. The first one is reported as it is; once failed,
    /// every later one is reported as `EarlierFailure`.
    pub fn fail<T>(&mut self, error: ParseError) -> (r: Result<T, ParseError>)
        ensures
            final(self)@ == (ParserState { failed: true, ..old(self)@ }),
            r == Err::<T, ParseError>(
                if old(self)@.failed {
                    ParseError::EarlierFailure
                } else {
                    error
                },
            ),
    {
        if self.failed {
            return fail_(ParseError::EarlierFailure);
        }
        self.failed = true;
        fail_(error)
    }

    /// Takes in what the byte source delivered: an empty chunk means that
    /// the source has ended, and after its end nothing is taken in.
    pub fn ingest(&mut self, chunk: &[u8])
        requires
            old(self)@.bytes.len() + chunk@.len() <= isize::MAX,
        ensures
            final(self)@ == feed(old(self)@, chunk@),
    {
        if self.eof {
            return ;
        }
        if chunk.len() == 0 {
            self.eof = true;
        } else {
            buf_extend(&mut self.buf, chunk);
        }
    }

    /// The number of bytes received and not yet consumed.
    pub fn buffered(&self) -> (n: usize)
        ensures
            n == self@.bytes.len(),
    {
        buf_slice(&self.buf).len()
    }

    /// Whether the byte source has ended.
    pub fn is_eof(&self) -> (b: bool)
        ensures
            b == self@.eof,
    {
        self.eof
    }

    /// Whether the parser has failed.
    pub fn has_failed(&self) -> (b: bool)
        ensures
            b == self@.failed,
    {
        self.failed
    }

    /// The stage the parser is at.
    pub fn stage(&self) -> (stage: Stage)
        ensures
            stage == self@.stage,
    {
        self.state
    }

    /// The version line at the head of a queue that is not empty.
    fn parse_version(&mut self) -> (r: Result<Option<Frame>, ParseError>)
        requires
            !old(self)@.failed,
            old(self)@.bytes.len() > 0,
            old(self)@.stage == Stage::Version,
        ensures
            final(self)@ == pull_spec(old(self)@).0,
            pulled_view(r) == pull_spec(old(self)@).1,
    {
        let ghost before = buf_view(self.buf);
        let end: usize = match find_line_end(buf_slice(&self.buf)) {
            Scan::Open => {
                return Ok(None);
            },
            Scan::TooLong => {
                assert(before.skip(0) =~= before);
                return self.fail(ParseError::HandshakeTooLong);
            },
            Scan::At(end) => end,
        };
        proof {
            lemma_line_end_at(before, 0);
        }
        let mut text = String::new();
        let mut i: usize = 0;
        while i < end
            invariant
                i <= end < before.len(),
                before == old(self)@.bytes,
                !old(self)@.failed,
                old(self)@.stage == Stage::Version,
                line_end(before, 0) == LineEnd::At(end as int),
                buf_view(self.buf) == before.skip(i as int),
                self.state == Stage::Version,
                self.eof == old(self).eof,
                !self.failed,
                forall|j: int| 0 <= j < i ==> before[j] < 128,
                text@ == ascii_text(before, i as int),
            decreases end - i,
        {
            let c: u8 = buf_get_u8(&mut self.buf);
            assert(c == before[i as int]);
            assert(buf_view(self.buf) =~= before.skip(i + 1));
            if c >= 128 {
                proof {
                    lemma_first_high(before, 0, i as int, end as int);
                }
                return self.fail(ParseError::InvalidHandshakeByte);
            }
            push_char(&mut text, c as char);
            i = i + 1;
            assert(text@ =~= ascii_text(before, i as int));
        }
        proof {
            lemma_first_high(before, 0, end as int, end as int);
        }
        let newline: u8 = buf_get_u8(&mut self.buf);
        assert(buf_view(self.buf) =~= before.skip(end + 1));
        self.state = Stage::SecuritySelection;
        Ok(Some(Frame::ProtocolVersion(text)))
    }

    /// The message at the head of a queue that is not empty.
    fn parse_message(&mut self) -> (r: Result<Option<Frame>, ParseError>)
        requires
            !old(self)@.failed,
            old(self)@.bytes.len() > 0,
            old(self)@.stage == Stage::Message,
        ensures
            final(self)@ == pull_spec(old(self)@).0,
            pulled_view(r) == pull_spec(old(self)@).1,
    {
        let ghost before = buf_view(self.buf);
        let len: usize = buf_slice(&self.buf).len();
        let id: u8 = buf_slice(&self.buf)[0];
        if id == 0 {
            if len < 1 + 3 + 16 {
                return Ok(None);
            }
            buf_advance(&mut self.buf, 1 + 3 + 16);
            Ok(Some(Frame::SetPixelFormat))
        } else if id == 2 {
            let nenc: usize = match peek_u16(buf_slice(&self.buf), 2) {
                Some(nenc) => {
                    let nenc: usize = nenc as usize;
                    if len < 4 + nenc * 4 {
                        return Ok(None);
                    }
                    nenc
                },
                None => {
                    return Ok(None);
                },
            };
            buf_advance(&mut self.buf, 4);
            let mut encs: Vec<i32> = Vec::new();
            let mut i: usize = 0;
            while i < nenc
                invariant
                    i <= nenc,
                    4 + 4 * nenc <= before.len(),
                    buf_view(self.buf) == before.skip(4 + 4 * i),
                    encs@ == encodings(before, i as nat),
                    self.state == old(self).state,
                    self.eof == old(self).eof,
                    self.failed == old(self).failed,
                decreases nenc - i,
            {
                let enc: i32 = buf_get_i32(&mut self.buf);
                encs.push(enc);
                i = i + 1;
                assert(buf_view(self.buf) =~= before.skip(4 + 4 * i));
                assert(encs@ =~= encodings(before, i as nat));
            }
            Ok(Some(Frame::SetEncodings(encs)))
        } else if id == 3 {
            if len < 10 {
                return Ok(None);
            }
            buf_advance(&mut self.buf, 1);
            let incremental: bool = buf_get_u8(&mut self.buf) != 0;
            let xpos: usize = buf_get_u16(&mut self.buf) as usize;
            let ypos: usize = buf_get_u16(&mut self.buf) as usize;
            let width: usize = buf_get_u16(&mut self.buf) as usize;
            let height: usize = buf_get_u16(&mut self.buf) as usize;
            assert(buf_view(self.buf) =~= before.skip(10));
            let ur = UpdateRequest { incremental, xpos, ypos, width, height };
            Ok(Some(Frame::FramebufferUpdateRequest(ur)))
        } else if id == 4 {
            if len < 1 + 1 + 2 + 4 {
                return Ok(None);
            }
            buf_advance(&mut self.buf, 1);
            let downflag: u8 = buf_get_u8(&mut self.buf);
            buf_advance(&mut self.buf, 2);
            let key: u32 = buf_get_u32(&mut self.buf);
            assert(buf_view(self.buf) =~= before.skip(8));
            Ok(Some(Frame::KeyEvent(downflag, key)))
        } else if id == 5 {
            if len < 1 + 1 + 2 + 2 {
                return Ok(None);
            }
            buf_advance(&mut self.buf, 1);
            let button_mask: u8 = buf_get_u8(&mut self.buf);
            let xpos: u16 = buf_get_u16(&mut self.buf);
            let ypos: u16 = buf_get_u16(&mut self.buf);
            assert(buf_view(self.buf) =~= before.skip(6));
            Ok(Some(Frame::PointerEvent(button_mask, xpos, ypos)))
        } else if id == 6 {
            let nchar: usize = match peek_u32(buf_slice(&self.buf), 1 + 3) {
                Some(v) => {
                    if len - (1 + 3 + 4) < v as usize {
                        return Ok(None);
                    }
                    v as usize
                },
                None => {
                    return Ok(None);
                },
            };
            buf_advance(&mut self.buf, 1 + 3 + 4);
            buf_advance(&mut self.buf, nchar);
            assert(buf_view(self.buf) =~= before.skip(8 + nchar));
            Ok(Some(Frame::ClientCutText))
        } else {
            assert(before.skip(0) =~= before);
            self.fail(ParseError::InvalidMessage(id))
        }
    }

    /// Pulls until no frame comes and returns the frames in order, with the
    /// reason why no further one came.
    pub fn drain(&mut self) -> (out: (Vec<Frame>, Progress))
        ensures
            frames_view(out.0@) == drain_spec(old(self)@).frames,
            final(self)@ == drain_spec(old(self)@).state,
            out.1 == drain_spec(old(self)@).stop,
    {
        let mut frames: Vec<Frame> = Vec::new();
        loop
            invariant
                drain_spec(old(self)@).frames == frames_view(frames@) + drain_spec(self@).frames,
                drain_spec(old(self)@).state == drain_spec(self@).state,
                drain_spec(old(self)@).stop == drain_spec(self@).stop,
            decreases self@.bytes.len(),
        {
            let ghost before = self@;
            let ghost got = frames_view(frames@);
            proof {
                lemma_decode_bounds(before.stage, before.bytes);
            }
            match self.parse() {
                Err(error) => {
                    assert(frames_view(frames@) =~= drain_spec(old(self)@).frames);
                    return (frames, Progress::Failed(error));
                },
                Ok(None) => {
                    assert(frames_view(frames@) =~= drain_spec(old(self)@).frames);
                    return (frames, Progress::Starved);
                },
                Ok(Some(Frame::EOF)) => {
                    assert(frames_view(frames@) =~= drain_spec(old(self)@).frames);
                    return (frames, Progress::Ended);
                },
                Ok(Some(frame)) => {
                    frames.push(frame);
                    assert(frames_view(frames@) =~= got.push(frame@));
                    assert(got + drain_spec(before).frames =~= got.push(frame@) + drain_spec(
                        self@,
                    ).frames);
                },
            }
        }
    }

    /// One pull. If the queue starts with a whole frame for the stage
    /// reached, the frame is taken off and handed out. If not, the queue is
    /// left as it is and `None` asks for more bytes, or, once the source has
    /// ended and the queue is empty, `EOF` is handed out. Bytes that cannot
    /// be a frame make the parser fail, for good.
    pub fn parse(&mut self) -> (r: Result<Option<Frame>, ParseError>)
        ensures
            final(self)@ == pull_spec(old(self)@).0,
            pulled_view(r) == pull_spec(old(self)@).1,
            r matches Ok(None) ==> final(self)@ == old(self)@,
            old(self)@.failed ==> r == Err::<Option<Frame>, ParseError>(
                ParseError::EarlierFailure,
            ),
            r is Err ==> final(self)@.failed,
    {
        if self.failed {
            return self.fail(ParseError::EarlierFailure);
        }
        if buf_slice(&self.buf).len() == 0 {
            if self.eof {
                return Ok(Some(Frame::EOF));
            }
            return Ok(None);
        }
        let ghost before = buf_view(self.buf);
        match self.state {
            Stage::Version => self.parse_version(),
            Stage::SecuritySelection => {
                let sec: u8 = buf_get_u8(&mut self.buf);
                if sec != 1 {
                    return self.fail(ParseError::InvalidSecurity(sec));
                }
                self.state = Stage::ClientInit;
                Ok(Some(Frame::SecuritySelection(Security::NoAuth)))
            },
            Stage::ClientInit => {
                let acc = if buf_get_u8(&mut self.buf) == 0 {
                    Access::Exclusive
                } else {
                    Access::Shared
                };
                self.state = Stage::Message;
                Ok(Some(Frame::ClientInit(acc)))
            },
            Stage::Message => self.parse_message(),
        }
    }
}

} // verus!
