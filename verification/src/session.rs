//! One connection: the handshake, the serving rules, and the messages the
//! server sends. The session decides; whoever owns the socket performs what
//! it decides and reports back what happened.

use crate::framebuffer::{Canvas, Framebuffer};
use crate::rfb::{Frame, FrameView, ParseError, Security, UpdateRequest};
use crate::wire::{push_u16, push_u32, u16_bytes, u32_bytes};
use vstd::prelude::*;

verus! {

/// Redraws per second that a connection gets at most.
pub const FRAMES_PER_SECOND: u64 = 12;

/// Milliseconds from one redraw to the earliest next one.
pub const REDRAW_INTERVAL_MS: u64 = 1000 / FRAMES_PER_SECOND;

/// The key that ends the session: `q`.
pub const KEY_QUIT: u32 = 113;

/// Where a connection stands. The phases follow one another in this order
/// and none is entered twice.
#[derive(Debug, Clone, Copy, PartialEq, Eq, Structural)]
pub enum Phase {
    AwaitProtocolVersion,
    AwaitSecuritySelection,
    AwaitClientInit,
    Message,
    Closed,
}

/// The place of a phase in the order of phases.
pub open spec fn phase_rank(phase: Phase) -> nat {
    match phase {
        Phase::AwaitProtocolVersion => 0,
        Phase::AwaitSecuritySelection => 1,
        Phase::AwaitClientInit => 2,
        Phase::Message => 3,
        Phase::Closed => 4,
    }
}

/// What can happen to a connection.
#[derive(Debug, PartialEq, Eq)]
pub enum Event {
    /// The client sent a frame.
    Frame(Frame),
    /// The parser failed on what the client sent.
    ParseFailed(ParseError),
    /// The client's byte stream ended.
    StreamEnded,
    /// The redraw timer fired.
    Tick,
}

/// An event as a mathematical value.
pub enum EventView {
    Frame(FrameView),
    ParseFailed(ParseError),
    StreamEnded,
    Tick,
}

impl View for Event {
    type V = EventView;

    open spec fn view(&self) -> EventView {
        match *self {
            Event::Frame(frame) => EventView::Frame(frame@),
            Event::ParseFailed(error) => EventView::ParseFailed(error),
            Event::StreamEnded => EventView::StreamEnded,
            Event::Tick => EventView::Tick,
        }
    }
}

/// Why a session ended without an error.
#[derive(Debug, Clone, Copy, PartialEq, Eq, Structural)]
pub enum CloseReason {
    /// The client pressed the quit key.
    Quit,
    /// The stream ended while the session was serving.
    StreamEnded,
    /// The stream ended before the handshake was done.
    StreamEndedEarly,
}

/// Why a session ended with an error.
#[derive(Debug, PartialEq, Eq)]
pub enum SessionError {
    /// The client answered the greeting with another protocol version.
    InvalidHandshake(String),
    /// A frame that the handshake does not expect at this point.
    UnexpectedFrame(Frame),
    /// The parser failed.
    Parser(ParseError),
}

/// A session error as a mathematical value.
pub enum SessionErrorView {
    InvalidHandshake(Seq<char>),
    UnexpectedFrame(FrameView),
    Parser(ParseError),
}

impl View for SessionError {
    type V = SessionErrorView;

    open spec fn view(&self) -> SessionErrorView {
        match *self {
            SessionError::InvalidHandshake(text) => SessionErrorView::InvalidHandshake(text@),
            SessionError::UnexpectedFrame(frame) => SessionErrorView::UnexpectedFrame(frame@),
            SessionError::Parser(error) => SessionErrorView::Parser(error),
        }
    }
}

/// What the owner of the socket is to do next.
#[derive(Debug, PartialEq, Eq)]
pub enum Action {
    /// Nothing: wait for the next event.
    Nothing,
    /// Write these bytes to the client.
    Send(Vec<u8>),
    /// Store this value in the colour-mode cell.
    SetColourMode(u32),
    /// Send a framebuffer update for this rectangle and let the timer fire
    /// no sooner than `REDRAW_INTERVAL_MS` from now.
    Redraw(UpdateRequest),
    /// Close the connection; nothing went wrong.
    Close(CloseReason),
    /// Close the connection and report the error.
    Fail(SessionError),
}

/// An action as a mathematical value.
pub enum ActionView {
    Nothing,
    Send(Seq<u8>),
    SetColourMode(u32),
    Redraw(UpdateRequest),
    Close(CloseReason),
    Fail(SessionErrorView),
}

impl View for Action {
    type V = ActionView;

    open spec fn view(&self) -> ActionView {
        match *self {
            Action::Nothing => ActionView::Nothing,
            Action::Send(bytes) => ActionView::Send(bytes@),
            Action::SetColourMode(mode) => ActionView::SetColourMode(mode),
            Action::Redraw(request) => ActionView::Redraw(request),
            Action::Close(reason) => ActionView::Close(reason),
            Action::Fail(error) => ActionView::Fail(error@),
        }
    }
}

/// The greeting `RFB 003.008` and a newline.
pub open spec fn greeting_bytes() -> Seq<u8> {
    seq![82u8, 70u8, 66u8, 32u8, 48u8, 48u8, 51u8, 46u8, 48u8, 48u8, 56u8, 10u8]
}

/// The only protocol version that the server speaks.
pub open spec fn version_text() -> Seq<char> {
    "RFB 003.008"@
}

/// One security type on offer: type 1, no authentication.
pub open spec fn security_offer_bytes() -> Seq<u8> {
    seq![1u8, 1u8]
}

/// The security result: a 32-bit zero, success.
pub open spec fn security_result_bytes() -> Seq<u8> {
    u32_bytes(0)
}

/// The pixel format the server imposes: 32 bits per pixel, depth 24,
/// little-endian, true colour, each colour up to 255, red shifted by 16,
/// green by 8, blue by 0, and three bytes of padding.
pub open spec fn pixel_format_bytes() -> Seq<u8> {
    seq![32u8, 24u8, 0u8, 1u8] + u16_bytes(255) + u16_bytes(255) + u16_bytes(255) + seq![
        16u8,
        8u8,
        0u8,
        0u8,
        0u8,
        0u8,
    ]
}

/// The name of the desktop: `jvnc`.
pub open spec fn desktop_name_bytes() -> Seq<u8> {
    seq![106u8, 118u8, 110u8, 99u8]
}

/// The server's initialisation message for a framebuffer of this size.
pub open spec fn server_init_bytes(width: usize, height: usize) -> Seq<u8> {
    u16_bytes(width as int) + u16_bytes(height as int) + pixel_format_bytes() + u32_bytes(4)
        + desktop_name_bytes()
}

/// The head of a framebuffer update that carries one raw rectangle.
pub open spec fn update_header_bytes(request: UpdateRequest) -> Seq<u8> {
    seq![0u8, 0u8] + u16_bytes(1) + u16_bytes(request.xpos as int) + u16_bytes(
        request.ypos as int,
    ) + u16_bytes(request.width as int) + u16_bytes(request.height as int) + u32_bytes(0)
}

/// One pixel on the wire: blue, green, red, and a byte of padding.
pub open spec fn pixel_bytes(canvas: Canvas, x: nat, y: nat) -> Seq<u8> {
    seq![canvas.get(x, y).2, canvas.get(x, y).1, canvas.get(x, y).0, 0u8]
}

/// The first `count` pixels of row `y` from column `x` on, left to right.
pub open spec fn row_bytes(canvas: Canvas, x: nat, y: nat, count: nat) -> Seq<u8>
    decreases count,
{
    if count == 0 {
        Seq::empty()
    } else {
        row_bytes(canvas, x, y, (count - 1) as nat) + pixel_bytes(
            canvas,
            x + (count - 1) as nat,
            y,
        )
    }
}

/// The first `rows` rows of a rectangle `width` wide with its corner at
/// `(x, y)`, top to bottom.
pub open spec fn rect_bytes(canvas: Canvas, x: nat, y: nat, width: nat, rows: nat) -> Seq<u8>
    decreases rows,
{
    if rows == 0 {
        Seq::empty()
    } else {
        rect_bytes(canvas, x, y, width, (rows - 1) as nat) + row_bytes(
            canvas,
            x,
            y + (rows - 1) as nat,
            width,
        )
    }
}

/// The pixels of a requested rectangle as they are sent: row by row.
pub open spec fn update_pixel_bytes(canvas: Canvas, request: UpdateRequest) -> Seq<u8> {
    rect_bytes(
        canvas,
        request.xpos as nat,
        request.ypos as nat,
        request.width as nat,
        request.height as nat,
    )
}

/// A row takes four bytes per pixel.
pub proof fn lemma_row_bytes_len(canvas: Canvas, x: nat, y: nat, count: nat)
    ensures
        row_bytes(canvas, x, y, count).len() == 4 * count,
    decreases count,
{
    if count > 0 {
        lemma_row_bytes_len(canvas, x, y, (count - 1) as nat);
    }
}

/// A rectangle takes four bytes per pixel.
pub proof fn lemma_rect_bytes_len(canvas: Canvas, x: nat, y: nat, width: nat, rows: nat)
    ensures
        rect_bytes(canvas, x, y, width, rows).len() == 4 * (width * rows),
    decreases rows,
{
    if rows > 0 {
        lemma_rect_bytes_len(canvas, x, y, width, (rows - 1) as nat);
        lemma_row_bytes_len(canvas, x, y + (rows - 1) as nat, width);
        assert(width * rows == width * (rows - 1) + width) by (nonlinear_arith);
    } else {
        assert(width * rows == 0) by (nonlinear_arith)
            requires
                rows == 0,
        ;
    }
}

/// The request with its corner moved into a framebuffer of the given size
/// and its extent cut down to that size.
pub open spec fn clamp_spec(request: UpdateRequest, width: usize, height: usize) -> UpdateRequest {
    UpdateRequest {
        incremental: request.incremental,
        xpos: if request.xpos >= width {
            (width - 1) as usize
        } else {
            request.xpos
        },
        ypos: if request.ypos >= height {
            (height - 1) as usize
        } else {
            request.ypos
        },
        width: if request.width > width {
            width
        } else {
            request.width
        },
        height: if request.height > height {
            height
        } else {
            request.height
        },
    }
}

/// The corner of the request lies inside a framebuffer of the given size
/// and the request is no wider and no higher than it.
pub open spec fn bounded(request: UpdateRequest, width: usize, height: usize) -> bool {
    &&& request.xpos < width
    &&& request.ypos < height
    &&& request.width <= width
    &&& request.height <= height
}

/// The whole rectangle of the request lies inside a framebuffer of the
/// given size.
pub open spec fn fits(request: UpdateRequest, width: nat, height: nat) -> bool {
    &&& request.xpos + request.width <= width
    &&& request.ypos + request.height <= height
}

/// The colour mode that a key selects: `z`, `w`, `r`, `g`, `b` for black,
/// white, red, green, blue.
pub open spec fn key_colour(keysym: u32) -> Option<u32> {
    if keysym == 122 {
        Some(0u32)
    } else if keysym == 119 {
        Some(1u32)
    } else if keysym == 114 {
        Some(2u32)
    } else if keysym == 103 {
        Some(3u32)
    } else if keysym == 98 {
        Some(4u32)
    } else {
        None
    }
}

/// A session as a mathematical value.
pub struct SessionState {
    /// Where the connection stands.
    pub phase: Phase,
    /// The update request that waits for the next redraw, if any.
    pub pending: Option<UpdateRequest>,
    /// The framebuffer's width.
    pub width: usize,
    /// The framebuffer's height.
    pub height: usize,
}

impl SessionState {
    /// The framebuffer has at least one pixel, and a request waits only
    /// while serving and only clamped.
    pub open spec fn wf(self) -> bool {
        &&& self.width > 0
        &&& self.height > 0
        &&& self.pending matches Some(request) ==> self.phase == Phase::Message && bounded(
            request,
            self.width,
            self.height,
        )
    }

    /// The session once it is over.
    pub open spec fn closed(self) -> SessionState {
        SessionState { phase: Phase::Closed, pending: None, ..self }
    }
}

/// The handshake: each phase accepts one kind of frame and answers it.
/// Anything else ends the session.
pub open spec fn handshake_spec(s: SessionState, event: EventView) -> (SessionState, ActionView) {
    match event {
        EventView::Tick => (s, ActionView::Nothing),
        EventView::StreamEnded => (s.closed(), ActionView::Close(CloseReason::StreamEndedEarly)),
        EventView::ParseFailed(error) => (
            s.closed(),
            ActionView::Fail(SessionErrorView::Parser(error)),
        ),
        EventView::Frame(frame) => match (s.phase, frame) {
            (Phase::AwaitProtocolVersion, FrameView::ProtocolVersion(text)) => if text
                == version_text() {
                (
                    SessionState { phase: Phase::AwaitSecuritySelection, ..s },
                    ActionView::Send(security_offer_bytes()),
                )
            } else {
                (s.closed(), ActionView::Fail(SessionErrorView::InvalidHandshake(text)))
            },
            (
                Phase::AwaitSecuritySelection,
                FrameView::SecuritySelection(Security::NoAuth),
            ) => (
                SessionState { phase: Phase::AwaitClientInit, ..s },
                ActionView::Send(security_result_bytes()),
            ),
            (Phase::AwaitClientInit, FrameView::ClientInit(_)) => (
                SessionState { phase: Phase::Message, ..s },
                ActionView::Send(server_init_bytes(s.width, s.height)),
            ),
            _ => (s.closed(), ActionView::Fail(SessionErrorView::UnexpectedFrame(frame))),
        },
    }
}

/// Serving: an update request replaces the one that waits, a key pressed
/// may end the session or select a colour, the timer releases the request
/// that waits, and every other frame is ignored.
pub open spec fn serve_spec(s: SessionState, event: EventView) -> (SessionState, ActionView) {
    match event {
        EventView::Tick => match s.pending {
            Some(request) => (SessionState { pending: None, ..s }, ActionView::Redraw(request)),
            None => (s, ActionView::Nothing),
        },
        EventView::StreamEnded => (s.closed(), ActionView::Close(CloseReason::StreamEnded)),
        EventView::ParseFailed(error) => (
            s.closed(),
            ActionView::Fail(SessionErrorView::Parser(error)),
        ),
        EventView::Frame(FrameView::FramebufferUpdateRequest(request)) => (
            SessionState { pending: Some(clamp_spec(request, s.width, s.height)), ..s },
            ActionView::Nothing,
        ),
        EventView::Frame(FrameView::KeyEvent(down, keysym)) => if down != 1 {
            (s, ActionView::Nothing)
        } else if keysym == KEY_QUIT {
            (s.closed(), ActionView::Close(CloseReason::Quit))
        } else {
            match key_colour(keysym) {
                Some(mode) => (s, ActionView::SetColourMode(mode)),
                None => (s, ActionView::Nothing),
            }
        },
        EventView::Frame(_) => (s, ActionView::Nothing),
    }
}

/// One step of a session: the state after the event and what is to be
/// done. A closed session ignores every event.
pub open spec fn step_spec(s: SessionState, event: EventView) -> (SessionState, ActionView) {
    match s.phase {
        Phase::Closed => (s, ActionView::Nothing),
        Phase::Message => serve_spec(s, event),
        _ => handshake_spec(s, event),
    }
}

/// The greeting that opens every connection.
pub fn greeting() -> (bytes: Vec<u8>)
    ensures
        bytes@ == greeting_bytes(),
{
    vec![82u8, 70u8, 66u8, 32u8, 48u8, 48u8, 51u8, 46u8, 48u8, 48u8, 56u8, 10u8]
}

/// The offer of security types.
pub fn security_offer() -> (bytes: Vec<u8>)
    ensures
        bytes@ == security_offer_bytes(),
{
    vec![1u8, 1u8]
}

/// The security result.
pub fn security_result() -> (bytes: Vec<u8>)
    ensures
        bytes@ == security_result_bytes(),
{
    let mut bytes: Vec<u8> = Vec::new();
    push_u32(&mut bytes, 0);
    bytes
}

/// The server's initialisation message.
pub fn server_init(width: usize, height: usize) -> (bytes: Vec<u8>)
    ensures
        bytes@ == server_init_bytes(width, height),
{
    let mut bytes: Vec<u8> = Vec::new();
    push_u16(&mut bytes, width);
    push_u16(&mut bytes, height);
    bytes.push(32);
    bytes.push(24);
    bytes.push(0);
    bytes.push(1);
    push_u16(&mut bytes, 255);
    push_u16(&mut bytes, 255);
    push_u16(&mut bytes, 255);
    bytes.push(16);
    bytes.push(8);
    bytes.push(0);
    bytes.push(0);
    bytes.push(0);
    bytes.push(0);
    push_u32(&mut bytes, 4);
    bytes.push(106);
    bytes.push(118);
    bytes.push(110);
    bytes.push(99);
    assert(bytes@ =~= server_init_bytes(width, height));
    bytes
}

/// The head of a framebuffer update for the rectangle of `request`.
pub fn update_header(request: &UpdateRequest) -> (bytes: Vec<u8>)
    ensures
        bytes@ == update_header_bytes(*request),
{
    let mut bytes: Vec<u8> = Vec::new();
    bytes.push(0);
    bytes.push(0);
    push_u16(&mut bytes, 1);
    push_u16(&mut bytes, request.xpos);
    push_u16(&mut bytes, request.ypos);
    push_u16(&mut bytes, request.width);
    push_u16(&mut bytes, request.height);
    push_u32(&mut bytes, 0);
    assert(bytes@ =~= update_header_bytes(*request));
    bytes
}

/// The pixels of the rectangle of `request`, sampled from the framebuffer
/// row by row. The rectangle must lie inside the framebuffer.
pub fn update_pixels(fb: &Framebuffer, request: &UpdateRequest) -> (bytes: Vec<u8>)
    requires
        fits(*request, fb@.width, fb@.height),
    ensures
        bytes@ == update_pixel_bytes(fb@, *request),
        bytes@.len() == 4 * (request.width * request.height),
{
    let fb_width: usize = fb.width();
    let fb_height: usize = fb.height();
    let mut bytes: Vec<u8> = Vec::new();
    let mut row: usize = 0;
    while row < request.height
        invariant
            row <= request.height,
            fb@.width == fb_width,
            fb@.height == fb_height,
            fits(*request, fb@.width, fb@.height),
            bytes@ == rect_bytes(
                fb@,
                request.xpos as nat,
                request.ypos as nat,
                request.width as nat,
                row as nat,
            ),
        decreases request.height - row,
    {
        let ghost done = bytes@;
        let y: usize = request.ypos + row;
        let mut col: usize = 0;
        while col < request.width
            invariant
                col <= request.width,
                row < request.height,
                y == request.ypos + row,
                fb@.width == fb_width,
                fb@.height == fb_height,
                fits(*request, fb@.width, fb@.height),
                bytes@ == done + row_bytes(fb@, request.xpos as nat, y as nat, col as nat),
            decreases request.width - col,
        {
            let x: usize = request.xpos + col;
            let (red, green, blue) = fb.get(x, y);
            bytes.push(blue);
            bytes.push(green);
            bytes.push(red);
            bytes.push(0);
            col = col + 1;
            assert(bytes@ =~= done + row_bytes(fb@, request.xpos as nat, y as nat, col as nat));
        }
        row = row + 1;
    }
    proof {
        lemma_rect_bytes_len(
            fb@,
            request.xpos as nat,
            request.ypos as nat,
            request.width as nat,
            request.height as nat,
        );
    }
    bytes
}

impl UpdateRequest {
    /// Moves the corner of the request into a framebuffer of the given
    /// size, which has at least one pixel, and cuts its extent down to that
    /// size.
    pub fn clamp(self, width: usize, height: usize) -> (clamped: UpdateRequest)
        requires
            width > 0,
            height > 0,
        ensures
            clamped == clamp_spec(self, width, height),
            bounded(clamped, width, height),
    {
        let mut ur = self;
        if ur.xpos >= width {
            ur.xpos = width - 1;
        }
        if ur.ypos >= height {
            ur.ypos = height - 1;
        }
        if ur.width > width {
            ur.width = width;
        }
        if ur.height > height {
            ur.height = height;
        }
        ur
    }

    /// Whether the whole rectangle lies inside a framebuffer of the given
    /// size.
    pub fn fits_within(&self, width: usize, height: usize) -> (inside: bool)
        ensures
            inside == fits(*self, width as nat, height as nat),
    {
        self.xpos <= width && self.width <= width - self.xpos && self.ypos <= height
            && self.height <= height - self.ypos
    }
}

/// The colour mode that a key selects, if it selects one.
pub fn colour_for_key(keysym: u32) -> (mode: Option<u32>)
    ensures
        mode == key_colour(keysym),
{
    if keysym == 122 {
        Some(0)
    } else if keysym == 119 {
        Some(1)
    } else if keysym == 114 {
        Some(2)
    } else if keysym == 103 {
        Some(3)
    } else if keysym == 98 {
        Some(4)
    } else {
        None
    }
}

/// Whether `text` names the protocol version that the server speaks.
fn is_supported_version(text: &String) -> (supported: bool)
    ensures
        supported == (text@ == version_text()),
{
    let expected = String::from_str("RFB 003.008");
    *text == expected
}

/// The state of one connection.
pub struct Session {
    phase: Phase,
    pending: Option<UpdateRequest>,
    width: usize,
    height: usize,
}

impl View for Session {
    type V = SessionState;

    closed spec fn view(&self) -> SessionState {
        SessionState {
            phase: self.phase,
            pending: self.pending,
            width: self.width,
            height: self.height,
        }
    }
}

impl Session {
    #[verifier::type_invariant]
    pub open spec fn wf(self) -> bool {
        self@.wf()
    }

    /// A session for a framebuffer of the given size, which has at least
    /// one pixel, and the greeting to send first.
    pub fn open(width: usize, height: usize) -> (out: (Session, Vec<u8>))
        requires
            width > 0,
            height > 0,
        ensures
            out.0@ == (SessionState {
                phase: Phase::AwaitProtocolVersion,
                pending: None,
                width,
                height,
            }),
            out.0.wf(),
            out.1@ == greeting_bytes(),
    {
        (Session { phase: Phase::AwaitProtocolVersion, pending: None, width, height }, greeting())
    }

    /// Where the connection stands.
    pub fn phase(&self) -> (phase: Phase)
        ensures
            phase == self@.phase,
    {
        self.phase
    }

    /// The update request that waits for the next redraw, if any.
    pub fn pending(&self) -> (pending: Option<UpdateRequest>)
        ensures
            pending == self@.pending,
    {
        self.pending
    }

    /// Whether the redraw timer is to run: only while a request waits.
    pub fn timer_armed(&self) -> (armed: bool)
        ensures
            armed == self@.pending.is_some(),
    {
        self.pending.is_some()
    }

    /// Ends the session.
    fn close(&mut self)
        ensures
            final(self)@ == old(self)@.closed(),
    {
        proof {
            use_type_invariant(&*self);
        }
        self.pending = None;
        self.phase = Phase::Closed;
    }

    /// One step of the handshake.
    fn handshake(&mut self, event: Event) -> (action: Action)
        requires
            old(self)@.phase != Phase::Closed,
            old(self)@.phase != Phase::Message,
        ensures
            (final(self)@, action@) == handshake_spec(old(self)@, event@),
    {
        proof {
            use_type_invariant(&*self);
        }
        match event {
            Event::Tick => Action::Nothing,
            Event::StreamEnded => {
                self.close();
                Action::Close(CloseReason::StreamEndedEarly)
            },
            Event::ParseFailed(error) => {
                self.close();
                Action::Fail(SessionError::Parser(error))
            },
            Event::Frame(frame) => match (self.phase, frame) {
                (Phase::AwaitProtocolVersion, Frame::ProtocolVersion(text)) => {
                    if is_supported_version(&text) {
                        self.phase = Phase::AwaitSecuritySelection;
                        Action::Send(security_offer())
                    } else {
                        self.close();
                        Action::Fail(SessionError::InvalidHandshake(text))
                    }
                },
                (Phase::AwaitSecuritySelection, Frame::SecuritySelection(Security::NoAuth)) => {
                    self.phase = Phase::AwaitClientInit;
                    Action::Send(security_result())
                },
                (Phase::AwaitClientInit, Frame::ClientInit(_)) => {
                    self.phase = Phase::Message;
                    Action::Send(server_init(self.width, self.height))
                },
                (_, frame) => {
                    self.close();
                    Action::Fail(SessionError::UnexpectedFrame(frame))
                },
            },
        }
    }

    /// One step of serving.
    fn serve(&mut self, event: Event) -> (action: Action)
        requires
            old(self)@.phase == Phase::Message,
        ensures
            (final(self)@, action@) == serve_spec(old(self)@, event@),
    {
        proof {
            use_type_invariant(&*self);
        }
        match event {
            Event::Tick => match self.pending {
                Some(request) => {
                    self.pending = None;
                    Action::Redraw(request)
                },
                None => Action::Nothing,
            },
            Event::StreamEnded => {
                self.close();
                Action::Close(CloseReason::StreamEnded)
            },
            Event::ParseFailed(error) => {
                self.close();
                Action::Fail(SessionError::Parser(error))
            },
            Event::Frame(Frame::FramebufferUpdateRequest(request)) => {
                self.pending = Some(request.clamp(self.width, self.height));
                Action::Nothing
            },
            Event::Frame(Frame::KeyEvent(down, keysym)) => {
                if down != 1 {
                    Action::Nothing
                } else if keysym == KEY_QUIT {
                    self.close();
                    Action::Close(CloseReason::Quit)
                } else {
                    match colour_for_key(keysym) {
                        Some(mode) => Action::SetColourMode(mode),
                        None => Action::Nothing,
                    }
                }
            },
            Event::Frame(_) => Action::Nothing,
        }
    }

    /// Takes an event and says what is to be done. During the handshake
    /// each phase accepts one kind of frame and answers it, and anything
    /// else ends the session. While serving, an update request replaces the
    /// one that waits, the timer releases it, and a key pressed may end the
    /// session or select a colour.
    pub fn handle(&mut self, event: Event) -> (action: Action)
        ensures
            (final(self)@, action@) == step_spec(old(self)@, event@),
            final(self).wf(),
    {
        proof {
            use_type_invariant(&*self);
        }
        match self.phase {
            Phase::Closed => Action::Nothing,
            Phase::Message => self.serve(event),
            _ => self.handshake(event),
        }
    }
}

} // verus!
