use jvnc::framebuffer::Framebuffer;
use jvnc::rfb::{Access, Frame, ParseError, Progress, Rfb, Security, UpdateRequest};
use jvnc::session::{
    colour_for_key, greeting, security_offer, security_result, server_init, update_header,
    update_pixels, Action, CloseReason, Event, Phase, Session, SessionError, FRAMES_PER_SECOND,
    KEY_QUIT, REDRAW_INTERVAL_MS,
};

const SERVER_INIT_512_384: [u8; 28] = [
    0x02, 0x00, 0x01, 0x80, 0x20, 0x18, 0x00, 0x01, 0x00, 0xff, 0x00, 0xff, 0x00, 0xff, 0x10,
    0x08, 0x00, 0x00, 0x00, 0x00, 0x00, 0x00, 0x00, 0x04, b'j', b'v', b'n', b'c',
];

fn serving_session(width: usize, height: usize) -> Session {
    let (mut session, _) = Session::open(width, height);
    session.handle(Event::Frame(Frame::ProtocolVersion("RFB 003.008".to_string())));
    session.handle(Event::Frame(Frame::SecuritySelection(Security::NoAuth)));
    session.handle(Event::Frame(Frame::ClientInit(Access::Shared)));
    assert_eq!(session.phase(), Phase::Message);
    session
}

fn request(xpos: usize, ypos: usize, width: usize, height: usize) -> UpdateRequest {
    UpdateRequest { incremental: true, xpos, ypos, width, height }
}

#[test]
fn messages_are_bit_exact() {
    assert_eq!(greeting(), b"RFB 003.008\n".to_vec());
    assert_eq!(security_offer(), vec![1, 1]);
    assert_eq!(security_result(), vec![0, 0, 0, 0]);
    assert_eq!(server_init(512, 384), SERVER_INIT_512_384.to_vec());
}

#[test]
fn server_init_sends_the_low_sixteen_bits_of_a_size() {
    let bytes = server_init(0x1_0203, 0xffff);
    assert_eq!(&bytes[..4], &[0x02, 0x03, 0xff, 0xff]);
    assert_eq!(&bytes[4..], &SERVER_INIT_512_384[4..]);
}

#[test]
fn redraws_are_paced() {
    assert_eq!(FRAMES_PER_SECOND, 12);
    assert_eq!(REDRAW_INTERVAL_MS, 83);
    assert_eq!(KEY_QUIT, 113);
}

#[test]
fn happy_handshake() {
    let (mut session, hello) = Session::open(512, 384);
    assert_eq!(hello, b"RFB 003.008\n".to_vec());
    assert_eq!(session.phase(), Phase::AwaitProtocolVersion);
    assert!(!session.timer_armed());

    let mut rfb = Rfb::new();
    rfb.ingest(b"RFB 003.008\n");
    let frame = rfb.parse().unwrap().unwrap();
    assert_eq!(session.handle(Event::Frame(frame)), Action::Send(vec![1, 1]));
    assert_eq!(session.phase(), Phase::AwaitSecuritySelection);

    rfb.ingest(&[1]);
    let frame = rfb.parse().unwrap().unwrap();
    assert_eq!(session.handle(Event::Frame(frame)), Action::Send(vec![0, 0, 0, 0]));
    assert_eq!(session.phase(), Phase::AwaitClientInit);

    rfb.ingest(&[1]);
    let frame = rfb.parse().unwrap().unwrap();
    assert_eq!(frame, Frame::ClientInit(Access::Shared));
    assert_eq!(session.handle(Event::Frame(frame)), Action::Send(SERVER_INIT_512_384.to_vec()));
    assert_eq!(session.phase(), Phase::Message);
    assert_eq!(session.pending(), None);
}

#[test]
fn exclusive_access_is_accepted_too() {
    let (mut session, _) = Session::open(512, 384);
    session.handle(Event::Frame(Frame::ProtocolVersion("RFB 003.008".to_string())));
    session.handle(Event::Frame(Frame::SecuritySelection(Security::NoAuth)));
    assert_eq!(
        session.handle(Event::Frame(Frame::ClientInit(Access::Exclusive))),
        Action::Send(SERVER_INIT_512_384.to_vec())
    );
    assert_eq!(session.phase(), Phase::Message);
}

#[test]
fn incremental_update() {
    let mut fb = Framebuffer::new(512, 384);
    fb.put(0, 0, 1, 2, 3);
    fb.put(1, 0, 4, 5, 6);
    fb.put(0, 1, 7, 8, 9);
    fb.put(511, 383, 250, 251, 252);
    let mut session = serving_session(512, 384);

    let mut rfb = Rfb::new();
    rfb.ingest(b"\n\x01\x01");
    assert_eq!(rfb.drain().1, Progress::Starved);
    rfb.ingest(&[0x03, 0x01, 0x00, 0x00, 0x00, 0x00, 0x02, 0x00, 0x01, 0x80]);
    let frame = rfb.parse().unwrap().unwrap();
    assert_eq!(session.handle(Event::Frame(frame)), Action::Nothing);
    assert!(session.timer_armed());

    let wanted = request(0, 0, 512, 384);
    assert_eq!(session.handle(Event::Tick), Action::Redraw(wanted));
    assert!(!session.timer_armed());
    assert_eq!(
        update_header(&wanted),
        vec![
            0x00, 0x00, 0x00, 0x01, 0x00, 0x00, 0x00, 0x00, 0x02, 0x00, 0x01, 0x80, 0x00, 0x00,
            0x00, 0x00
        ]
    );
    assert!(wanted.fits_within(fb.width(), fb.height()));
    let pixels = update_pixels(&fb, &wanted);
    assert_eq!(pixels.len(), 4 * 512 * 384);
    assert_eq!(&pixels[..8], &[3, 2, 1, 0, 6, 5, 4, 0]);
    assert_eq!(&pixels[4 * 512..4 * 512 + 4], &[9, 8, 7, 0]);
    assert_eq!(&pixels[pixels.len() - 4..], &[252, 251, 250, 0]);
    assert_eq!(pixels.iter().filter(|b| **b != 0).count(), 12);
}

#[test]
fn pixels_of_an_inner_rectangle_come_row_by_row() {
    let mut fb = Framebuffer::new(4, 3);
    for y in 0..3usize {
        for x in 0..4usize {
            fb.put(x, y, (10 * y + x) as u8, 100, 200);
        }
    }
    let wanted = request(1, 1, 2, 2);
    assert_eq!(
        update_pixels(&fb, &wanted),
        vec![200, 100, 11, 0, 200, 100, 12, 0, 200, 100, 21, 0, 200, 100, 22, 0]
    );
    assert_eq!(update_pixels(&fb, &request(3, 2, 0, 1)), Vec::<u8>::new());
    assert_eq!(update_pixels(&fb, &request(0, 0, 4, 0)), Vec::<u8>::new());
    assert_eq!(update_pixels(&fb, &request(3, 2, 1, 1)), vec![200, 100, 23, 0]);
}

#[test]
fn update_coalescing() {
    let mut session = serving_session(512, 384);
    let first = request(1, 2, 3, 4);
    let second = UpdateRequest { incremental: false, xpos: 5, ypos: 6, width: 7, height: 8 };
    assert_eq!(
        session.handle(Event::Frame(Frame::FramebufferUpdateRequest(first))),
        Action::Nothing
    );
    assert_eq!(session.pending(), Some(first));
    assert_eq!(
        session.handle(Event::Frame(Frame::FramebufferUpdateRequest(second))),
        Action::Nothing
    );
    assert_eq!(session.pending(), Some(second));
    assert_eq!(session.handle(Event::Tick), Action::Redraw(second));
    assert_eq!(session.pending(), None);
    assert_eq!(session.handle(Event::Tick), Action::Nothing);
}

#[test]
fn clamping() {
    let mut session = serving_session(512, 384);
    let huge = request(10000, 10000, 10000, 10000);
    assert_eq!(
        session.handle(Event::Frame(Frame::FramebufferUpdateRequest(huge))),
        Action::Nothing
    );
    let clamped = request(511, 383, 512, 384);
    assert_eq!(session.handle(Event::Tick), Action::Redraw(clamped));
    assert_eq!(
        update_header(&clamped),
        vec![0, 0, 0, 1, 0x01, 0xff, 0x01, 0x7f, 0x02, 0x00, 0x01, 0x80, 0, 0, 0, 0]
    );
    assert!(!clamped.fits_within(512, 384));
}

#[test]
fn clamp_cuts_each_field_on_its_own() {
    assert_eq!(request(512, 0, 1, 1).clamp(512, 384), request(511, 0, 1, 1));
    assert_eq!(request(0, 384, 1, 1).clamp(512, 384), request(0, 383, 1, 1));
    assert_eq!(request(0, 0, 513, 1).clamp(512, 384), request(0, 0, 512, 1));
    assert_eq!(request(0, 0, 1, 385).clamp(512, 384), request(0, 0, 1, 384));
    assert_eq!(request(511, 383, 512, 384).clamp(512, 384), request(511, 383, 512, 384));
    assert_eq!(request(3, 4, 5, 6).clamp(512, 384), request(3, 4, 5, 6));
    assert_eq!(request(9, 9, 9, 9).clamp(1, 1), request(0, 0, 1, 1));
    let kept = UpdateRequest { incremental: false, xpos: 700, ypos: 1, width: 2, height: 3 };
    assert!(!kept.clamp(512, 384).incremental);
}

#[test]
fn fits_within_tells_whether_the_rectangle_is_inside() {
    assert!(request(0, 0, 512, 384).fits_within(512, 384));
    assert!(request(511, 383, 1, 1).fits_within(512, 384));
    assert!(request(512, 384, 0, 0).fits_within(512, 384));
    assert!(!request(511, 383, 2, 1).fits_within(512, 384));
    assert!(!request(511, 383, 1, 2).fits_within(512, 384));
    assert!(!request(513, 0, 0, 0).fits_within(512, 384));
    assert!(!request(usize::MAX, 0, usize::MAX, 0).fits_within(512, 384));
}

#[test]
fn quit_key() {
    let mut session = serving_session(512, 384);
    let mut rfb = Rfb::new();
    rfb.ingest(b"\n\x01\x01");
    rfb.drain();
    rfb.ingest(&[0x04, 0x01, 0x00, 0x00, 0x00, 0x00, 0x00, 0x71]);
    let frame = rfb.parse().unwrap().unwrap();
    assert_eq!(frame, Frame::KeyEvent(1, 113));
    assert_eq!(session.handle(Event::Frame(frame)), Action::Close(CloseReason::Quit));
    assert_eq!(session.phase(), Phase::Closed);
    assert_eq!(session.handle(Event::Tick), Action::Nothing);
    assert_eq!(session.handle(Event::Frame(Frame::KeyEvent(1, 122))), Action::Nothing);
    assert_eq!(session.handle(Event::StreamEnded), Action::Nothing);
    assert_eq!(session.phase(), Phase::Closed);
}

#[test]
fn quit_drops_the_request_that_waits() {
    let mut session = serving_session(512, 384);
    session.handle(Event::Frame(Frame::FramebufferUpdateRequest(request(0, 0, 1, 1))));
    assert!(session.timer_armed());
    assert_eq!(
        session.handle(Event::Frame(Frame::KeyEvent(1, KEY_QUIT))),
        Action::Close(CloseReason::Quit)
    );
    assert!(!session.timer_armed());
    assert_eq!(session.handle(Event::Tick), Action::Nothing);
}

#[test]
fn protocol_mismatch() {
    let (mut session, _) = Session::open(512, 384);
    let mut rfb = Rfb::new();
    rfb.ingest(b"RFB 003.007\n");
    let frame = rfb.parse().unwrap().unwrap();
    assert_eq!(
        session.handle(Event::Frame(frame)),
        Action::Fail(SessionError::InvalidHandshake("RFB 003.007".to_string()))
    );
    assert_eq!(session.phase(), Phase::Closed);
}

#[test]
fn handshake_refuses_frames_out_of_turn() {
    let (mut session, _) = Session::open(512, 384);
    assert_eq!(
        session.handle(Event::Frame(Frame::SecuritySelection(Security::NoAuth))),
        Action::Fail(SessionError::UnexpectedFrame(Frame::SecuritySelection(Security::NoAuth)))
    );
    assert_eq!(session.phase(), Phase::Closed);

    let (mut session, _) = Session::open(512, 384);
    session.handle(Event::Frame(Frame::ProtocolVersion("RFB 003.008".to_string())));
    assert_eq!(
        session.handle(Event::Frame(Frame::ClientInit(Access::Shared))),
        Action::Fail(SessionError::UnexpectedFrame(Frame::ClientInit(Access::Shared)))
    );

    let (mut session, _) = Session::open(512, 384);
    session.handle(Event::Frame(Frame::ProtocolVersion("RFB 003.008".to_string())));
    session.handle(Event::Frame(Frame::SecuritySelection(Security::NoAuth)));
    assert_eq!(
        session.handle(Event::Frame(Frame::KeyEvent(1, 113))),
        Action::Fail(SessionError::UnexpectedFrame(Frame::KeyEvent(1, 113)))
    );
    assert_eq!(session.phase(), Phase::Closed);

    let (mut session, _) = Session::open(512, 384);
    assert_eq!(
        session.handle(Event::Frame(Frame::EOF)),
        Action::Fail(SessionError::UnexpectedFrame(Frame::EOF))
    );
}

#[test]
fn stream_end_closes_the_session() {
    let (mut session, _) = Session::open(512, 384);
    assert_eq!(session.handle(Event::StreamEnded), Action::Close(CloseReason::StreamEndedEarly));
    assert_eq!(session.phase(), Phase::Closed);

    let (mut session, _) = Session::open(512, 384);
    session.handle(Event::Frame(Frame::ProtocolVersion("RFB 003.008".to_string())));
    session.handle(Event::Frame(Frame::SecuritySelection(Security::NoAuth)));
    assert_eq!(session.handle(Event::StreamEnded), Action::Close(CloseReason::StreamEndedEarly));

    let mut session = serving_session(512, 384);
    assert_eq!(session.handle(Event::StreamEnded), Action::Close(CloseReason::StreamEnded));
    assert_eq!(session.phase(), Phase::Closed);
}

#[test]
fn parser_failure_closes_the_session() {
    let (mut session, _) = Session::open(512, 384);
    assert_eq!(
        session.handle(Event::ParseFailed(ParseError::HandshakeTooLong)),
        Action::Fail(SessionError::Parser(ParseError::HandshakeTooLong))
    );
    assert_eq!(session.phase(), Phase::Closed);

    let mut session = serving_session(512, 384);
    assert_eq!(
        session.handle(Event::ParseFailed(ParseError::InvalidMessage(9))),
        Action::Fail(SessionError::Parser(ParseError::InvalidMessage(9)))
    );
    assert_eq!(session.phase(), Phase::Closed);
}

#[test]
fn timer_is_idle_during_the_handshake() {
    let (mut session, _) = Session::open(512, 384);
    assert_eq!(session.handle(Event::Tick), Action::Nothing);
    assert_eq!(session.phase(), Phase::AwaitProtocolVersion);
    assert_eq!(
        session.handle(Event::Frame(Frame::ProtocolVersion("RFB 003.008".to_string()))),
        Action::Send(vec![1, 1])
    );
}

#[test]
fn keys_select_the_colour_mode() {
    let mut session = serving_session(512, 384);
    for (key, mode) in [(122u32, 0u32), (119, 1), (114, 2), (103, 3), (98, 4)] {
        assert_eq!(colour_for_key(key), Some(mode));
        assert_eq!(
            session.handle(Event::Frame(Frame::KeyEvent(1, key))),
            Action::SetColourMode(mode)
        );
        assert_eq!(session.phase(), Phase::Message);
    }
    assert_eq!(colour_for_key(113), None);
    assert_eq!(colour_for_key(0), None);
    assert_eq!(session.handle(Event::Frame(Frame::KeyEvent(1, 97))), Action::Nothing);
}

#[test]
fn only_a_key_pressed_counts() {
    let mut session = serving_session(512, 384);
    assert_eq!(session.handle(Event::Frame(Frame::KeyEvent(0, 113))), Action::Nothing);
    assert_eq!(session.handle(Event::Frame(Frame::KeyEvent(2, 113))), Action::Nothing);
    assert_eq!(session.handle(Event::Frame(Frame::KeyEvent(0, 122))), Action::Nothing);
    assert_eq!(session.phase(), Phase::Message);
}

#[test]
fn other_frames_are_ignored_while_serving() {
    let mut session = serving_session(512, 384);
    session.handle(Event::Frame(Frame::FramebufferUpdateRequest(request(1, 1, 1, 1))));
    for frame in [
        Frame::SetPixelFormat,
        Frame::SetEncodings(vec![0, -308]),
        Frame::PointerEvent(1, 2, 3),
        Frame::ClientCutText,
        Frame::ProtocolVersion("RFB 003.008".to_string()),
        Frame::SecuritySelection(Security::NoAuth),
        Frame::ClientInit(Access::Exclusive),
        Frame::EOF,
    ] {
        assert_eq!(session.handle(Event::Frame(frame)), Action::Nothing);
        assert_eq!(session.phase(), Phase::Message);
        assert_eq!(session.pending(), Some(request(1, 1, 1, 1)));
    }
}
