use rusk::diagnostics::{backtrace_message, Diagnostics};
use rusk::embed_jvm::EmbedJvmError;
use rusk::input::{drain_events, parse_event, InputEvent, KeyPhase, Pointer, RawEvent, TouchPhase};
use rusk::jni_safe::{check_exception, settle, settle_object, PendingException, SafeJniError};
use rusk::ndk_sys::{log_at, log_error, log_info, read_asset, LogPriority, WindowFormat};
use rusk::render::{buffer_len, ExitReason, FrameAction, FrameBuffer, LifecycleEvent, RenderLoop, ShellState};
use rusk::tls::{alpn_protocols, TlsError, TlsSetup};

#[test]
fn a_pixel_is_set() {
    let mut bytes = vec![9u8; 3 * 2 * 4];
    let mut fb = FrameBuffer { width: 2, height: 2, stride_pixels: 3, bits: &mut bytes };
    fb.put_pixel(1, 1, 0x11223344);
    assert_eq!((fb.width(), fb.height(), fb.stride_pixels()), (2, 2, 3));
    let mut want = vec![9u8; 24];
    want[16..20].copy_from_slice(&[0x11, 0x22, 0x33, 0x44]);
    assert_eq!(bytes, want);
}

#[test]
fn pixels_outside_are_ignored() {
    let mut bytes = vec![9u8; 16];
    let mut fb = FrameBuffer { width: 2, height: 3, stride_pixels: 2, bits: &mut bytes };
    for (x, y) in [(-1, 0), (0, -1), (2, 0), (0, 3), (0, 2), (1, 2), (i32::MAX, i32::MAX), (i32::MIN, 0)] {
        fb.put_pixel(x, y, 0);
    }
    assert_eq!(bytes, vec![9u8; 16]);
}

#[test]
fn clearing_leaves_the_padding() {
    let mut bytes = vec![9u8; 3 * 2 * 4];
    let mut fb = FrameBuffer { width: 2, height: 2, stride_pixels: 3, bits: &mut bytes };
    fb.clear(0x14161aff);
    let pixel = [0x14, 0x16, 0x1a, 0xff];
    for k in 0..24 {
        let padding = k / 4 % 3 == 2;
        assert_eq!(bytes[k], if padding { 9 } else { pixel[k % 4] }, "{k}");
    }
}

#[test]
fn raw_bytes_can_be_written() {
    let mut bytes = vec![0u8; 4];
    let mut fb = FrameBuffer { width: 1, height: 1, stride_pixels: 1, bits: &mut bytes };
    fb.raw_bytes_mut()[2] = 5;
    assert_eq!(bytes, [0, 0, 5, 0]);
}

#[test]
fn the_life_of_a_window() {
    let mut s = ShellState::new();
    let mut l = RenderLoop::new();
    assert_eq!((s.native_window(), s.poll_timeout()), (None, -1));
    assert_eq!(l.next(&s), FrameAction::Wait);
    s = s.on_event(LifecycleEvent::WindowCreated(77));
    assert_eq!((s.native_window(), s.poll_timeout()), (Some(77), 0));
    assert_eq!(l.next(&s), FrameAction::Draw { window: 77, configure: true });
    assert_eq!(l.next(&s), FrameAction::Draw { window: 77, configure: false });
    s = s.on_event(LifecycleEvent::WindowResized);
    assert_eq!(l.next(&s), FrameAction::Draw { window: 77, configure: true });
    s = s.on_event(LifecycleEvent::WindowDestroyed);
    assert_eq!(l.next(&s), FrameAction::Wait);
    s = s.on_event(LifecycleEvent::InputQueueCreated(5));
    assert_eq!(s.input_queue(), Some(5));
    s = s.on_event(LifecycleEvent::InputQueueDestroyed);
    assert_eq!(s.input_queue(), None);
    s = s.on_event(LifecycleEvent::FocusChanged(false));
    assert!(!s.has_focus);
    s = s.on_event(LifecycleEvent::Destroy).on_event(LifecycleEvent::WindowCreated(8));
    assert_eq!(l.next(&s), FrameAction::Exit(ExitReason::Destroyed));
    assert_eq!(l.after_frame(true, false), Some(ExitReason::DrawRequestedExit));
    assert_eq!(l.after_frame(true, true), None);
    assert_eq!(l.after_frame(false, false), None);
}

#[test]
fn the_count_of_windows_begins_anew() {
    let mut s = ShellState::new();
    s.window_generation = i32::MAX;
    assert_eq!(s.on_event(LifecycleEvent::WindowResized).window_generation, i32::MIN);
}

#[test]
fn lengths_of_buffers() {
    assert_eq!(buffer_len(3, 2), Some(24));
    assert_eq!(buffer_len(-1, 2), None);
    assert_eq!(buffer_len(0, 5), Some(0));
}

fn raw(event_type: i32, action: i32) -> RawEvent {
    RawEvent {
        event_type,
        action,
        pointers: vec![Pointer { x_bits: 1.5f32.to_bits(), y_bits: 2.0f32.to_bits() }],
        key_code: 4,
        repeat_count: 2,
        event_time_nanos: 99,
    }
}

#[test]
fn events_are_read() {
    match parse_event(&raw(2, 3)) {
        InputEvent::Touch { phase, pointers, event_time_nanos } => {
            assert_eq!(phase, TouchPhase::Cancel);
            assert_eq!(f32::from_bits(pointers[0].x_bits), 1.5);
            assert_eq!(event_time_nanos, 99);
        }
        other => panic!("{other:?}"),
    }
    match parse_event(&raw(1, 1)) {
        InputEvent::Key { phase, key_code, repeat_count, .. } => {
            assert_eq!((phase, key_code, repeat_count), (KeyPhase::Up, 4, 2));
        }
        other => panic!("{other:?}"),
    }
    assert!(matches!(parse_event(&raw(7, 0)), InputEvent::Unrecognized { raw_type: 7 }));
    assert_eq!(TouchPhase::from_raw(0), TouchPhase::Down);
    assert_eq!(TouchPhase::from_raw(261), TouchPhase::Other(261));
    assert_eq!(KeyPhase::from_raw(2), KeyPhase::Other(2));
    let all = drain_events(&vec![raw(1, 0), raw(2, 2), raw(3, 0)]);
    assert_eq!(all.len(), 3);
    assert!(matches!(&all[1], InputEvent::Touch { phase: TouchPhase::Move, .. }));
}

#[test]
fn log_lines_end_at_a_nul() {
    let l = log_info("t\0ag", "hello\0world");
    assert_eq!((l.tag.as_str(), l.text.as_str(), l.priority.code()), ("t", "hello", 4));
    assert_eq!(log_error("t", "x").priority, LogPriority::Error);
    assert_eq!(log_at(LogPriority::Silent, "t", "x").priority.code(), 8);
    assert_eq!(WindowFormat::Rgb565.code(), 4);
}

#[test]
fn assets_are_cut_to_what_was_read() {
    assert_eq!(read_asset(vec![1, 2, 3], 2), Some(vec![1, 2]));
    assert_eq!(read_asset(vec![1, 2, 3], 3), Some(vec![1, 2, 3]));
    assert_eq!(read_asset(vec![1, 2, 3], -1), None);
    assert_eq!(read_asset(vec![], 0), Some(vec![]));
}

#[test]
fn tls_has_to_be_set_up_on_android() {
    let mut s = TlsSetup::new(true);
    let e = s.client_config().unwrap_err();
    assert!(matches!(e, TlsError::NotInitialized));
    assert!(e.message().starts_with("rusk_tls::init() was not called"));
    assert!(s.init());
    assert!(!s.init());
    assert!(s.client_config().is_ok());
    let mut s = TlsSetup::new(false);
    assert!(s.client_config().is_ok());
    assert!(!s.init());
    assert_eq!(alpn_protocols(), ["h2", "http/1.1"]);
    assert_eq!(TlsError::ConfigBuild("x".to_string()).message(), "rustls client config build failed: x");
}

#[test]
fn diagnostics_are_installed_once() {
    let mut d = Diagnostics::new();
    assert!(d.init());
    assert!(!d.init());
    assert_eq!(backtrace_message("app", "here", "frames"), "app: here\nframes");
}

#[test]
fn jvm_errors_have_messages() {
    assert_eq!(
        EmbedJvmError::invoke_on_instance("run", "boom".to_string()).message(),
        "failed to invoke \"run\" on \"<instance>\": boom"
    );
    let e = EmbedJvmError::MavenDeploy { artifact: "g:a:1".to_string(), reason: "r".to_string() };
    assert_eq!(e.message(), "failed to deploy Maven artifact \"g:a:1\": r");
    let e = EmbedJvmError::CreateInstance { class: "C".to_string(), reason: "r".to_string() };
    assert_eq!(e.message(), "failed to create Java instance of \"C\": r");
    assert_eq!(EmbedJvmError::JvmStart("r".to_string()).message(), "failed to start the embedded JVM: r");
    assert_eq!(
        EmbedJvmError::Conversion("r".to_string()).message(),
        "failed to convert the Java return value to the requested Rust type: r"
    );
}

#[test]
fn java_exceptions_come_first() {
    assert!(check_exception(None).is_ok());
    let e = check_exception(Some(PendingException { class: None, message: None })).unwrap_err();
    assert_eq!(e.message(), "a Java exception was thrown: <unknown exception class> — <no message>");
    let pending = || Some(PendingException { class: Some("X".to_string()), message: Some("m".to_string()) });
    assert!(matches!(settle(Ok(1), pending()), Err(SafeJniError::JavaException { class, .. }) if class == "X"));
    assert!(matches!(settle::<i32>(Err("bad".to_string()), pending()), Err(SafeJniError::JavaException { .. })));
    assert!(matches!(settle::<i32>(Err("bad".to_string()), None), Err(SafeJniError::Jni(r)) if r == "bad"));
    assert!(matches!(settle(Ok(1), None), Ok(1)));
    assert!(matches!(settle_object::<i32>(Ok(None), None), Err(SafeJniError::UnexpectedNull)));
    assert!(matches!(settle_object(Ok(Some(3)), None), Ok(3)));
    assert_eq!(SafeJniError::UnexpectedNull.message(), "expected a non-null Java object but got null");
}
