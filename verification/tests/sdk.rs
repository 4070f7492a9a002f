use remagic::path::FilePath;
use remagic::sdk::environment::{ManagedEnvironment, ManagedEnvironmentError, ManagedVariables};
use remagic::sdk::frame::{
    announced_length, decode_frame, encode_frame, send_step, wait_milliseconds, SendAttempt,
    SendStep,
};
use remagic::sdk::lifecycle::{
    decode_command_packet, encode_event_packet, LifecycleError, LifecycleEvent, LifecycleFence,
};
use remagic::sdk::qtfb::{
    check_surface, decode_initialize_reply, decode_touch, initialize_message, refresh_change,
    required_surface, update_partial_message, InputEvent, QtfbError, TouchPhase, REFRESH_FAST,
    REFRESH_UI,
};
use remagic::sdk::surface::{Surface, BLACK, WHITE};
use remagic::sdk::sync::{reply_length, request_frame, SyncAction, SyncClient, SyncError, SyncReply};
use remagic::{AppId, AppToken, DeviceProduct, DeviceProfile};

const MAX_FRAME: usize = 64 * 1024;

#[test]
fn malformed_frames_are_rejected_before_json() {
    assert!(matches!(
        decode_command_packet(b"\0\0\0\x08{}", MAX_FRAME),
        Err(LifecycleError::InvalidFrame(8))
    ));
}

#[test]
fn rejects_short_surfaces_and_clips_rectangles() {
    assert!(Surface::new(&mut [0; 3], 2, 1, 4).is_none());
    let mut bytes = [0_u8; 16];
    let mut surface = Surface::new(&mut bytes, 4, 2, 8).unwrap();
    surface.clear(WHITE);
    surface.fill_rect(3, 1, 9, 9, BLACK);
    assert_eq!(&bytes[14..16], &[0, 0]);
    assert_eq!(&bytes[12..14], &[255, 255]);
}

#[test]
fn exchange_root_is_private_to_the_requester_data_home() {
    assert_eq!(
        SyncClient::exchange_root(&FilePath::new("/home/root/.local/share/upload")),
        FilePath::new("/home/root/.local/share/upload/sync-exchange")
    );
}

fn token(app: &str, generation: u64, epoch: u64) -> AppToken {
    AppToken {
        app_id: AppId::new(app).unwrap(),
        generation,
        foreground_epoch: epoch,
        lease_id: Some(3),
    }
}

#[test]
fn event_frame_round_trips_with_length_prefix() {
    let mut fence = LifecycleFence::new(AppId::new("upload").unwrap());
    fence.accept_token(&token("upload", 1, 2), true).unwrap();
    let outgoing = fence.ready(4, 1).unwrap();
    assert_eq!(
        outgoing.event,
        LifecycleEvent::Ready {
            first_frame_sequence: Some(4)
        }
    );
    let contents = format!("{{\"request_id\":\"{}\"}}", outgoing.request_id);
    let packet = encode_event_packet(contents.as_bytes(), MAX_FRAME).unwrap();
    let length = u32::from_be_bytes(packet[..4].try_into().unwrap()) as usize;
    assert_eq!(packet.len(), length + 4);
    let decoded = decode_command_packet(&packet, MAX_FRAME).unwrap();
    assert_eq!(decoded, contents.as_bytes());
    let value: serde_json::Value = serde_json::from_slice(&packet[4..]).unwrap();
    assert_eq!(value["request_id"], outgoing.request_id.as_str());
}

#[test]
fn frames_are_bounded_and_read_back() {
    let frame = encode_frame(b"abc", 3).unwrap();
    assert_eq!(frame, b"\0\0\0\x03abc");
    assert_eq!(decode_frame(&frame, 3).unwrap(), b"abc");
    assert_eq!(decode_frame(&frame, 2), Err(3));
    assert_eq!(encode_frame(b"abc", 2), Err(3));
    assert_eq!(encode_frame(b"", 2), Err(0));
    assert_eq!(announced_length(b"\0\0\0\x05", 9), Ok(5));
    assert_eq!(announced_length(b"\0\0\x01\0", 9), Err(256));
}

#[test]
fn packets_are_sent_whole() {
    assert_eq!(send_step(SendAttempt::Sent(9), 9), SendStep::Done);
    assert_eq!(send_step(SendAttempt::Sent(4), 9), SendStep::Short(4));
    assert_eq!(send_step(SendAttempt::Interrupted, 9), SendStep::Retry);
    let blocked = |ready: bool| send_step(SendAttempt::WouldBlock { ready }, 9);
    assert_eq!(blocked(true), SendStep::Retry);
    assert_eq!(blocked(false), SendStep::Fail);
    assert_eq!(send_step(SendAttempt::Failed, 9), SendStep::Fail);
    assert_eq!(wait_milliseconds(0, false), None);
    assert_eq!(wait_milliseconds(0, true), Some(1));
    assert_eq!(wait_milliseconds(250, true), Some(250));
    assert_eq!(wait_milliseconds(u64::MAX, true), Some(i32::MAX));
}

#[test]
fn events_carry_the_token_that_was_given_last() {
    let mut fence = LifecycleFence::new(AppId::new("upload").unwrap());
    assert!(matches!(
        fence.ready(1, 1),
        Err(LifecycleError::StartRequired)
    ));
    assert!(matches!(
        fence.accept_token(&token("upload", 5, 2), false),
        Err(LifecycleError::StartRequired)
    ));
    assert!(matches!(
        fence.accept_token(&token("koreader", 5, 2), true),
        Err(LifecycleError::InvalidToken)
    ));
    let first = token("upload", 5, 2);
    fence.accept_token(&first, true).unwrap();
    assert_eq!(fence.active_token(), Some(&first));
    assert!(matches!(
        fence.accept_token(&token("upload", 4, 9), false),
        Err(LifecycleError::StaleToken)
    ));
    assert!(matches!(
        fence.ready(0, 1),
        Err(LifecycleError::ZeroFrameSequence)
    ));
    let saved = fence.stamp(LifecycleEvent::StateSaved, 1).unwrap();
    let ended = fence.shutdown_complete(3, 1).unwrap();
    assert_eq!(saved.token, first);
    assert_ne!(saved.request_id, ended.request_id);
    assert_eq!(
        ended.event,
        LifecycleEvent::ShutdownComplete { exit_code: 3 }
    );
    let (state, background) = fence.background_ready("t".into(), "s".into(), 1).unwrap();
    assert_eq!(state.event, LifecycleEvent::StateSaved);
    assert!(matches!(
        background.event,
        LifecycleEvent::BackgroundReady { .. }
    ));
    let failed = fence.failed("start".into(), "no".into(), true, 1).unwrap();
    assert!(matches!(
        failed.event,
        LifecycleEvent::Failed {
            retryable: true,
            ..
        }
    ));
}

#[test]
fn display_messages_have_a_fixed_layout() {
    let hello = initialize_message(0x0102_0304, 2);
    assert_eq!(hello[0], 0);
    assert_eq!(&hello[4..8], &[4, 3, 2, 1]);
    assert_eq!(hello[8], 2);
    let update = update_partial_message(1, 2, 3, 4);
    assert_eq!(update[0], 1);
    assert_eq!(&update[8..12], &[1, 0, 0, 0]);
    assert!(refresh_change(REFRESH_UI, REFRESH_UI).is_none());
    assert!(refresh_change(REFRESH_UI, REFRESH_FAST).is_some());
    let mut touch = vec![0_u8; 32];
    touch[0] = 4;
    touch[8] = 0x12;
    touch[12] = 7;
    touch[16..20].copy_from_slice(&(-5_i32).to_le_bytes());
    assert_eq!(
        decode_touch(&touch, 28),
        Some(InputEvent {
            phase: TouchPhase::Move,
            finger: 7,
            x: -5,
            y: 0
        })
    );
    assert_eq!(decode_touch(&touch, 27), None);
    assert!(matches!(
        decode_initialize_reply(&[0; 32], 3),
        Err(QtfbError::InitializationRejected)
    ));
    assert!(check_surface(10, 10).is_ok());
    assert!(matches!(
        check_surface(9, 10),
        Err(QtfbError::SurfaceTooSmall {
            length: 9,
            required: 10
        })
    ));
    let device = DeviceProfile::for_product(DeviceProduct::PaperPro, "1");
    assert_eq!(
        required_surface(&device.display).ok(),
        Some(device.display.stride as usize * device.display.logical_height as usize)
    );
}

fn variables() -> ManagedVariables {
    ManagedVariables {
        managed: Some("1".into()),
        app_id: Some("upload".into()),
        device_profile: Some(Ok(DeviceProfile::for_product(
            DeviceProduct::PaperPro,
            "3.27.0",
        ))),
        qtfb_key: Some("-12".into()),
        qtfb_socket: Some("/run/qtfb.sock".into()),
        lifecycle_fd: Some("5".into()),
        listen_addr: None,
        books_dir: None,
        wallpapers_dir: None,
    }
}

#[test]
fn the_environment_names_what_is_missing() {
    let found = ManagedEnvironment::discover("upload", variables()).unwrap();
    assert_eq!(found.qtfb_key, -12);
    assert_eq!(found.lifecycle_fd, 5);
    assert_eq!(found.qtfb_socket, FilePath::new("/run/qtfb.sock"));
    assert!(matches!(
        found.require_upload_contract(),
        Err(ManagedEnvironmentError::IncompleteUploadContract)
            | Err(ManagedEnvironmentError::MissingCapability(_))
    ));
    let discover = |change: fn(&mut ManagedVariables)| {
        let mut changed = variables();
        change(&mut changed);
        ManagedEnvironment::discover("upload", changed).unwrap_err()
    };
    assert!(matches!(
        discover(|v| v.managed = None),
        ManagedEnvironmentError::NotManaged
    ));
    assert!(matches!(
        discover(|v| v.app_id = None),
        ManagedEnvironmentError::Missing("REMAGIC_APP_ID")
    ));
    assert!(matches!(
        discover(|v| v.app_id = Some("koreader".into())),
        ManagedEnvironmentError::AppMismatch { .. }
    ));
    assert!(matches!(
        discover(|v| v.qtfb_key = Some("x".into())),
        ManagedEnvironmentError::Invalid("QTFB_KEY", _)
    ));
    assert!(matches!(
        discover(|v| v.listen_addr = Some(Err("bad".into()))),
        ManagedEnvironmentError::Invalid("REMAGIC_LISTEN_ADDR", _)
    ));
}

#[test]
fn sync_requests_are_framed_and_replies_judged() {
    let client = SyncClient::new(
        FilePath::new("/run/sync.sock"),
        AppId::new("upload").unwrap(),
        AppId::new("koreader").unwrap(),
    );
    let request = client.request(SyncAction::Prepare);
    assert_eq!(request.requester, AppId::new("upload").unwrap());
    assert_eq!(request.provider, AppId::new("koreader").unwrap());
    let reply = |success: bool| SyncReply::Output {
        success,
        output: "words".into(),
    };
    assert_eq!(SyncClient::conclude(reply(true)).ok().unwrap(), "words");
    assert!(matches!(
        SyncClient::conclude(reply(false)),
        Err(SyncError::Rejected(_))
    ));
    assert!(matches!(
        SyncClient::conclude(SyncReply::Other),
        Err(SyncError::UnexpectedResponse)
    ));
    assert_eq!(request_frame(b"xy", 9).ok().unwrap(), b"\0\0\0\x02xy");
    assert!(matches!(
        request_frame(b"xy", 1),
        Err(SyncError::FrameLength(2))
    ));
    assert_eq!(reply_length(b"\0\0\0\x02", 9).ok(), Some(2));
}

#[test]
fn pixels_can_be_read_and_blended() {
    let mut bytes = [0_u8; 16];
    let mut surface = Surface::new(&mut bytes, 4, 2, 8).unwrap();
    surface.clear(BLACK);
    surface.put_pixel(1, 1, WHITE);
    assert_eq!(surface.pixel(1, 1), Some(WHITE));
    assert_eq!(surface.pixel(0, 0), Some(BLACK));
    assert_eq!(surface.pixel(-1, 0), None);
    surface.blend_pixel(0, 0, WHITE, 255);
    assert_eq!(surface.pixel(0, 0), Some(WHITE));
    surface.blend_pixel(3, 1, WHITE, 128);
    assert_eq!(surface.pixel(3, 1), Some(0x8410));
    surface.blend_pixel(2, 0, WHITE, 0);
    assert_eq!(surface.pixel(2, 0), Some(BLACK));
    surface.stroke_rect(0, 0, 4, 2, 1, BLACK);
    assert_eq!(surface.pixel(1, 1), Some(BLACK));
    assert_eq!((surface.width(), surface.height()), (4, 2));
}
