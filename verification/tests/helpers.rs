use capit::bar::{confirm_choice, hit_choice, Choice, BAR_H, BAR_W, SLOT};
use capit::capture::{clamp_crop, from_hex, new_handle_token, percent_decode, uri_to_path, CaptureCrop, UriError};
use capit::client::ui_config_from_response;
use capit::errors::IpcError;
use capit::cli::{parse_daemon_args, target_from_output_name, DaemonArgs};
use capit::colour::{a, argb, b, clamp_u8, darken, derive_slot_colours, g, lighten, r, shift_rgb, with_alpha};
use capit::config::{apply_config_options, parse_hex_colour, CapitConfig};
use capit::lock::{lock_file_contents, lock_is_stale, lock_path_for_socket, parse_pid_line};
use capit::notify::{default_timeout_ms, urgency, Kind};
use capit::paths::{default_log_path, default_output_path, default_socket_path, output_dir_from_cfg, temp_output_path, u64_dec_string};
use capit::pixels::{blend_over, draw_border_u32, fill_rect_u32, fill_u32, soften_corners};
use capit::protocol::{Mode, Rect, Response, Target, UiConfig};

#[test]
fn hex_colour_parsing() {
    assert_eq!(parse_hex_colour("#0A84FF").unwrap(), 0xFF0A_84FF);
    assert_eq!(parse_hex_colour("  #0f1115\n").unwrap(), 0xFF0F_1115);
    assert_eq!(parse_hex_colour("#FFFFFF").unwrap(), 0xFFFF_FFFF);
    assert_eq!(parse_hex_colour("#000000").unwrap(), 0xFF00_0000);
    assert!(parse_hex_colour("0A84FF").is_err());
    assert!(parse_hex_colour("#0A84F").is_err());
    assert!(parse_hex_colour("#0A84FF7F").is_err());
    assert!(parse_hex_colour("#0G84FF").is_err());
    assert!(parse_hex_colour("").is_err());
    assert!(parse_hex_colour("   ").is_err());
}

#[test]
fn config_options_overlay_with_fallbacks() {
    let mut cfg = CapitConfig::with_directory(String::from("/home/u/Pictures/Screenshots"));
    apply_config_options(
        &mut cfg,
        Some(String::from("/data/shots")),
        Some(String::from("#123456")),
        Some(String::from("not a colour")),
    );
    assert_eq!(cfg.screenshot_directory, String::from("/data/shots"));
    assert_eq!(cfg.accent_colour, 0xFF12_3456);
    // the invalid colour left the default standing
    assert_eq!(cfg.bar_background_colour, 0xFF0F_1115);

    // an empty directory never replaces the old one
    apply_config_options(&mut cfg, Some(String::new()), None, None);
    assert_eq!(cfg.screenshot_directory, String::from("/data/shots"));
}

#[test]
fn colour_channels_and_packing() {
    let c = 0x8141_2223u32;
    assert_eq!(a(c), 0x81);
    assert_eq!(r(c), 0x41);
    assert_eq!(g(c), 0x22);
    assert_eq!(b(c), 0x23);
    assert_eq!(argb(0x81, 0x41, 0x22, 0x23), c);
    assert_eq!(clamp_u8(-5), 0);
    assert_eq!(clamp_u8(300), 255);
    assert_eq!(clamp_u8(77), 77);
}

#[test]
fn colour_shifting_clamps_per_channel() {
    assert_eq!(shift_rgb(0xFF10_20F0, 0x20), 0xFF30_40FF);
    assert_eq!(lighten(0xFF00_0000, 8), 0xFF08_0808);
    assert_eq!(darken(0xFF05_0505, 10), 0xFF00_0000);
    assert_eq!(with_alpha(0xFF11_2233, 0x40), 0x4011_2233);
    let sc = derive_slot_colours(0xFF10_1010);
    assert_eq!(sc.idle, 0xFF18_1818);
    assert_eq!(sc.border, 0xFF00_0000);
}

#[test]
fn notification_parameters() {
    assert_eq!(urgency(Kind::Info), 1);
    assert_eq!(urgency(Kind::Error), 2);
    assert_eq!(default_timeout_ms(Kind::Info), 2500);
    assert_eq!(default_timeout_ms(Kind::Error), 6000);
}

#[test]
fn bar_hit_choice_by_slots() {
    assert_eq!(hit_choice(10, 40), Some(Choice::Region));
    assert_eq!(hit_choice(SLOT + 1, 0), Some(Choice::Screen));
    assert_eq!(hit_choice(BAR_W - 1, BAR_H - 1), Some(Choice::Window));
    assert_eq!(hit_choice(-1, 40), None);
    assert_eq!(hit_choice(BAR_W, 40), None);
    assert_eq!(hit_choice(10, BAR_H), None);
    assert_eq!(Choice::Region.to_mode(), Mode::Region);
    assert_eq!(Choice::Screen.to_mode(), Mode::Screen);
    assert_eq!(Choice::Window.to_mode(), Mode::Window);
}

#[test]
fn daemon_argument_walk() {
    let args = vec![
        String::from("--log-file"),
        String::from("/tmp/a.log"),
        String::from("extra"),
        String::from("-v"),
        String::from("--log-file"),
        String::from("/tmp/b.log"),
    ];
    assert_eq!(
        parse_daemon_args(&args),
        DaemonArgs { verbose: true, log_file: Some(String::from("/tmp/b.log")) }
    );
    assert_eq!(
        parse_daemon_args(&vec![String::from("--verbose")]),
        DaemonArgs { verbose: true, log_file: None }
    );
    // a trailing --log-file without a value changes nothing
    assert_eq!(
        parse_daemon_args(&vec![String::from("--log-file")]),
        DaemonArgs { verbose: false, log_file: None }
    );
    assert_eq!(
        target_from_output_name(Some(String::from("DP-1"))),
        Some(Target::OutputName(String::from("DP-1")))
    );
    assert_eq!(target_from_output_name(None), None);
}

#[test]
fn lock_paths_and_pid_lines() {
    assert_eq!(
        lock_path_for_socket("/run/user/1000/capit/capit.sock").unwrap(),
        String::from("/run/user/1000/capit/capitd.lock")
    );
    assert_eq!(lock_path_for_socket("nodir"), None);

    assert_eq!(lock_file_contents(1234), b"pid=1234\n".to_vec());
    assert_eq!(lock_file_contents(0), b"pid=0\n".to_vec());

    assert_eq!(parse_pid_line(&b"pid=1234\n".to_vec()), Some(1234));
    assert_eq!(parse_pid_line(&b"pid=0\n".to_vec()), Some(0));
    assert_eq!(parse_pid_line(&b"pid=\n".to_vec()), None);
    assert_eq!(parse_pid_line(&b"pid=12a4\n".to_vec()), None);
    assert_eq!(parse_pid_line(&b"pit=1234\n".to_vec()), None);
    assert_eq!(parse_pid_line(&b"pid=1234".to_vec()), None);
    assert_eq!(parse_pid_line(&b"pid=99999999999\n".to_vec()), None);
}

#[test]
fn lock_round_trip_and_staleness() {
    for pid in [0u32, 1, 9, 10, 4294967295] {
        assert_eq!(parse_pid_line(&lock_file_contents(pid)), Some(pid));
    }
    assert!(lock_is_stale(Some(42), true, false));
    assert!(!lock_is_stale(Some(42), true, true));
    assert!(!lock_is_stale(Some(42), false, false));
    assert!(!lock_is_stale(None, true, false));
}

#[test]
fn path_building() {
    assert_eq!(u64_dec_string(0), String::from("0"));
    assert_eq!(u64_dec_string(90210), String::from("90210"));
    assert_eq!(
        default_socket_path(Some(String::from("/run/user/1000"))),
        String::from("/run/user/1000/capit/capit.sock")
    );
    assert_eq!(default_socket_path(None), String::from("/tmp/capit/capit.sock"));
    assert_eq!(
        default_log_path(Some(String::from("/st")), None, "capit.log"),
        String::from("/st/capit/capit.log")
    );
    assert_eq!(
        default_log_path(None, Some(String::from("/home/u")), "capit.log"),
        String::from("/home/u/.local/state/capit/capit.log")
    );
    assert_eq!(default_log_path(None, None, "x.log"), String::from("/tmp/capit/x.log"));
    assert_eq!(
        default_output_path("/data/shots", 1700000000, "png"),
        String::from("/data/shots/capit-1700000000.png")
    );
}

#[test]
fn output_dir_priority() {
    let cfg = CapitConfig::with_directory(String::from("/cfgdir"));
    assert_eq!(
        output_dir_from_cfg(Some(String::from("/override")), &cfg, None),
        String::from("/override")
    );
    assert_eq!(output_dir_from_cfg(Some(String::new()), &cfg, None), String::from("/cfgdir"));
    let empty_cfg = CapitConfig::with_directory(String::new());
    assert_eq!(
        output_dir_from_cfg(None, &empty_cfg, Some(String::from("/run/user/1"))),
        String::from("/run/user/1")
    );
    assert_eq!(output_dir_from_cfg(None, &empty_cfg, None), String::from("/tmp"));
}

#[test]
fn crop_clamping() {
    let c = CaptureCrop::from_rect(&Rect { x: -10, y: 5, w: 100, h: 100 });
    assert_eq!(c, CaptureCrop { x: -10, y: 5, w: 100, h: 100 });
    // negative origin clips to zero; size clips to the image
    assert_eq!(clamp_crop(&c, 50, 60).unwrap(), (0, 5, 50, 55));
    // fully outside the image: nothing remains
    assert_eq!(clamp_crop(&CaptureCrop { x: 200, y: 0, w: 10, h: 10 }, 50, 50), None);
    assert_eq!(clamp_crop(&CaptureCrop { x: 0, y: 0, w: 0, h: 10 }, 50, 50), None);
    assert_eq!(clamp_crop(&CaptureCrop { x: 10, y: 10, w: 20, h: 20 }, 50, 50).unwrap(), (10, 10, 20, 20));
}

#[test]
fn percent_decoding() {
    assert_eq!(from_hex(b'7'), Some(7));
    assert_eq!(from_hex(b'a'), Some(10));
    assert_eq!(from_hex(b'F'), Some(15));
    assert_eq!(from_hex(b'g'), None);

    let decoded = percent_decode(&b"/tmp/a%20b%2Fc+d".to_vec()).unwrap();
    assert_eq!(decoded, b"/tmp/a b/c+d".to_vec());
    assert_eq!(percent_decode(&b"abc%2".to_vec()), None);
    assert_eq!(percent_decode(&b"abc%zz".to_vec()), None);
    assert_eq!(percent_decode(&b"".to_vec()).unwrap(), Vec::<u8>::new());
}

#[test]
fn framebuffer_fills() {
    let w = 8i32;
    let h = 4i32;
    let mut buf = vec![0u32; (w * h) as usize];
    fill_u32(&mut buf, 7);
    assert!(buf.iter().all(|&p| p == 7));

    fill_rect_u32(&mut buf, w, h, 1, 1, 2, 2, 9);
    let idx = |x: i32, y: i32| (y * w + x) as usize;
    assert_eq!(buf[idx(1, 1)], 9);
    assert_eq!(buf[idx(2, 2)], 9);
    assert_eq!(buf[idx(0, 0)], 7);
    assert_eq!(buf[idx(3, 1)], 7);

    // clipping: a rect hanging off the buffer edge only paints what exists
    fill_rect_u32(&mut buf, w, h, 6, 2, 5, 5, 4);
    assert_eq!(buf[idx(6, 2)], 4);
    assert_eq!(buf[idx(7, 3)], 4);
    assert_eq!(buf[idx(5, 2)], 7);
}

#[test]
fn border_and_corner_nicks() {
    let w = 10i32;
    let h = 10i32;
    let mut buf = vec![1u32; (w * h) as usize];
    draw_border_u32(&mut buf, w, h, 2, 2, 6, 6, 1, 5);
    let idx = |x: i32, y: i32| (y * w + x) as usize;
    assert_eq!(buf[idx(2, 2)], 5);
    assert_eq!(buf[idx(7, 7)], 5);
    assert_eq!(buf[idx(4, 2)], 5);
    assert_eq!(buf[idx(4, 4)], 1);
    assert_eq!(buf[idx(1, 1)], 1);

    // zero thickness draws nothing
    let before = buf.clone();
    draw_border_u32(&mut buf, w, h, 2, 2, 6, 6, 0, 9);
    assert_eq!(buf, before);

    let r = capit::geometry::RectLocal { x: 2, y: 2, w: 6, h: 6 };
    soften_corners(&mut buf, w, h, r, 3);
    assert_eq!(buf[idx(2, 2)], 3);
    assert_eq!(buf[idx(3, 2)], 3);
    assert_eq!(buf[idx(2, 3)], 3);
    assert_eq!(buf[idx(4, 2)], 5);
}

#[test]
fn blending() {
    // zero coverage keeps the destination; full coverage takes the source
    assert_eq!(blend_over(0xFF112233, 0xFF445566, 0), 0xFF112233);
    assert_eq!(blend_over(0xFF112233, 0xFF445566, 255), 0xFF445566);
    // an opaque source at half coverage lands midway
    let out = blend_over(0xFF000000, 0xFFFFFFFF, 128);
    assert_eq!(out, 0xFF808080);
}

#[test]
fn uri_to_path_handles_portal_forms() {
    assert_eq!(
        uri_to_path(&b"file:///home/u/shot.png".to_vec()),
        Ok(b"/home/u/shot.png".to_vec())
    );
    assert_eq!(
        uri_to_path(&b"file://localhost/home/u/shot.png".to_vec()),
        Ok(b"/home/u/shot.png".to_vec())
    );
    assert_eq!(
        uri_to_path(&b"file:////home/u/a%20b.png".to_vec()),
        Ok(b"/home/u/a b.png".to_vec())
    );
    assert_eq!(
        uri_to_path(&b"https://example".to_vec()),
        Err(UriError::BadScheme)
    );
    assert_eq!(
        uri_to_path(&b"file://elsewhere/home".to_vec()),
        Err(UriError::BadAuthority)
    );
    assert_eq!(uri_to_path(&b"file://localhost".to_vec()), Err(UriError::NoPath));
    assert_eq!(
        uri_to_path(&b"file:///bad%2".to_vec()),
        Err(UriError::BadEscape)
    );
}

#[test]
fn handle_tokens_and_bar_confirm() {
    assert_eq!(new_handle_token(12345), String::from("capit_12345"));
    assert_eq!(
        confirm_choice(Some(Choice::Region), Some(Choice::Screen), false),
        Some(Mode::Region)
    );
    assert_eq!(confirm_choice(None, Some(Choice::Screen), false), Some(Mode::Screen));
    assert_eq!(confirm_choice(None, Some(Choice::Window), false), None);
    assert_eq!(confirm_choice(None, Some(Choice::Window), true), Some(Mode::Window));
    assert_eq!(confirm_choice(None, None, true), None);
}

#[test]
fn ui_config_response_judgement() {
    let cfg = UiConfig { accent_colour: 1, bar_background_colour: 2 };
    assert_eq!(ui_config_from_response(Response::UiConfig { cfg }), Ok(cfg));
    assert!(matches!(
        ui_config_from_response(Response::Okay),
        Err(IpcError::Remote(_))
    ));
}

#[test]
fn temp_output_path_keeps_the_stem() {
    assert_eq!(
        temp_output_path("/data/shots/capit-17.png", 42),
        String::from("/data/shots/capit-17.capit_tmp_42.png")
    );
    assert_eq!(
        temp_output_path("/data/shots/noext", 1),
        String::from("/data/shots/noext.capit_tmp_1.png")
    );
    assert_eq!(
        temp_output_path("bare.png", 7),
        String::from("bare.capit_tmp_7.png")
    );
    // a leading dot alone is not an extension
    assert_eq!(
        temp_output_path("/d/.hidden", 7),
        String::from("/d/.hidden.capit_tmp_7.png")
    );
}
