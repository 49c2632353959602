use geng::asset::{Hot, LoadProgress};
use geng::cli_args::{CliArgs, ContextFlags};
use geng::net::{Opt, Traffic};
use geng::sound::VolumeUpdateCounter;

#[test]
fn cli_args_override_options() {
    let defaults = ContextFlags {
        vsync: true,
        antialias: false,
        window_size: None,
        fullscreen: false,
        hot_reload: true,
    };
    let args = CliArgs {
        vsync: Some(false),
        window_width: Some(800),
        hot_reload: Some(false),
        ..Default::default()
    };
    let r = ContextFlags::from_args(defaults, &args);
    assert!(!r.vsync && !r.antialias && !r.fullscreen && !r.hot_reload);
    assert_eq!(r.window_size, None);
    let args = CliArgs { window_width: Some(800), window_height: Some(600), ..Default::default() };
    let r = ContextFlags::from_args(defaults, &args);
    assert_eq!(r.window_size, Some((800, 600)));
    assert!(r.vsync && r.hot_reload);
}

#[test]
fn server_address() {
    let opt = Opt { addr: None, server: false, with_server: false };
    assert_eq!(opt.addr(None), "127.0.0.1:1155");
    let opt = Opt { addr: Some("example.com:80".to_string()), server: true, with_server: false };
    assert_eq!(opt.addr(None), "example.com:80");
    assert_eq!(opt.addr(Some("build.example:1")), "example.com:80");
    let opt = Opt { addr: None, server: false, with_server: true };
    assert_eq!(opt.addr(Some("build.example:1")), "build.example:1");
}

#[test]
fn load_progress_counts() {
    let mut p = LoadProgress::new();
    p.asset_requested();
    p.asset_requested();
    p.asset_loaded();
    assert_eq!((p.progress(), p.total()), (1, 2));
    p.asset_loaded();
    assert_eq!((p.progress(), p.total()), (2, 2));
}

#[test]
fn volume_updates_every_101_samples() {
    let mut c = VolumeUpdateCounter::new();
    let updates: Vec<usize> = (0..303).filter(|_| c.tick()).collect();
    assert_eq!(updates, vec![0, 101, 202]);
}

#[test]
fn hot_asset_keeps_last_good_value() {
    let mut hot = Hot::new(String::from("v1"));
    assert_eq!(hot.get(), "v1");
    assert!(hot.reloaded::<()>(Ok(String::from("v2"))));
    assert_eq!(hot.get(), "v2");
    assert!(!hot.reloaded(Err("syntax error")));
    assert_eq!(hot.get(), "v2");
}

#[test]
fn traffic_counts_bytes_each_way() {
    let mut t = Traffic::new();
    t.sent(10);
    t.received(3);
    t.sent(5);
    assert_eq!(t, Traffic { inbound: 3, outbound: 15 });
}
