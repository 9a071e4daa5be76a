use theshy::{Config, LineType, Log};

const SETTINGS: &str = "[common]\napp=fox\nwrite_log=True\n\n[client]\nminimum_worker=4\nproxy_server_addr=127.0.0.1:8080\n";

#[test]
fn init_reads_common_section() {
    let mut c = Config::new();
    assert!(c.log_off());
    let app = c.init(SETTINGS.to_string());
    assert_eq!(app, "fox");
    assert!(!c.log_off());
}

#[test]
fn init_keeps_logs_off_when_asked() {
    let mut c = Config::new();
    let app = c.try_init("[common]\napp=operator\nwrite_log=false\n".to_string());
    assert_eq!(app, Some("operator".to_string()));
    assert!(c.log_off());
}

#[test]
fn try_init_rejects_incomplete_settings() {
    let mut c = Config::new();
    assert_eq!(c.try_init("[common]\nwrite_log=true\n".to_string()), None);
    assert_eq!(c.try_init("[common]\napp=fox\nwrite_log=maybe\n".to_string()), None);
    assert_eq!(c.try_init("[common]\napp=fox\n".to_string()), None);
    assert!(c.log_off());
}

#[test]
fn client_side_settings() {
    let mut c = Config::new();
    c.init_client_side_setting(SETTINGS.to_string());
    assert_eq!(c.minimum_worker(), 4);
    assert_eq!(c.proxy_server_addr(), "127.0.0.1:8080");
}

#[test]
fn client_side_settings_checked() {
    let mut c = Config::new();
    assert!(!c.try_init_client_side_setting("[client]\nminimum_worker=70\nproxy_server_addr=x\n".to_string()));
    assert!(!c.try_init_client_side_setting("[client]\nminimum_worker=-1\nproxy_server_addr=x\n".to_string()));
    assert!(!c.try_init_client_side_setting("[client]\nminimum_worker=3\n".to_string()));
    assert_eq!(c.minimum_worker(), 0);
    assert!(c.try_init_client_side_setting("[client]\nminimum_worker=+5\nproxy_server_addr=h:1\n".to_string()));
    assert_eq!(c.minimum_worker(), 5);
    assert_eq!(c.proxy_server_addr(), "h:1");
    // only the low byte of the number counts
    assert!(c.try_init_client_side_setting("[client]\nminimum_worker=258\nproxy_server_addr=h:1\n".to_string()));
    assert_eq!(c.minimum_worker(), 2);
}

#[test]
fn plain_setters() {
    let mut c = Config::new();
    c.turn_on();
    assert!(!c.log_off());
    c.set_working_caller_count(3);
    assert_eq!(c.working_caller_count(), 3);
    c.set_minimum_worker(62);
    assert_eq!(c.minimum_worker(), 62);
    c.set_proxy_server_addr("a:1".to_string());
    assert_eq!(c.proxy_server_addr(), "a:1");
}

#[test]
fn log_paths() {
    assert_eq!(Log::get_path(LineType::Fox, "Default"), "log/Fox/Default.log");
    assert_eq!(Log::get_path(LineType::Caller, "17"), "log/Caller/17.log");
    assert_eq!(Log::heart_beat_file(), "log/heart_beat.log");
    assert_eq!(Log::event_file(), "log/event.log");
    let mut c = Config::new();
    assert_eq!(Log::new(&c, LineType::Fox, "1"), None);
    assert_eq!(Log::create_dir(&c, LineType::Fox), None);
    c.turn_on();
    assert_eq!(Log::new(&c, LineType::Fox, "1"), Some("log/Fox/1.log".to_string()));
    let (dir, files) = Log::create_dir(&c, LineType::Operator).unwrap();
    assert_eq!(dir, "log/Operator");
    assert_eq!(
        files,
        vec![
            "log/Operator/Default.log",
            "log/Operator/Event.log",
            "log/Operator/Establish.log",
            "log/Operator/GoodBye.log",
            "log/Operator/Unexpected.log"
        ]
    );
}

#[test]
fn decimal_strings() {
    assert_eq!(theshy::text::decimal_string(0), "0");
    assert_eq!(theshy::text::decimal_string(1234), "1234");
    assert_eq!(theshy::text::decimal_string(u64::MAX), "18446744073709551615");
}

#[test]
fn big_endian_bytes() {
    let b = theshy::sni::u64_to_be_bytes(0x0102030405060708);
    assert_eq!(b, vec![1, 2, 3, 4, 5, 6, 7, 8]);
    assert_eq!(theshy::sni::u64_from_be_bytes(&b), 0x0102030405060708);
    assert_eq!(theshy::sni::frame_sni(b"h", 1, &[9]), vec![1, b'h', 0, 0, 0, 0, 0, 0, 0, 1, 9]);
}

#[test]
fn settings_stay_once_written() {
    let mut c = Config::new();
    assert_eq!(c.proxy_server_addr(), "");
    c.turn_on();
    c.init("[common]\napp=x\nwrite_log=false\n".to_string());
    assert!(!c.log_off());
    c.set_minimum_worker(7);
    c.set_proxy_server_addr("p:9".to_string());
    c.set_working_caller_count(2);
    c.turn_on();
    assert_eq!(c.minimum_worker(), 7);
    assert_eq!(c.proxy_server_addr(), "p:9");
    assert_eq!(c.proxy_server_addr(), "p:9");
}
