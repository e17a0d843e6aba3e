use sysproxy::model::{Autoproxy, Sysproxy};
use sysproxy::options::{
    OptionRecord, PROXY_TYPE_AUTO_DETECT, PROXY_TYPE_AUTO_PROXY_URL, PROXY_TYPE_DIRECT,
    PROXY_TYPE_PROXY,
};
use sysproxy::parse::parse_server;

#[test]
fn get_system_defaults_when_store_values_missing() {
    let s = Sysproxy::get_system_proxy(None, None, None);
    assert_eq!(s.enable, false);
    assert_eq!(s.host, "");
    assert_eq!(s.port, 0);
    assert_eq!(s.bypass, "");
}

#[test]
fn get_system_reads_flag_server_and_bypass() {
    let s = Sysproxy::get_system_proxy(
        Some(1),
        Some("127.0.0.1:7890".to_string()),
        Some("localhost;<local>".to_string()),
    );
    assert_eq!(s.enable, true);
    assert_eq!(s.host, "127.0.0.1");
    assert_eq!(s.port, 7890);
    assert_eq!(s.bypass, "localhost;<local>");
}

#[test]
fn get_system_flag_other_than_one_reads_disabled() {
    let s = Sysproxy::get_system_proxy(Some(0), Some("1.2.3.4:5".to_string()), None);
    assert_eq!(s.enable, false);
    assert_eq!(s.host, "1.2.3.4");
    assert_eq!(s.port, 5);
}

#[test]
fn get_auto_missing_url_is_disabled_not_an_error() {
    let a = Autoproxy::get_auto_proxy(None);
    assert_eq!(a.enable, false);
    assert_eq!(a.url, "");
}

#[test]
fn get_auto_present_url_enables() {
    let a = Autoproxy::get_auto_proxy(Some("http://pac.example/wpad.dat".to_string()));
    assert_eq!(a.enable, true);
    assert_eq!(a.url, "http://pac.example/wpad.dat");
}

#[test]
fn disabled_manual_and_auto_writes_build_the_same_list() {
    let m = Sysproxy {
        enable: false,
        host: "ignored".to_string(),
        port: 1,
        bypass: "ignored too".to_string(),
    };
    let a = Autoproxy { enable: false, url: "ignored".to_string() };
    let lm = m.set_system_proxy();
    let la = a.set_auto_proxy();
    assert_eq!(lm, la);
    assert_eq!(lm, vec![OptionRecord::Flags(PROXY_TYPE_DIRECT)]);
}

#[test]
fn manual_write_builds_flags_server_and_bypass_records() {
    let m = Sysproxy {
        enable: true,
        host: "127.0.0.1".to_string(),
        port: 7890,
        bypass: "localhost".to_string(),
    };
    let list = m.set_system_proxy();
    assert_eq!(
        list,
        vec![
            OptionRecord::Flags(PROXY_TYPE_PROXY | PROXY_TYPE_DIRECT),
            OptionRecord::ProxyServer("127.0.0.1:7890".to_string()),
            OptionRecord::ProxyBypass("localhost".to_string()),
        ]
    );
}

#[test]
fn auto_write_builds_flags_and_url_records() {
    let a = Autoproxy { enable: true, url: "http://pac.example/p.pac".to_string() };
    let list = a.set_auto_proxy();
    assert_eq!(
        list,
        vec![
            OptionRecord::Flags(
                PROXY_TYPE_AUTO_DETECT | PROXY_TYPE_AUTO_PROXY_URL | PROXY_TYPE_DIRECT
            ),
            OptionRecord::AutoConfigUrl("http://pac.example/p.pac".to_string()),
        ]
    );
}

#[test]
fn reapplying_the_same_state_submits_the_same_list() {
    let m = Sysproxy {
        enable: true,
        host: "proxy.local".to_string(),
        port: 8080,
        bypass: "".to_string(),
    };
    let first = m.set_system_proxy();
    let second = m.set_system_proxy();
    assert_eq!(first, second);
}

#[test]
fn manual_write_then_read_reconstructs_host_and_port() {
    let m = Sysproxy {
        enable: true,
        host: "10.0.0.2".to_string(),
        port: 8888,
        bypass: "localhost".to_string(),
    };
    let list = m.set_system_proxy();
    let server = match &list[1] {
        OptionRecord::ProxyServer(s) => s.clone(),
        _ => panic!("second record must carry the server string"),
    };
    assert_eq!(server, "10.0.0.2:8888");
    let (host, port) = parse_server(&server);
    assert_eq!(host, m.host);
    assert_eq!(port, m.port);
    let back = Sysproxy::get_system_proxy(Some(1), Some(server), Some(m.bypass.clone()));
    assert_eq!(back, m);
}

#[test]
fn round_trip_holds_at_port_extremes() {
    for port in [0u16, 65535u16] {
        let m = Sysproxy {
            enable: true,
            host: "h".to_string(),
            port,
            bypass: "".to_string(),
        };
        let list = m.set_system_proxy();
        let server = match &list[1] {
            OptionRecord::ProxyServer(s) => s.clone(),
            _ => panic!("second record must carry the server string"),
        };
        let (host, got) = parse_server(&server);
        assert_eq!(host, "h");
        assert_eq!(got, port);
    }
}
