use wprs::error::Error;
use wprs::protocols::wctl::endpoint::{check_listen_addr, Endpoint as ControlEndpoint};
use wprs::protocols::wprs::endpoint::{parse_ssh_destination, Endpoint, SshDestination};
use wprs::protocols::wprs::endpoint_text::format_ssh_destination;
use wprs::protocols::wprs::ssh_forward::{
    needed_scratch, server_endpoint, setup_client_transport, wait_for_local_forward_ready,
    ForwardWait, Scratch, ScratchKind,
};
use wprs::utils::socket_addr::{Ipv4Addr, Ipv6Addr, SocketAddr};
use wprs::utils::system::SystemFamily;

const UNIX: SystemFamily = SystemFamily::Unix;
const OTHER: SystemFamily = SystemFamily::Other;

fn v4(octets: [u8; 4], port: u16) -> SocketAddr {
    SocketAddr::V4 { ip: Ipv4Addr { octets }, port }
}

#[test]
fn parse_tcp_uri_form() {
    let ep = Endpoint::parse("tcp://127.0.0.1:1234").unwrap();
    assert_eq!(
        ep,
        Endpoint::Tcp {
            addr: v4([127, 0, 0, 1], 1234),
        }
    );
}

#[test]
fn parse_unix_uri_form() {
    let ep = Endpoint::parse("unix:///tmp/wprs.sock").unwrap();
    assert_eq!(
        ep,
        Endpoint::Unix {
            path: "/tmp/wprs.sock".to_string(),
        }
    );
}

#[test]
fn parse_ssh_with_remote_query() {
    let ep =
        Endpoint::parse("ssh://me@example.com?remote=tcp://127.0.0.1:1&ssh-arg=-v").unwrap();
    assert_eq!(
        ep,
        Endpoint::Ssh {
            destination: SshDestination {
                user: Some("me".to_string()),
                host: "example.com".to_string(),
                port: None,
            },
            remote: Box::new(Endpoint::Tcp {
                addr: v4([127, 0, 0, 1], 1),
            }),
            local: None,
            ssh_args: vec!["-v".to_string()],
        }
    );
}

#[test]
fn parse_ssh_with_remote_path_and_port() {
    let ep = Endpoint::parse("ssh://me@example.com:2222/tcp://127.0.0.1:1").unwrap();
    assert_eq!(
        ep,
        Endpoint::Ssh {
            destination: SshDestination {
                user: Some("me".to_string()),
                host: "example.com".to_string(),
                port: Some(2222),
            },
            remote: Box::new(Endpoint::Tcp {
                addr: v4([127, 0, 0, 1], 1),
            }),
            local: None,
            ssh_args: vec![],
        }
    );
}

#[test]
fn setup_client_transport_passthrough_tcp() {
    let ep = Endpoint::Tcp {
        addr: v4([127, 0, 0, 1], 1234),
    };
    let (resolved, guard) = setup_client_transport(ep.clone(), UNIX, Scratch::Nothing).unwrap();
    assert_eq!(resolved, ep);
    assert!(guard.is_none());
}

#[test]
fn endpoint_display_tcp_uri() {
    let ep = Endpoint::Tcp {
        addr: v4([127, 0, 0, 1], 1234),
    };
    assert_eq!(ep.display_text(), "tcp://127.0.0.1:1234");
}

fn v6(segments: [u16; 8], port: u16, scope_id: u32) -> SocketAddr {
    SocketAddr::V6 { ip: Ipv6Addr { segments }, port, scope_id }
}

#[test]
fn addresses_are_read() {
    assert_eq!(SocketAddr::parse("1.2.3.4:80"), Some(v4([1, 2, 3, 4], 80)));
    assert_eq!(SocketAddr::parse("1.2.3.4:00080"), Some(v4([1, 2, 3, 4], 80)));
    assert_eq!(SocketAddr::parse("01.2.3.4:80"), None);
    assert_eq!(SocketAddr::parse("1.2.3.256:80"), None);
    assert_eq!(SocketAddr::parse("1.2.3:80"), None);
    assert_eq!(SocketAddr::parse("1.2.3.4:65536"), None);
    assert_eq!(SocketAddr::parse("1.2.3.4:+8"), None);
    assert_eq!(SocketAddr::parse("1.2.3.4"), None);
    assert_eq!(
        SocketAddr::parse("[::1]:22"),
        Some(v6([0, 0, 0, 0, 0, 0, 0, 1], 22, 0))
    );
    assert_eq!(
        SocketAddr::parse("[1:2:3:4:5:6:7::]:1"),
        Some(v6([1, 2, 3, 4, 5, 6, 7, 0], 1, 0))
    );
    assert_eq!(
        SocketAddr::parse("[fe80::AbC%7]:1"),
        Some(v6([0xfe80, 0, 0, 0, 0, 0, 0, 0xabc], 1, 7))
    );
    assert_eq!(
        SocketAddr::parse("[::1.2.3.4]:1"),
        Some(v6([0, 0, 0, 0, 0, 0, 0x102, 0x304], 1, 0))
    );
    assert_eq!(SocketAddr::parse("[1:2:3:4:5:6:7:8::]:1"), None);
    assert_eq!(SocketAddr::parse("[1::2::3]:1"), None);
    assert_eq!(SocketAddr::parse("[12345::]:1"), None);
    assert_eq!(SocketAddr::parse("[1.2.3.4::]:1"), None);
    assert_eq!(SocketAddr::parse("[::1]"), None);
}

#[test]
fn shortest_address_texts_are_read_back() {
    let texts = [
        "127.0.0.1:1",
        "0.0.0.0:0",
        "[::]:0",
        "[::1]:65535",
        "[1:0:0:2::3]:9",
        "[::ffff:1.2.3.4]:9",
        "[1:2:3:4:5:6:7:8]:9",
        "[1::8%3]:9",
    ];
    for text in texts {
        let addr = SocketAddr::parse(text).unwrap();
        assert_eq!(addr.display_text(), text);
        assert_eq!(SocketAddr::parse(&addr.display_text()), Some(addr));
    }
    assert_eq!(v6([0, 0, 1, 0, 0, 1, 0, 0], 9, 0).display_text(), "[::1:0:0:1:0:0]:9");
    assert_eq!(v6([1, 0, 1, 0, 1, 0, 1, 0], 9, 0).display_text(), "[1:0:1:0:1:0:1:0]:9");
}

#[test]
fn loopback_addresses() {
    assert!(v4([127, 9, 9, 9], 1).is_loopback());
    assert!(!v4([128, 0, 0, 1], 1).is_loopback());
    assert!(v6([0, 0, 0, 0, 0, 0, 0, 1], 1, 0).is_loopback());
    assert!(!v6([0, 0, 0, 0, 0, 0xffff, 0x7f00, 1], 1, 0).is_loopback());
}

#[test]
fn endpoint_forms() {
    assert_eq!(
        Endpoint::parse("tcp:1.2.3.4:5").unwrap(),
        Endpoint::Tcp { addr: v4([1, 2, 3, 4], 5) }
    );
    assert_eq!(
        Endpoint::parse("unix:rel/path").unwrap(),
        Endpoint::Unix { path: "rel/path".to_string() }
    );
    assert_eq!(
        Endpoint::parse("unix://rel").unwrap(),
        Endpoint::Unix { path: "rel".to_string() }
    );
    assert_eq!(
        Endpoint::parse("/a/b").unwrap(),
        Endpoint::Unix { path: "/a/b".to_string() }
    );
}

#[test]
fn endpoint_refusals() {
    let message = |text: &str| Endpoint::parse(text).unwrap_err().display_message();
    assert_eq!(
        message("tcp://nowhere"),
        "invalid tcp endpoint \"nowhere\": invalid socket address syntax"
    );
    assert_eq!(
        message("ssh://host"),
        "ssh endpoint requires remote=<endpoint> or ssh://HOST/<endpoint>"
    );
    assert_eq!(message("ssh://?remote=/x"), "ssh destination host is empty");
    assert_eq!(
        message("ssh://host?remote"),
        "invalid ssh endpoint query item \"remote\" (expected k=v)"
    );
    assert_eq!(
        message("ssh://host?port=1"),
        "unknown ssh endpoint query key \"port\" (expected: remote|local|ssh-arg)"
    );
    assert_eq!(message("ssh://[::1/x"), "invalid ssh host \"[::1\" (missing ']')");
    assert_eq!(
        message("ssh://host:99999/x"),
        "number too large to fit in target type"
    );
    assert_eq!(message("ssh://host:/x"), "cannot parse integer from empty string");
    assert_eq!(message("ssh://[h]:x/y"), "invalid digit found in string");
    assert!(matches!(
        Endpoint::parse("ssh://host:99999/x"),
        Err(Error::ParseInt(_))
    ));
    assert!(matches!(Endpoint::parse("tcp:x"), Err(Error::Message(_))));
}

#[test]
fn ssh_endpoint_round_trip() {
    let texts = [
        "ssh://me@example.com?remote=tcp://127.0.0.1:1&ssh-arg=-v",
        "ssh://host:22?remote=unix:///run/wprs&local=unix:///tmp/l&ssh-arg=-v&ssh-arg=-4",
        "ssh://a@[::1]:22?remote=ssh://b?remote=unix:///x",
    ];
    for text in texts {
        let endpoint = Endpoint::parse(text).unwrap();
        assert_eq!(endpoint.display_text(), text);
    }
}

#[test]
fn later_query_items_win() {
    let endpoint = Endpoint::parse("ssh://h/unix:///a?remote=unix:///b&&remote=unix:///c").unwrap();
    let Endpoint::Ssh { remote, .. } = endpoint else {
        panic!("not ssh");
    };
    assert_eq!(*remote, Endpoint::Unix { path: "/c".to_string() });
}

#[test]
fn destinations() {
    let d = parse_ssh_destination("user@[::1]:22").unwrap();
    assert_eq!(
        d,
        SshDestination { user: Some("user".to_string()), host: "::1".to_string(), port: Some(22) }
    );
    assert_eq!(format_ssh_destination(&d), "user@[::1]:22");
    let d = parse_ssh_destination("host:name").unwrap();
    assert_eq!(d.host, "host:name");
    assert_eq!(d.port, None);
    let d = parse_ssh_destination("[h]:+22").unwrap();
    assert_eq!(d.port, Some(22));
}

#[test]
fn non_loopback_endpoints_warn() {
    let far = Endpoint::Tcp { addr: v4([1, 2, 3, 4], 5) };
    assert_eq!(
        far.warn_if_non_loopback("x").unwrap(),
        "x is bound to 1.2.3.4:5 (non-loopback). This is not recommended without authentication/encryption. Prefer localhost (127.0.0.1/::1)."
    );
    let near = Endpoint::Tcp { addr: v4([127, 0, 0, 1], 5) };
    assert!(near.warn_if_non_loopback("x").is_none());
}

#[test]
fn ssh_forwarding_of_a_port() {
    let endpoint = Endpoint::parse("ssh://me@host:22?remote=tcp://10.0.0.1:7&ssh-arg=-v").unwrap();
    assert_eq!(needed_scratch(&endpoint, UNIX), ScratchKind::Port);
    let (local, forward) = setup_client_transport(endpoint, UNIX, Scratch::Port(4000)).unwrap();
    assert_eq!(local, Endpoint::Tcp { addr: v4([127, 0, 0, 1], 4000) });
    let forward = forward.unwrap();
    assert_eq!(
        forward.args,
        vec![
            "-N",
            "-o",
            "ExitOnForwardFailure=yes",
            "-p",
            "22",
            "-L",
            "127.0.0.1:4000:10.0.0.1:7",
            "-v",
            "me@host"
        ]
    );
    assert!(forward.local_unix_socket.is_none());
}

#[test]
fn ssh_forwarding_of_a_socket() {
    let endpoint = Endpoint::parse("ssh://host?remote=unix:///run/w").unwrap();
    assert_eq!(needed_scratch(&endpoint, UNIX), ScratchKind::Socket);
    let (local, forward) =
        setup_client_transport(endpoint, UNIX, Scratch::Socket("/tmp/s".to_string())).unwrap();
    assert_eq!(local, Endpoint::Unix { path: "/tmp/s".to_string() });
    let forward = forward.unwrap();
    assert_eq!(
        forward.args,
        vec![
            "-N",
            "-o",
            "ExitOnForwardFailure=yes",
            "-o",
            "StreamLocalBindUnlink=yes",
            "-L",
            "/tmp/s:/run/w",
            "host"
        ]
    );
    assert_eq!(forward.local_unix_socket, Some("/tmp/s".to_string()));
}

#[test]
fn ssh_forwarding_refusals() {
    let message = |text: &str| {
        let endpoint = Endpoint::parse(text).unwrap();
        assert_eq!(needed_scratch(&endpoint, UNIX), ScratchKind::Nothing);
        setup_client_transport(endpoint, UNIX, Scratch::Nothing).unwrap_err().display_message()
    };
    assert_eq!(
        message("ssh://h?remote=tcp://1.1.1.1:1&local=tcp://1.1.1.1:1"),
        "ssh local tcp endpoint must be loopback"
    );
    assert_eq!(
        message("ssh://h?remote=/x&local=tcp://127.0.0.1:1"),
        "ssh forwarding requires local and remote endpoints to have the same type (tcp or unix)"
    );
    assert_eq!(
        message("ssh://h?remote=/x&local=ssh://i/y"),
        "nested ssh endpoints are not supported"
    );
    assert_eq!(message("ssh://h?remote=ssh://i/y"), "nested ssh endpoints are not supported");
}

#[test]
fn forward_waits() {
    assert_eq!(wait_for_local_forward_ready(true, 9000, 5000), ForwardWait::Ready);
    assert_eq!(wait_for_local_forward_ready(false, 5000, 5000), ForwardWait::SleepMillis(50));
    assert_eq!(wait_for_local_forward_ready(false, 5001, 5000), ForwardWait::Failed);
}

#[test]
fn servers_do_not_listen_on_ssh() {
    let err = server_endpoint(Endpoint::parse("ssh://h/x").unwrap()).unwrap_err();
    assert!(err.display_message().contains("only supported for clients"));
    let ok = server_endpoint(Endpoint::parse("/x").unwrap()).unwrap();
    assert_eq!(ok, Endpoint::Unix { path: "/x".to_string() });
}

#[test]
fn control_endpoints() {
    let endpoint = ControlEndpoint::parse("tcp://127.0.0.1:9").unwrap();
    assert!(endpoint.ensure_localhost().is_ok());
    assert_eq!(endpoint.display_text(), "tcp://127.0.0.1:9");
    let endpoint = ControlEndpoint::parse("/run/x").unwrap();
    assert_eq!(endpoint.display_text(), "unix:///run/x");
    assert!(ControlEndpoint::parse(&endpoint.display_text()).unwrap().same(&endpoint));
    let far = ControlEndpoint::parse("tcp://1.2.3.4:9").unwrap();
    assert_eq!(
        far.ensure_localhost().unwrap_err().display_message(),
        "wctl tcp endpoint must use a loopback address: 1.2.3.4:9"
    );
    assert!(matches!(check_listen_addr(&v4([1, 2, 3, 4], 9)), Err(Error::InvalidArgument(_))));
    assert!(check_listen_addr(&v4([127, 0, 0, 1], 9)).is_ok());
    assert!(matches!(ControlEndpoint::parse("tcp://x"), Err(Error::AddrParse(_))));
    assert_eq!(
        ControlEndpoint::parse("x").unwrap_err().display_message(),
        "invalid wctl endpoint \"x\" (expected: tcp://127.0.0.1:PORT or unix:///path )"
    );
}

#[test]
fn systems_without_unix_sockets() {
    let unsupported = "unix endpoint is not supported on this platform";
    let message = |text: &str| Endpoint::parse_on(text, OTHER).unwrap_err().display_message();
    assert_eq!(message("unix:///a"), unsupported);
    assert_eq!(message("/a"), "invalid endpoint \"/a\" (expected: tcp:IP:PORT)");
    assert_eq!(message("ssh://h?remote=unix:///a"), unsupported);
    assert!(Endpoint::parse_on("tcp://127.0.0.1:1", OTHER).is_ok());
    let socket = Endpoint::parse_on("ssh://h?remote=unix:a", OTHER).unwrap();
    assert_eq!(needed_scratch(&socket, OTHER), ScratchKind::Nothing);
    assert_eq!(
        setup_client_transport(socket, OTHER, Scratch::Nothing).unwrap_err().display_message(),
        unsupported
    );
    let port = Endpoint::parse_on("ssh://h?remote=tcp:1.1.1.1:1&local=unix:a", OTHER).unwrap();
    assert_eq!(
        setup_client_transport(port, OTHER, Scratch::Nothing).unwrap_err().display_message(),
        unsupported
    );
    let mixed = "ssh://h?remote=unix:/a&local=tcp://127.0.0.1:1";
    let mixed = Endpoint::parse_on(mixed, OTHER).unwrap();
    assert_eq!(
        setup_client_transport(mixed, OTHER, Scratch::Nothing).unwrap_err().display_message(),
        "unix socket forwarding over ssh is not supported on this platform"
    );
    assert!(ControlEndpoint::parse_on("tcp://127.0.0.1:1", OTHER).is_ok());
    for text in ["/a", "unix:///a"] {
        assert_eq!(
            ControlEndpoint::parse_on(text, OTHER).unwrap_err().display_message(),
            format!("invalid wctl endpoint {text:?} (expected: tcp://127.0.0.1:PORT )")
        );
    }
}
