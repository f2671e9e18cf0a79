use et::ssh_setup::{
    credentials_line, new_credentials, new_passkey, parse_credentials, parse_tunnel_spec,
    SshRun, SshSetupHandler,
};

#[test]
fn test_parse_tunnel_spec_simple() {
    let result = parse_tunnel_spec("8080:9090");
    assert!(result.is_some());
    let (lh, lp, rh, rp) = result.unwrap();
    assert_eq!(lh, "127.0.0.1");
    assert_eq!(lp, 8080);
    assert_eq!(rh, "127.0.0.1");
    assert_eq!(rp, 9090);
}

#[test]
fn test_parse_tunnel_spec_with_remote_host() {
    let result = parse_tunnel_spec("8080:example.com:80");
    assert!(result.is_some());
    let (lh, lp, rh, rp) = result.unwrap();
    assert_eq!(lh, "127.0.0.1");
    assert_eq!(lp, 8080);
    assert_eq!(rh, "example.com");
    assert_eq!(rp, 80);
}

#[test]
fn test_parse_tunnel_spec_full() {
    let result = parse_tunnel_spec("0.0.0.0:8080:example.com:80");
    assert!(result.is_some());
    let (lh, lp, rh, rp) = result.unwrap();
    assert_eq!(lh, "0.0.0.0");
    assert_eq!(lp, 8080);
    assert_eq!(rh, "example.com");
    assert_eq!(rp, 80);
}

#[test]
fn test_ssh_setup_handler() {
    let handler = SshSetupHandler::new("example.com")
        .user("user")
        .port(22)
        .jumphost("jump.example.com");

    assert_eq!(handler.host, "example.com");
    assert_eq!(handler.user, Some("user".to_string()));
    assert_eq!(handler.port, 22);
    assert_eq!(handler.jumphost, Some("jump.example.com".to_string()));
}

#[test]
fn test_parse_simple_tunnel() {
    let result = parse_tunnel_spec("8080:9090");
    assert!(result.is_some());
    let (lh, lp, rh, rp) = result.unwrap();
    assert_eq!(lh, "127.0.0.1");
    assert_eq!(lp, 8080);
    assert_eq!(rh, "127.0.0.1");
    assert_eq!(rp, 9090);
}

#[test]
fn test_parse_tunnel_with_host() {
    let result = parse_tunnel_spec("8080:example.com:80");
    assert!(result.is_some());
    let (lh, lp, rh, rp) = result.unwrap();
    assert_eq!(lh, "127.0.0.1");
    assert_eq!(lp, 8080);
    assert_eq!(rh, "example.com");
    assert_eq!(rp, 80);
}

#[test]
fn test_parse_full_tunnel() {
    let result = parse_tunnel_spec("0.0.0.0:8080:example.com:80");
    assert!(result.is_some());
    let (lh, lp, rh, rp) = result.unwrap();
    assert_eq!(lh, "0.0.0.0");
    assert_eq!(lp, 8080);
    assert_eq!(rh, "example.com");
    assert_eq!(rp, 80);
}

#[test]
fn test_parse_invalid_tunnel() {
    assert!(parse_tunnel_spec("invalid").is_none());
    assert!(parse_tunnel_spec("not:a:valid:tunnel:spec:too:many").is_none());
}

#[test]
fn a_local_host_may_come_first() {
    let (lh, lp, rh, rp) = parse_tunnel_spec("0.0.0.0:8080:90").unwrap();
    assert_eq!((lh.as_str(), lp, rh.as_str(), rp), ("0.0.0.0", 8080, "127.0.0.1", 90));
}

#[test]
fn ports_have_sixteen_bits() {
    assert!(parse_tunnel_spec("65536:1").is_none());
    assert!(parse_tunnel_spec("1:").is_none());
    assert!(parse_tunnel_spec("1:+2").is_some());
    assert!(parse_tunnel_spec("1:-2").is_none());
    assert_eq!(parse_tunnel_spec("0065535:65535").unwrap().1, 65535);
}

#[test]
fn the_command_lists_every_option() {
    let handler = SshSetupHandler::new("host")
        .user("me")
        .port(2200)
        .jumphost("jump")
        .option("A=b")
        .option("C=d")
        .identity_file("key");
    let command = handler.build_ssh_command(2022, "secret");
    assert_eq!(command.program, "ssh");
    assert_eq!(
        command.arguments,
        vec![
            "-l", "me", "-p", "2200", "-J", "jump", "-i", "key", "-o", "A=b", "-o", "C=d", "host",
            "etterminal -c secret -p 2022",
        ],
    );
}

#[test]
fn the_smallest_command_names_port_and_host() {
    let command = SshSetupHandler::new("host").build_ssh_command(1, "k");
    assert_eq!(command.arguments, vec!["-p", "22", "host", "etterminal -c k -p 1"]);
}

#[test]
fn credentials_survive_their_line() {
    let line = credentials_line("client", "pass/key:more");
    assert_eq!(line, "IDPASSKEY:client/pass/key:more");
    let credentials = parse_credentials(&line).unwrap();
    assert_eq!(credentials.id, "client");
    assert_eq!(credentials.key, "pass/key:more");
}

#[test]
fn other_lines_hold_no_credentials() {
    assert!(parse_credentials("Welcome").is_none());
    assert!(parse_credentials("IDPASSKEY:nothing").is_none());
    assert!(parse_credentials(" IDPASSKEY:a/b").is_none());
}

#[test]
fn new_credentials_are_random_and_survive_their_line() {
    let credentials = new_credentials();
    assert_eq!(credentials.id.len(), 36);
    assert_eq!(credentials.id.split('-').count(), 5);
    assert_eq!(credentials.key.len(), 44);
    assert_ne!(credentials.id, new_credentials().id);
    assert_ne!(credentials.key, new_passkey());
    let read = parse_credentials(&credentials_line(&credentials.id, &credentials.key)).unwrap();
    assert_eq!((read.id, read.key), (credentials.id, credentials.key));
}

#[test]
fn the_output_of_the_helper_is_read_up_to_its_credentials() {
    assert!(matches!(SshSetupHandler::run(Some("Welcome")), SshRun::ReadLine));
    match SshSetupHandler::run(Some("IDPASSKEY:a/b")) {
        SshRun::Found(credentials) => assert_eq!((credentials.id, credentials.key), ("a".to_string(), "b".to_string())),
        other => panic!("unexpected {:?}", other),
    }
    match SshSetupHandler::run(None) {
        SshRun::Failed(text) => assert_eq!(text, "Failed to parse connection info from SSH"),
        other => panic!("unexpected {:?}", other),
    }
}
