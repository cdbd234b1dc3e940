use starlane::frame::{Frame, FrameError, FrameReader};
use starlane::handshake::{
    Handshake, HandshakeAction, HandshakeError, HandshakeEvent, HandshakeState,
    HANDSHAKE_TIMEOUT_SECS,
};
use starlane::kind::Version;
use starlane::lane::{CertGenerator, HyperlaneTcpClient, HyperlaneTcpServerApi};
use starlane::wave::Knock;

fn version(text: &str) -> Version {
    Frame::from_string(text.to_string()).to_version().expect("a version")
}

fn sent(actions: &[HandshakeAction]) -> Vec<String> {
    actions
        .iter()
        .filter_map(|a| match a {
            HandshakeAction::Send(frame) => {
                Some(String::from_utf8(frame.data.clone()).expect("text"))
            }
            _ => None,
        })
        .collect()
}

#[test]
fn frame_on_the_wire_is_length_then_bytes() {
    let frame = Frame::new(vec![7, 8, 9]);
    assert_eq!(frame.encode().unwrap(), vec![0, 0, 0, 3, 7, 8, 9]);
    assert_eq!(Frame::new(vec![]).encode().unwrap(), vec![0, 0, 0, 0]);
    let long = Frame::new(vec![1; 0x1_02_03]);
    assert_eq!(&long.encode().unwrap()[..4], &[0, 1, 2, 3]);
}

#[test]
fn frame_round_trip() {
    for data in [vec![], vec![0u8], vec![255u8; 300], (0..=255u8).collect::<Vec<u8>>()] {
        let wire = Frame::new(data.clone()).encode().unwrap();
        let (frame, used) = Frame::decode(&wire).unwrap();
        assert_eq!(frame.data, data);
        assert_eq!(used, wire.len());
    }
}

#[test]
fn large_frame_round_trip() {
    let data: Vec<u8> = (0..4 * 1024 * 1024).map(|i| (i % 251) as u8).collect();
    let wire = Frame::new(data.clone()).encode().unwrap();
    assert_eq!(wire.len(), data.len() + 4);
    let (frame, used) = Frame::decode(&wire).unwrap();
    assert_eq!(used, wire.len());
    assert!(frame.data == data);
}

#[test]
fn partial_frames_are_never_delivered() {
    let wire = Frame::new(vec![1, 2, 3, 4, 5]).encode().unwrap();
    for cut in 0..wire.len() {
        assert!(Frame::decode(&wire[..cut].to_vec()).is_none());
    }
    let mut reader = FrameReader::new();
    reader.feed(&wire[..6].to_vec());
    assert!(reader.next_frame().is_none());
    let mut rest = wire[6..].to_vec();
    rest.extend(Frame::new(vec![9]).encode().unwrap());
    rest.push(0);
    reader.feed(&rest);
    assert_eq!(reader.next_frame().unwrap().data, vec![1, 2, 3, 4, 5]);
    assert_eq!(reader.next_frame().unwrap().data, vec![9]);
    assert!(reader.next_frame().is_none());
}

#[test]
fn frame_text_round_trip() {
    let frame = Frame::from_string("Ok".to_string());
    assert_eq!(frame.data, b"Ok".to_vec());
    assert_eq!(frame.to_string(), Ok("Ok".to_string()));
    let text = "héllo ✓".to_string();
    assert_eq!(Frame::from_string(text.clone()).to_string(), Ok(text));
    assert_eq!(Frame::new(vec![0xff, 0xfe]).to_string(), Err(FrameError::NotText));
}

#[test]
fn frame_version_round_trip() {
    let v = version("1.2.3");
    assert_eq!((v.major, v.minor, v.patch), (1, 2, 3));
    assert_eq!(v.pre, "");
    assert_eq!(Frame::from_version(&v).data, b"1.2.3".to_vec());
    let alpha = version("0.1.0-alpha+build.5");
    assert_eq!(alpha.pre, "alpha");
    assert_eq!(alpha.build, "build.5");
    assert_eq!(alpha.to_string(), "0.1.0-alpha+build.5");
    assert_eq!(Frame::from_version(&alpha).to_version().unwrap(), alpha);
    assert_eq!(Version::new(10, 0, 7).to_string(), "10.0.7");
    assert_eq!(
        Frame::from_string("1.2".to_string()).to_version().unwrap_err(),
        FrameError::NotAVersion
    );
    assert_eq!(Frame::new(vec![0xff]).to_version().unwrap_err(), FrameError::NotText);
}

#[test]
fn handshake_of_equal_versions_mounts_both_ends() {
    let mut a = Handshake::new(version("1.2.3"));
    let mut b = Handshake::new(version("1.2.3"));
    let hello_a = a.begin();
    let hello_b = b.begin();
    assert_eq!(sent(&hello_a), vec!["1.2.3"]);
    assert_eq!(a.state, HandshakeState::AwaitVersion);
    assert!(a.begin().is_empty());
    let verdict_a = a.on_event(HandshakeEvent::Frame(Frame::from_string(sent(&hello_b)[0].clone())));
    let verdict_b = b.on_event(HandshakeEvent::Frame(Frame::from_string(sent(&hello_a)[0].clone())));
    assert_eq!(sent(&verdict_a), vec!["Ok"]);
    assert_eq!(sent(&verdict_b), vec!["Ok"]);
    assert_eq!(a.state, HandshakeState::AwaitStatus);
    let done_a = a.on_event(HandshakeEvent::Frame(Frame::from_string("Ok".to_string())));
    let done_b = b.on_event(HandshakeEvent::Frame(Frame::from_string("Ok".to_string())));
    assert_eq!(done_a, vec![HandshakeAction::Mount]);
    assert_eq!(done_b, vec![HandshakeAction::Mount]);
    assert_eq!(a.state, HandshakeState::Ready);
    assert_eq!(b.state, HandshakeState::Ready);
    assert!(a.is_over());
    assert!(a.on_event(HandshakeEvent::Timeout).is_empty());
    assert_eq!(a.state, HandshakeState::Ready);
}

#[test]
fn version_mismatch() {
    let mut server = Handshake::new(version("1.2.3"));
    let mut client = Handshake::new(version("1.2.4"));
    server.begin();
    client.begin();
    let from_server = server.on_event(HandshakeEvent::Frame(Frame::from_string("1.2.4".to_string())));
    assert_eq!(
        sent(&from_server),
        vec!["Err(\"expected version 1.2.3. encountered version 1.2.4\")"]
    );
    assert_eq!(from_server[0], HandshakeAction::Report(HandshakeError::VersionMismatch));
    assert_eq!(from_server[2], HandshakeAction::Close);
    assert_eq!(server.state, HandshakeState::Failed(HandshakeError::VersionMismatch));
    let from_client = client.on_event(HandshakeEvent::Frame(Frame::from_string("1.2.3".to_string())));
    assert_eq!(
        sent(&from_client),
        vec!["Err(\"expected version 1.2.4. encountered version 1.2.3\")"]
    );
    assert_eq!(client.state, HandshakeState::Failed(HandshakeError::VersionMismatch));
    assert!(!from_server.contains(&HandshakeAction::Mount));
    assert!(!from_client.contains(&HandshakeAction::Mount));
    assert!(client
        .on_event(HandshakeEvent::Frame(Frame::from_string(sent(&from_server)[0].clone())))
        .is_empty());
}

#[test]
fn handshake_fails_on_timeout_and_rejection() {
    assert_eq!(HANDSHAKE_TIMEOUT_SECS, 30);
    let mut a = Handshake::new(version("1.0.0"));
    a.begin();
    assert_eq!(
        a.on_event(HandshakeEvent::Timeout),
        vec![HandshakeAction::Report(HandshakeError::Timeout), HandshakeAction::Close]
    );
    assert_eq!(a.state, HandshakeState::Failed(HandshakeError::Timeout));
    let mut b = Handshake::new(version("1.0.0"));
    b.begin();
    b.on_event(HandshakeEvent::Frame(Frame::from_string("1.0.0".to_string())));
    assert_eq!(
        b.on_event(HandshakeEvent::Frame(Frame::from_string("ok".to_string()))),
        vec![HandshakeAction::Report(HandshakeError::Rejected), HandshakeAction::Close]
    );
    let mut c = Handshake::new(version("1.0.0"));
    c.begin();
    assert_eq!(
        c.on_event(HandshakeEvent::Frame(Frame::from_string("one.two".to_string()))),
        vec![HandshakeAction::Report(HandshakeError::BadFrame), HandshakeAction::Close]
    );
    let mut d = Handshake::new(version("1.0.0"));
    d.begin();
    d.on_event(HandshakeEvent::Frame(Frame::from_string("1.0.0".to_string())));
    d.on_event(HandshakeEvent::Closed);
    assert_eq!(d.state, HandshakeState::Failed(HandshakeError::Closed));
}

#[test]
fn client_knows_its_server() {
    let knock = Knock { credentials: "secret".to_string(), remote: None };
    let client =
        HyperlaneTcpClient::new("localhost:4344".to_string(), ".".to_string(), knock, false);
    assert_eq!(client.server_name(), "localhost");
    assert_eq!(client.ca_file(), "./cert.der");
    let bare = HyperlaneTcpClient::new(
        "example.org".to_string(),
        "/etc/certs".to_string(),
        Knock { credentials: String::new(), remote: None },
        true,
    );
    assert_eq!(bare.server_name(), "example.org");
    assert_eq!(bare.ca_file(), "/etc/certs/cert.der");
}

#[test]
fn certificate_and_key_are_kept() {
    let generator = CertGenerator::from_der(vec![1, 2, 3], vec![4, 5]);
    assert_eq!(generator.certs(), vec![1, 2, 3]);
    assert_eq!(generator.private_key(), vec![4, 5]);
    assert_eq!(CertGenerator::cert_path("."), "./cert.der");
    assert_eq!(CertGenerator::key_path("."), "./key.der");
    let _api = HyperlaneTcpServerApi::new();
    assert_eq!(HyperlaneTcpServerApi::listen_address(4344), "127.0.0.1:4344");
}

#[test]
fn generated_certificates_differ() {
    let one = CertGenerator::gen(vec!["localhost".to_string()]).unwrap();
    let two = CertGenerator::gen(vec!["localhost".to_string()]).unwrap();
    assert!(!one.certs().is_empty());
    assert!(!one.private_key().is_empty());
    assert_ne!(one.private_key(), two.private_key());
    assert_eq!(one.certs()[0], 0x30);
    let server = rustls::ServerConfig::builder()
        .with_safe_defaults()
        .with_no_client_auth()
        .with_single_cert(
            vec![rustls::Certificate(one.certs())],
            rustls::PrivateKey(one.private_key()),
        );
    assert!(server.is_ok());
}

#[test]
fn generator_holds_what_was_generated() {
    let made = CertGenerator::generated(Ok((vec![0x30, 1, 2], vec![9, 8]))).unwrap();
    assert_eq!(made.certs(), vec![0x30, 1, 2]);
    assert_eq!(made.private_key(), vec![9, 8]);
    let failed = CertGenerator::generated(Err(rcgen::RcgenError::KeyGenerationUnavailable));
    assert_eq!(failed.unwrap_err(), starlane::lane::CertError::Generation);
}
