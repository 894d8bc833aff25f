use openssl::rsa::Rsa;
use snailcrypt::chunk_cipher::{assemble_plaintext, join_blocks, split_chunks};
use snailcrypt::envelope::seal;
use snailcrypt::{
    Analyzer, AnalyzerFactory, Client, ClientEncryptArg, ClientFactory, ClientVersion, ConfigFactory,
    DefaultAnalyzer, DefaultConfig, ErrorKind, KeyResponse, Lockdate, V1Client, V2Client,
    V3Client,
};

fn key_pair() -> (String, String) {
    let rsa = Rsa::generate(2048).unwrap();
    let public = String::from_utf8(rsa.public_key_to_pem().unwrap()).unwrap();
    let private = String::from_utf8(rsa.private_key_to_pem().unwrap()).unwrap();
    (public, private)
}

fn lockdate() -> Lockdate {
    Lockdate::parse("2022-11-19T17:00:00+0100").unwrap()
}

fn args(plaintext: &str, hint: &str, filename: &str) -> ClientEncryptArg {
    ClientEncryptArg {
        plaintext: String::from(plaintext),
        lockdate: lockdate(),
        hint: String::from(hint),
        filename: String::from(filename),
    }
}

fn v1() -> V1Client {
    V1Client::new(DefaultAnalyzer::new(), DefaultConfig::new())
}

fn v2() -> V2Client {
    V2Client::new(DefaultAnalyzer::new(), DefaultConfig::new())
}

fn v3() -> V3Client {
    V3Client::new(DefaultAnalyzer::new(), DefaultConfig::new())
}

#[test]
fn hello_world_round_trips_in_every_version() {
    let (public, private) = key_pair();
    let public = KeyResponse::Released(public);
    let private = KeyResponse::Released(private);

    let e1 = v1().encrypt(&args("hello world", "", ""), &public).unwrap();
    let r1 = v1().decrypt(&e1, &private).unwrap();
    assert_eq!(r1.plaintext, "hello world");
    assert_eq!(r1.hint, "");
    assert_eq!(r1.to_string(), "hello world");

    let e2 = v2().encrypt(&args("hello world", "This is a test message", ""), &public).unwrap();
    let r2 = v2().decrypt(&e2, &private).unwrap();
    assert_eq!(r2.plaintext, "hello world");
    assert_eq!(r2.hint, "This is a test message");

    let a3 = args("hello world", "This is a test message", "report.pdf");
    let e3 = v3().encrypt(&a3, &public).unwrap();
    let r3 = v3().decrypt(&e3, &private).unwrap();
    assert_eq!(r3.plaintext, "hello world");
    assert_eq!(r3.hint, "This is a test message");
    assert_eq!(r3.filename, "report.pdf");
}

#[test]
fn empty_plaintext_hint_and_filename_round_trip() {
    let (public, private) = key_pair();
    let public = KeyResponse::Released(public);
    let private = KeyResponse::Released(private);

    let e1 = v1().encrypt(&args("", "", ""), &public).unwrap();
    assert!(e1.ends_with(':'));
    assert_eq!(v1().decrypt(&e1, &private).unwrap().plaintext, "");

    let e2 = v2().encrypt(&args("", "", ""), &public).unwrap();
    let r2 = v2().decrypt(&e2, &private).unwrap();
    assert_eq!(r2.plaintext, "");
    assert_eq!(r2.hint, "");

    let e3 = v3().encrypt(&args("", "", ""), &public).unwrap();
    let r3 = v3().decrypt(&e3, &private).unwrap();
    assert_eq!(r3.plaintext, "");
    assert_eq!(r3.hint, "");
    assert_eq!(r3.filename, "");
}

#[test]
fn chunk_boundary_plaintexts_round_trip() {
    let (public, private) = key_pair();
    let public = KeyResponse::Released(public);
    let private = KeyResponse::Released(private);
    for (len, blocks) in [(1usize, 1usize), (125, 1), (126, 1), (127, 2), (252, 2), (253, 3)] {
        let plaintext: String = (0..len).map(|i| (b'a' + (i % 26) as u8) as char).collect();
        let env = v1().encrypt(&args(&plaintext, "", ""), &public).unwrap();
        let fields: Vec<&str> = env.split(':').collect();
        assert_eq!(fields.len(), 3);
        let cipher = base64::decode(fields[2]).unwrap();
        assert_eq!(cipher.len(), blocks * 256);
        assert_eq!(v1().decrypt(&env, &private).unwrap().plaintext, plaintext);
    }
}

#[test]
fn multibyte_text_round_trips() {
    let (public, private) = key_pair();
    let text: String = "grüße, 日本語 ✓ ".repeat(20);
    let a = args(&text, "Ü-hint", "résumé.pdf");
    let env = v3().encrypt(&a, &KeyResponse::Released(public)).unwrap();
    let r = v3().decrypt(&env, &KeyResponse::Released(private)).unwrap();
    assert_eq!(r.plaintext, text);
    assert_eq!(r.hint, "Ü-hint");
    assert_eq!(r.filename, "résumé.pdf");
}

#[test]
fn envelope_names_the_version_that_made_it() {
    let (public, _) = key_pair();
    let public = KeyResponse::Released(public);
    let analyzer = DefaultAnalyzer::new();
    let e1 = v1().encrypt(&args("x", "", ""), &public).unwrap();
    let e2 = v2().encrypt(&args("x", "h", ""), &public).unwrap();
    let e3 = v3().encrypt(&args("x", "h", "f"), &public).unwrap();
    assert_eq!(analyzer.get_version(&e1).unwrap(), ClientVersion::V1);
    assert_eq!(analyzer.get_version(&e2).unwrap(), ClientVersion::V2);
    assert_eq!(analyzer.get_version(&e3).unwrap(), ClientVersion::V3);
    assert_eq!(ClientVersion::V2.to_string(), "2");
}

#[test]
fn envelope_layout_of_each_version() {
    let (public, _) = key_pair();
    let public = KeyResponse::Released(public);
    let e1 = v1().encrypt(&args("x", "", ""), &public).unwrap();
    let f1: Vec<&str> = e1.split(':').collect();
    assert_eq!(f1.len(), 3);
    assert_eq!(f1[0], "1");
    assert_eq!(f1[1], "MjAyMi0xMS0xOVQxNzowMDowMCswMTAw");

    let e2 = v2().encrypt(&args("x", "This is a test message", ""), &public).unwrap();
    let f2: Vec<&str> = e2.split(':').collect();
    assert_eq!(f2.len(), 4);
    assert_eq!(f2[0], "2");
    assert_eq!(f2[1], "MjAyMi0xMS0xOVQxNzowMDowMCswMTAw");
    assert_eq!(f2[3], "VGhpcyBpcyBhIHRlc3QgbWVzc2FnZQ==");

    let e3 = v3().encrypt(&args("x", "", "report.pdf"), &public).unwrap();
    let f3: Vec<&str> = e3.split(':').collect();
    assert_eq!(f3.len(), 5);
    assert_eq!(f3[0], "3");
    assert_eq!(f3[3], "");
    assert_eq!(f3[4], "cmVwb3J0LnBkZg==");
}

#[test]
fn version_one_refuses_a_hint_before_any_key_is_asked_for() {
    let a = args("hello world", "a hint", "");
    let request = v1().encrypt_key_request(&a).unwrap_err();
    assert_eq!(request.kind, ErrorKind::Capability);
    assert_eq!(request.to_string(), "Client version 1 does not support a plaintext hint.");
    let e = v1().encrypt(&a, &KeyResponse::NotYetReleased).unwrap_err();
    assert_eq!(e.kind, ErrorKind::Capability);

    let f = args("hello world", "", "a.txt");
    assert_eq!(v1().encrypt_key_request(&f).unwrap_err().kind, ErrorKind::Capability);
    assert_eq!(v2().encrypt_key_request(&f).unwrap_err().kind, ErrorKind::Capability);
    assert_eq!(v3().encrypt_key_request(&f).unwrap().year, 2022);
    assert_eq!(v2().encrypt_key_request(&a).unwrap().offset_minutes, 60);
}

#[test]
fn encrypting_without_a_public_key() {
    let a = args("hello world", "", "");
    let e = v1().encrypt(&a, &KeyResponse::LookupFailed(String::from("no route"))).unwrap_err();
    assert_eq!(e.kind, ErrorKind::KeyLookupFailed);
    assert_eq!(e.message, "no route");
    let e = v2().encrypt(&a, &KeyResponse::NotYetReleased).unwrap_err();
    assert_eq!(e.kind, ErrorKind::KeyUnavailable);
    let e = v1().encrypt(&a, &KeyResponse::Released(String::from("not a key"))).unwrap_err();
    assert_eq!(e.kind, ErrorKind::Crypto);
}

#[test]
fn selector_picks_the_lowest_version_that_fits() {
    let (public, private) = key_pair();
    let public = KeyResponse::Released(public);
    let private = KeyResponse::Released(private);
    let factory = ClientFactory::new(AnalyzerFactory::new().create(), ConfigFactory::new().create());
    let client = factory.create();
    assert!(client.encrypt(&args("p", "", ""), &public).unwrap().starts_with("1:"));
    assert!(client.encrypt(&args("p", "h", ""), &public).unwrap().starts_with("2:"));
    let e3 = client.encrypt(&args("p", "h", "f.txt"), &public).unwrap();
    assert!(e3.starts_with("3:"));
    let r3 = client.decrypt(&e3, &private).unwrap();
    assert_eq!(r3.filename, "f.txt");
    assert_eq!(client.lockdate_from_snailcrypt_cipher(&e3).unwrap(), lockdate());
    assert_eq!(client.get_datetime_format(), "%Y-%m-%dT%H:%M:%S%z");
}

#[test]
fn wrong_field_count_is_a_format_error() {
    let key = KeyResponse::NotYetReleased;
    let e = v1().decrypt("1:a:b:c", &key).unwrap_err();
    assert_eq!(e.kind, ErrorKind::Format);
    assert_eq!(
        e.error_message,
        "Cipher is invalid. It must consist of 3 components separted by a colon."
    );
    assert_eq!(v1().decrypt("1:a", &key).unwrap_err().kind, ErrorKind::Format);
    assert_eq!(v1().decrypt("1:YQ==:YQ==:", &key).unwrap_err().kind, ErrorKind::Format);
    let e = v2().decrypt("2:a:b", &key).unwrap_err();
    assert_eq!(e.kind, ErrorKind::Format);
    assert_eq!(
        e.error_message,
        "Cipher is invalid. It must consist of 4 components separted by a colon."
    );
    assert_eq!(v2().decrypt("2:a:b:c:d", &key).unwrap_err().kind, ErrorKind::Format);
    let e = v3().decrypt("3:a:b:c:d:e:f", &key).unwrap_err();
    assert_eq!(e.kind, ErrorKind::Format);
    assert_eq!(
        e.error_message,
        "Cipher is invalid. It must consist of 5 components separted by a colon."
    );
    assert_eq!(e.hint, "");
    assert_eq!(e.filename, "");
    assert_eq!(v1().decrypt("2:a:b", &key).unwrap_err().kind, ErrorKind::Format);
}

#[test]
fn unknown_version_names_the_tag() {
    let analyzer = DefaultAnalyzer::new();
    assert_eq!(analyzer.get_version("").unwrap_err(), "Unknown client version: ");
    assert_eq!(analyzer.get_version("9:abc:def").unwrap_err(), "Unknown client version: 9");
    assert_eq!(analyzer.str_to_version("3").unwrap(), ClientVersion::V3);
    assert_eq!(analyzer.str_to_version("33").unwrap_err(), "Unknown client version: 33");
    let factory = ClientFactory::new(DefaultAnalyzer::new(), DefaultConfig::new());
    let e = factory.create().decrypt("9:abc", &KeyResponse::NotYetReleased).unwrap_err();
    assert_eq!(e.kind, ErrorKind::Format);
    assert_eq!(e.error_message, "Unknown client version: 9");
}

#[test]
fn withheld_key_keeps_hint_and_filename() {
    let (public, _) = key_pair();
    let public = KeyResponse::Released(public);
    let e2 = v2().encrypt(&args("secret", "see you in 2030", ""), &public).unwrap();
    let f = v2().decrypt(&e2, &KeyResponse::NotYetReleased).unwrap_err();
    assert_eq!(f.kind, ErrorKind::KeyUnavailable);
    assert_eq!(f.hint, "see you in 2030");
    assert_eq!(f.to_string(), "Error: private key has not been yet released");

    let e3 = v3().encrypt(&args("secret", "h", "a.bin"), &public).unwrap();
    let f = v3().decrypt(&e3, &KeyResponse::LookupFailed(String::from("503"))).unwrap_err();
    assert_eq!(f.kind, ErrorKind::KeyLookupFailed);
    assert_eq!(f.error_message, "503");
    assert_eq!(f.hint, "h");
    assert_eq!(f.filename, "a.bin");
}

#[test]
fn partial_fields_survive_later_format_errors() {
    let key = KeyResponse::NotYetReleased;
    // The hint is no base64: nothing is recovered.
    let e = v2().decrypt("2:MjAyMi0xMS0xOVQxNzowMDowMCswMTAw:YQ==:!!!", &key).unwrap_err();
    assert_eq!(e.kind, ErrorKind::Format);
    assert_eq!(e.hint, "");
    // The lockdate is no date: the hint is kept.
    let e = v2().decrypt("2:bm90IGEgZGF0ZQ==:YQ==:aGludA==", &key).unwrap_err();
    assert_eq!(e.kind, ErrorKind::Format);
    assert_eq!(e.hint, "hint");
    // The cipher is no base64: hint and filename are kept.
    let e = v3()
        .decrypt("3:MjAyMi0xMS0xOVQxNzowMDowMCswMTAw:*:aGludA==:Zi50eHQ=", &key)
        .unwrap_err();
    assert_eq!(e.kind, ErrorKind::Format);
    assert_eq!(e.hint, "hint");
    assert_eq!(e.filename, "f.txt");
    // The filename is no base64: the hint decoded before it is kept.
    let e = v3()
        .decrypt("3:MjAyMi0xMS0xOVQxNzowMDowMCswMTAw:YQ==:aGludA==:!!!", &key)
        .unwrap_err();
    assert_eq!(e.kind, ErrorKind::Format);
    assert_eq!(e.error_message, "Cipher is invalid. Its filename is not base64 of UTF-8 text.");
    assert_eq!(e.hint, "hint");
    assert_eq!(e.filename, "");
    // The hint is not UTF-8.
    let e = v2().decrypt("2:MjAyMi0xMS0xOVQxNzowMDowMCswMTAw:YQ==:/w==", &key).unwrap_err();
    assert_eq!(e.kind, ErrorKind::Format);
}

#[test]
fn wrong_private_key_is_a_crypto_error() {
    let (public, _) = key_pair();
    let (_, other_private) = key_pair();
    let env = v2().encrypt(&args("secret", "h", ""), &KeyResponse::Released(public)).unwrap();
    let e = v2().decrypt(&env, &KeyResponse::Released(other_private)).unwrap_err();
    assert_eq!(e.kind, ErrorKind::Crypto);
    assert_eq!(e.hint, "h");
}

#[test]
fn nul_byte_ends_the_recovered_plaintext() {
    let (public, private) = key_pair();
    let env = v1().encrypt(&args("ab\0cd", "", ""), &KeyResponse::Released(public)).unwrap();
    let r = v1().decrypt(&env, &KeyResponse::Released(private)).unwrap();
    assert_eq!(r.plaintext, "ab");
}

#[test]
fn assembling_decrypted_chunks() {
    let full = vec![b'a'; 126];
    let msgs = vec![full.clone(), vec![b'b', b'c']];
    let mut expected = full.clone();
    expected.extend_from_slice(b"bc");
    assert_eq!(assemble_plaintext(&msgs, 128).unwrap(), expected);
    // A short chunk leaves zeros behind it, where the plaintext ends.
    let msgs = vec![vec![b'x', b'y'], vec![b'z']];
    assert_eq!(assemble_plaintext(&msgs, 128).unwrap(), b"xy".to_vec());
    // A chunk longer than its block does not fit.
    let msgs = vec![vec![b'q'; 129]];
    assert!(assemble_plaintext(&msgs, 128).is_none());
    assert_eq!(assemble_plaintext(&Vec::new(), 256).unwrap(), Vec::<u8>::new());
}

#[test]
fn lockdates_read_and_written() {
    let d = Lockdate::parse("2022-11-19T17:00:00+0100").unwrap();
    assert_eq!(d, Lockdate::new(2022, 11, 19, 17, 0, 0, 60).unwrap());
    assert_eq!(d.to_text(), "2022-11-19T17:00:00+0100");
    let w = Lockdate::new(2024, 2, 29, 5, 7, 9, -330).unwrap();
    assert_eq!(w.to_text(), "2024-02-29T05:07:09-0530");
    assert_eq!(Lockdate::parse(&w.to_text()).unwrap(), w);
    assert!(Lockdate::new(2023, 2, 29, 0, 0, 0, 0).is_none());
    assert!(Lockdate::new(2022, 13, 1, 0, 0, 0, 0).is_none());
    assert!(Lockdate::new(2022, 1, 1, 24, 0, 0, 0).is_none());
    assert!(Lockdate::new(2022, 1, 1, 0, 0, 0, 1440).is_none());
    assert!(Lockdate::parse("2022-02-30T17:00:00+0100").is_none());
    assert!(Lockdate::parse("yesterday").is_none());
}

#[test]
fn lockdate_of_an_envelope() {
    let (public, _) = key_pair();
    let env = v1().encrypt(&args("x", "", ""), &KeyResponse::Released(public)).unwrap();
    assert_eq!(v1().lockdate_from_snailcrypt_cipher(&env).unwrap(), lockdate());
    assert!(v1().lockdate_from_snailcrypt_cipher("1:!!:YQ==").is_err());
    assert!(v2().lockdate_from_snailcrypt_cipher(&env).is_err());
}

#[test]
fn envelope_text_from_fields() {
    let d = lockdate();
    assert_eq!(
        seal(ClientVersion::V1, &d, b"cip", "h", "f"),
        "1:MjAyMi0xMS0xOVQxNzowMDowMCswMTAw:Y2lw"
    );
    assert_eq!(
        seal(ClientVersion::V3, &d, b"", "h", "f"),
        "3:MjAyMi0xMS0xOVQxNzowMDowMCswMTAw::aA==:Zg=="
    );
    assert_eq!(v1().get_client_version(), ClientVersion::V1);
    assert_eq!(v3().get_client_version(), ClientVersion::V3);
}

#[test]
fn chunks_and_blocks() {
    let p: Vec<u8> = (0..253u32).map(|i| (i % 200) as u8 + 1).collect();
    let chunks = split_chunks(&p);
    assert_eq!(chunks.len(), 3);
    assert_eq!(chunks[0], p[0..126].to_vec());
    assert_eq!(chunks[1], p[126..252].to_vec());
    assert_eq!(chunks[2], p[252..].to_vec());
    assert!(split_chunks(&[]).is_empty());
    let blocks = vec![vec![1u8, 2], vec![3, 4]];
    assert_eq!(join_blocks(&blocks, 2).unwrap(), vec![1, 2, 3, 4]);
    assert!(join_blocks(&blocks, 3).is_none());
    assert!(join_blocks(&vec![vec![1u8], vec![2, 3]], 2).is_none());
}

#[test]
fn cipher_that_is_not_whole_blocks_fails() {
    let (public, private) = key_pair();
    let env = v1().encrypt(&args("hello", "", ""), &KeyResponse::Released(public)).unwrap();
    let fields: Vec<&str> = env.split(':').collect();
    let mut cipher = base64::decode(fields[2]).unwrap();
    cipher.pop();
    let cut = format!("1:{}:{}", fields[1], base64::encode(&cipher));
    let e = v1().decrypt(&cut, &KeyResponse::Released(private.clone())).unwrap_err();
    assert_eq!(e.kind, ErrorKind::Crypto);
    assert!(!e.error_message.is_empty());
    cipher.push(0);
    let corrupt = format!("1:{}:{}", fields[1], base64::encode(&cipher));
    let e = v1().decrypt(&corrupt, &KeyResponse::Released(private)).unwrap_err();
    assert_eq!(e.kind, ErrorKind::Crypto);
}

#[test]
fn key_requests_for_decryption() {
    let (public, _) = key_pair();
    let env = v2().encrypt(&args("x", "h", ""), &KeyResponse::Released(public)).unwrap();
    assert_eq!(v2().decrypt_key_request(&env).unwrap(), lockdate());
    let e = v2().decrypt_key_request("2:bm90IGEgZGF0ZQ==:YQ==:aGludA==").unwrap_err();
    assert_eq!(e.kind, ErrorKind::Format);
    assert_eq!(e.hint, "hint");
    let factory = ClientFactory::new(DefaultAnalyzer::new(), DefaultConfig::new());
    let e = factory.create().decrypt_key_request("7:a").unwrap_err();
    assert_eq!(e.error_message, "Unknown client version: 7");
}

#[test]
fn empty_plaintext_encrypts_with_any_readable_key() {
    let (public, private) = key_pair();
    let env = v1().encrypt(&args("", "", ""), &KeyResponse::Released(public)).unwrap();
    let r = v1().decrypt(&env, &KeyResponse::Released(private)).unwrap();
    assert_eq!(r.plaintext, "");
}
