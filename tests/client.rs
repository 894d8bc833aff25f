use openssl::rsa::Rsa;
use snailcrypt::{
    AnalyzerFactory, Client, ClientEncryptArg, ClientFactory, ConfigFactory, KeyResponse, Lockdate,
};

/// A fresh key pair, PEM-encoded: (public, private).
fn key_pair() -> (String, String) {
    let rsa = Rsa::generate(2048).unwrap();
    let public = String::from_utf8(rsa.public_key_to_pem().unwrap()).unwrap();
    let private = String::from_utf8(rsa.private_key_to_pem().unwrap()).unwrap();
    (public, private)
}

fn round_trip(plaintext: &str, hint: &str, fresh_decrypting_client: bool) -> (String, String) {
    let (public, private) = key_pair();

    let analyzer_factory = AnalyzerFactory::new();
    let analyzer = analyzer_factory.create();

    let config_factory = ConfigFactory::new();
    let config = config_factory.create();

    let client_factory = ClientFactory::new(analyzer, config);
    let client = client_factory.create();

    let lockdate = Lockdate::parse("2022-11-19T17:00:00+0100").unwrap_or_else(|| {
        panic!("Error: the lockdate cannot be read");
    });

    let args = ClientEncryptArg {
        plaintext: String::from(plaintext),
        lockdate,
        hint: String::from(hint),
        filename: String::from(""),
    };
    let cipher: String = client
        .encrypt(&args, &KeyResponse::Released(public))
        .unwrap_or_else(|error| {
            panic!("Error: {:?}", error);
        });

    let decrypting = if fresh_decrypting_client { client_factory.create() } else { client };
    let result_success = decrypting
        .decrypt(cipher.as_str(), &KeyResponse::Released(private))
        .unwrap_or_else(|error| {
            panic!("Error: {:?}", error.error_message);
        });
    (result_success.plaintext, result_success.hint)
}

#[test]
fn encrypt_v1_small_str() {
    let plaintext_orig: String = String::from("hello world");
    let (plaintext, hint) = round_trip(plaintext_orig.as_str(), "", false);
    assert_eq!(plaintext_orig.as_str(), plaintext.as_str());
    assert_eq!("", hint.as_str());
}

#[test]
fn encrypt_v1_large_str() {
    let plaintext_orig: String = String::from("Nullam eu ante vel est convallis dignissim.  Fusce suscipit, wisi nec facilisis facilisis, est dui fermentum leo, \nquis tempor ligula erat quis odio.  Nunc porta vulputate tellus.  \nNunc rutrum turpis sed pede.  Sed bibendum.  Aliquam posuere.  \nNunc aliquet, augue nec adipiscing interdum, lacus tellus malesuada \nmassa, quis varius mi purus non odio.  Pellentesque condimentum, \nmagna ut suscipit hendrerit, ipsum augue ornare nulla, non \nluctus diam neque sit amet urna.  Curabitur vulputate vestibulum \nlorem.  Fusce sagittis, libero non molestie mollis, magna orci \nultrices dolor, at vulputate neque nulla lacinia eros.  Sed id ligula\nquis est convallis tempor.  Curabitur lacinia pulvinar nibh.  Nam a sapien.");
    let (plaintext, hint) = round_trip(plaintext_orig.as_str(), "", false);
    assert_eq!(plaintext_orig.as_str(), plaintext.as_str());
    assert_eq!("", hint.as_str());
}

#[test]
fn encrypt_v2_small_str() {
    let plaintext_orig = String::from("hello world");
    let hint_orig = String::from("This is a test message");
    let (plaintext, hint) = round_trip(plaintext_orig.as_str(), hint_orig.as_str(), false);
    assert_eq!(plaintext_orig.as_str(), plaintext.as_str());
    assert_eq!(hint_orig.as_str(), hint.as_str());
}

#[test]
fn encrypt_v2_larg_str() {
    let plaintext_orig: String = String::from("Nullam eu ante vel est convallis dignissim.  Fusce suscipit, wisi nec facilisis facilisis, est dui fermentum leo, \nquis tempor ligula erat quis odio.  Nunc porta vulputate tellus.  \nNunc rutrum turpis sed pede.  Sed bibendum.  Aliquam posuere.  \nNunc aliquet, augue nec adipiscing interdum, lacus tellus malesuada \nmassa, quis varius mi purus non odio.  Pellentesque condimentum, \nmagna ut suscipit hendrerit, ipsum augue ornare nulla, non \nluctus diam neque sit amet urna.  Curabitur vulputate vestibulum \nlorem.  Fusce sagittis, libero non molestie mollis, magna orci \nultrices dolor, at vulputate neque nulla lacinia eros.  Sed id ligula\nquis est convallis tempor.  Curabitur lacinia pulvinar nibh.  Nam a sapien.");
    let hint_orig = String::from("Nullam eu ante vel est convallis dignissim.  Fusce suscipit, wisi nec facilisis facilisis, est dui fermentum leo, \nquis tempor ligula erat quis odio.  Nunc porta vulputate tellus.  \nNunc rutrum turpis sed pede.  Sed bibendum.  Aliquam posuere.  \nNunc aliquet, augue nec adipiscing interdum, lacus tellus malesuada \nmassa, quis varius mi purus non odio.  Pellentesque condimentum, \nmagna ut suscipit hendrerit, ipsum augue ornare nulla, non \nluctus diam neque sit amet urna.  Curabitur vulputate vestibulum \nlorem.  Fusce sagittis, libero non molestie mollis, magna orci \nultrices dolor, at vulputate neque nulla lacinia eros.  Sed id ligula\nquis est convallis tempor.  Curabitur lacinia pulvinar nibh.  Nam a sapien.");
    let (plaintext, hint) = round_trip(plaintext_orig.as_str(), hint_orig.as_str(), false);
    assert_eq!(plaintext_orig.as_str(), plaintext.as_str());
    assert_eq!(hint_orig.as_str(), hint.as_str());
}

#[test]
fn encrypt_vguess_small_str() {
    let plaintext_orig: String = String::from("hello world");
    let (plaintext, hint) = round_trip(plaintext_orig.as_str(), "", true);
    assert_eq!(plaintext_orig.as_str(), plaintext.as_str());
    assert_eq!("", hint.as_str());
}

#[test]
fn encrypt_vguess_large_str() {
    let plaintext_orig: String = String::from("Nullam eu ante vel est convallis dignissim.  Fusce suscipit, wisi nec facilisis facilisis, est dui fermentum leo,\nquis tempor ligula erat quis odio.  Nunc porta vulputate tellus.\nNunc rutrum turpis sed pede.  Sed bibendum.  Aliquam posuere.\nNunc aliquet, augue nec adipiscing interdum, lacus tellus malesuada\nmassa, quis varius mi purus non odio.  Pellentesque condimentum,\nmagna ut suscipit hendrerit, ipsum augue ornare nulla, non\nluctus diam neque sit amet urna.  Curabitur vulputate vestibulum\nlorem.  Fusce sagittis, libero non molestie mollis, magna orci\nultrices dolor, at vulputate neque nulla lacinia eros.  Sed id ligula\nquis est convallis tempor.  Curabitur lacinia pulvinar nibh.  Nam a sapien.");
    let (plaintext, hint) = round_trip(plaintext_orig.as_str(), "", true);
    assert_eq!(plaintext_orig.as_str(), plaintext.as_str());
    assert_eq!("", hint.as_str());
}
