use hamboard::board::NewMessage;
use hamboard::identity::User;
use hamboard::toolkit::bytes_eq;

#[test]
fn a_post_is_authored_by_the_callsign() {
    let user = User::parse("/1.3.6.1.4.1.12348.1.1=N0CALL/CN=Jane/emailAddress=j@x.org")
        .expect("well-formed DN");
    let m = NewMessage::posted_by(&user, "hello from the shack");
    assert_eq!(m.author, "N0CALL");
    assert_eq!(m.content, "hello from the shack");
}

#[test]
fn byte_comparison_is_exact() {
    assert!(bytes_eq(&b"Modulus=AB".to_vec(), &b"Modulus=AB".to_vec()));
    assert!(!bytes_eq(&b"Modulus=AB".to_vec(), &b"Modulus=AC".to_vec()));
    assert!(!bytes_eq(&b"Modulus=AB".to_vec(), &b"Modulus=ABC".to_vec()));
    assert!(bytes_eq(&Vec::new(), &Vec::new()));
}
