use rdp_spray::FatalError;
use rdp_spray::builder::build;
use rdp_spray::credentials::Secret;

fn password_of(secret: &Secret) -> &str {
    match secret {
        Secret::Password(p) => p.as_str(),
        Secret::HashDigest(_) => panic!("expected a password secret"),
    }
}

fn digest_of(secret: &Secret) -> &[u8] {
    match secret {
        Secret::Password(_) => panic!("expected a hash digest secret"),
        Secret::HashDigest(b) => b.as_slice(),
    }
}

#[test]
fn single_username_yields_one_pair_per_password_line() {
    let username = String::from("admin");
    let passwords = String::from("wrong1\nwrong2\ncorrect");
    let set = build(Some(&username), None, Some(&passwords), None).unwrap();
    assert_eq!(set.len(), 3);
    let expected = ["wrong1", "wrong2", "correct"];
    for (pair, want) in set.iter().zip(expected.iter()) {
        assert_eq!(pair.username, "admin");
        assert_eq!(password_of(&pair.secret), *want);
    }
}

#[test]
fn username_list_yields_cross_product_username_major() {
    let usernames = String::from("u1\nu2");
    let passwords = String::from("p1\np2\np3");
    let set = build(None, Some(&usernames), Some(&passwords), None).unwrap();
    assert_eq!(set.len(), 6);
    let expected = [
        ("u1", "p1"),
        ("u1", "p2"),
        ("u1", "p3"),
        ("u2", "p1"),
        ("u2", "p2"),
        ("u2", "p3"),
    ];
    for (pair, (user, pass)) in set.iter().zip(expected.iter()) {
        assert_eq!(pair.username, *user);
        assert_eq!(password_of(&pair.secret), *pass);
    }
}

#[test]
fn both_sources_append_single_username_block_first() {
    let username = String::from("root");
    let usernames = String::from("u1\nu2");
    let passwords = String::from("p1\np2");
    let set = build(Some(&username), Some(&usernames), Some(&passwords), None).unwrap();
    assert_eq!(set.len(), 2 + 2 * 2);
    let expected = [
        ("root", "p1"),
        ("root", "p2"),
        ("u1", "p1"),
        ("u1", "p2"),
        ("u2", "p1"),
        ("u2", "p2"),
    ];
    for (pair, (user, pass)) in set.iter().zip(expected.iter()) {
        assert_eq!(pair.username, *user);
        assert_eq!(password_of(&pair.secret), *pass);
    }
}

#[test]
fn password_secrets_come_before_hash_secrets() {
    let username = String::from("admin");
    let passwords = String::from("pw");
    let hashes = String::from("A1B2");
    let set = build(Some(&username), None, Some(&passwords), Some(&hashes)).unwrap();
    assert_eq!(set.len(), 2);
    assert_eq!(password_of(&set[0].secret), "pw");
    assert_eq!(digest_of(&set[1].secret), &[0xa1, 0xb2]);
}

#[test]
fn hash_lines_are_trimmed_and_case_folded() {
    let username = String::from("admin");
    let hashes = String::from("  DEADbeef \n00ff");
    let set = build(Some(&username), None, None, Some(&hashes)).unwrap();
    assert_eq!(set.len(), 2);
    assert_eq!(digest_of(&set[0].secret), &[0xde, 0xad, 0xbe, 0xef]);
    assert_eq!(digest_of(&set[1].secret), &[0x00, 0xff]);
}

#[test]
fn one_malformed_hash_line_is_fatal() {
    let username = String::from("admin");
    let odd = String::from("abc");
    let err = build(Some(&username), None, None, Some(&odd)).unwrap_err();
    assert_eq!(err, FatalError::Format);

    let non_hex = String::from("a1b2\nxyzw");
    let err = build(Some(&username), None, None, Some(&non_hex)).unwrap_err();
    assert_eq!(err, FatalError::Format);
}

#[test]
fn no_sources_yield_an_empty_set_not_an_error() {
    let set = build(None, None, None, None).unwrap();
    assert_eq!(set.len(), 0);

    let username = String::from("admin");
    let set = build(Some(&username), None, None, None).unwrap();
    assert_eq!(set.len(), 0);
}

#[test]
fn trailing_newline_adds_an_empty_password() {
    let username = String::from("admin");
    let passwords = String::from("pw\n");
    let set = build(Some(&username), None, Some(&passwords), None).unwrap();
    assert_eq!(set.len(), 2);
    assert_eq!(password_of(&set[0].secret), "pw");
    assert_eq!(password_of(&set[1].secret), "");
}

#[test]
fn renders_passwords_and_digests() {
    let pw = Secret::Password(String::from("hunter2"));
    assert_eq!(pw.render(), "[pass: 'hunter2']");
    let digest = Secret::HashDigest(vec![0xa1, 0xb2]);
    assert_eq!(digest.render(), "[nlm: a1b2]");

    let username = String::from("admin");
    let passwords = String::from("pw");
    let set = build(Some(&username), None, Some(&passwords), None).unwrap();
    assert_eq!(set[0].render(), "<user: admin, secret: [pass: 'pw']>");
}
