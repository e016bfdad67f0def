use affine_native::clock::Reading;
use affine_native::hashcash::{has_zero_digits, Stamp, DEFAULT_BITS, MAX_COUNTER, SALT_LENGTH};
use rand::{distr::Alphanumeric, Rng};
use sha3::{Digest, Sha3_256};

fn hex_digest(text: &str) -> String {
    let mut hasher = Sha3_256::new();
    hasher.update(text.as_bytes());
    format!("{:x}", hasher.finalize())
}

// The first of January 2024, at midnight.
const NEW_YEAR: i64 = 1_704_067_200;

fn at(seconds: i64, nanos: u32) -> Reading {
    Reading { seconds, nanos }
}

fn minted(bits: u32) -> Stamp {
    Stamp::mint_with(
        "test".into(),
        Some(bits),
        "20240101000000".into(),
        "abcdefghijklmnop".into(),
    )
    .unwrap()
}

// Twenty bits of work take a million digests on average, whatever the time
// and the random part are. These two random parts are among the few with
// which a stamp for "test" at midnight of the new year is solved early.
const EARLY_AT_20_BITS: &str = "Y2srFDhp1LTTyK2L";
const EARLY_AT_19_BITS: &str = "p8idhDiku7dXs82y";

fn mint(resource: &str, bits: u32) -> Stamp {
    let rand = if bits == 19 { EARLY_AT_19_BITS } else { EARLY_AT_20_BITS };
    Stamp::mint_with(resource.into(), Some(bits), "20240101000000".into(), rand.into()).unwrap()
}

#[test]
fn test_mint() {
    {
        let response = mint("test", 20).format();
        assert!(
            Stamp::try_from(response.as_str()).unwrap().check_at(20, "test", at(NEW_YEAR, 0)),
            "should pass"
        );
    }

    {
        let response = mint("test", 19).format();
        assert!(
            !Stamp::try_from(response.as_str()).unwrap().check_at(20, "test", at(NEW_YEAR, 0)),
            "should fail with lower bits"
        );
    }
    {
        let response = mint("test", 20).format();
        assert!(
            !Stamp::try_from(response.as_str()).unwrap().check_at(20, "test2", at(NEW_YEAR, 0)),
            "should fail with different resource"
        );
    }
}

#[test]
fn test_check_expiration() {
    let response = mint("test", 20);
    assert!(response.check_expiration_at(at(NEW_YEAR, 0)));

    // and by the system clock, for a stamp that bears the time that it shows
    let now = chrono::Utc::now().format("%Y%m%d%H%M%S").to_string();
    let response = Stamp { ts: now, ..mint("test", 20) };
    assert!(response.check_expiration());
}

#[test]
fn test_format() {
    let response = mint("test", 20);
    assert_eq!(
        response.format(),
        format!("1:20:{}:test::{}:{}", response.ts, response.rand, response.counter)
    );
    assert_eq!(response.format(), "1:20:20240101000000:test::Y2srFDhp1LTTyK2L:c7");
    assert_eq!(mint("test", 19).format(), "1:19:20240101000000:test::p8idhDiku7dXs82y:1e5");
}

#[test]
fn test_fuzz() {
    for _ in 0..1000 {
        let bit = rand::random::<u32>() % 8 + 1;
        let resource =
            rand::rng().sample_iter(&Alphanumeric).take(7).map(char::from).collect::<String>();
        let response = Stamp::mint(resource.clone(), Some(bit)).unwrap().format();
        assert!(
            Stamp::try_from(response.as_str()).unwrap().check(bit, resource.as_str()),
            "should pass"
        );
    }
}

#[test]
fn format_joins_the_seven_parts() {
    let stamp = Stamp {
        version: "1".into(),
        claim: 4_294_967_295,
        ts: "20240101000000".into(),
        resource: "a:b".into(),
        ext: "".into(),
        rand: "Zz9".into(),
        counter: "ff".into(),
    };
    assert_eq!(stamp.format(), "1:4294967295:20240101000000:a:b::Zz9:ff");
    let zero = Stamp { claim: 0, ..stamp };
    assert_eq!(zero.format(), "1:0:20240101000000:a:b::Zz9:ff");
}

#[test]
fn mint_takes_the_first_counter_that_solves() {
    let stamp = minted(8);
    assert_eq!(
        (stamp.version.as_str(), stamp.claim, stamp.ts.as_str(), stamp.resource.as_str()),
        ("1", 8, "20240101000000", "test")
    );
    assert_eq!((stamp.ext.as_str(), stamp.rand.as_str()), ("", "abcdefghijklmnop"));

    let challenge = "1:8:20240101000000:test::abcdefghijklmnop";
    assert!(hex_digest(&stamp.format()).starts_with("00"));
    let counter = u64::from_str_radix(&stamp.counter, 16).unwrap();
    assert_eq!(stamp.counter, format!("{:x}", counter));
    for earlier in 0..counter {
        assert!(!hex_digest(&format!("{}:{:x}", challenge, earlier)).starts_with("00"));
    }
    assert!(counter <= MAX_COUNTER);

    // nine bits ask for three zeros, not for two
    let more = minted(9);
    assert!(hex_digest(&more.format()).starts_with("000"));
    // and no bits ask for none: the first counter does
    assert_eq!(minted(0).counter, "0");
}

#[test]
fn mint_by_the_clock() {
    assert_eq!(DEFAULT_BITS, 20);

    let stamp = Stamp::mint("res".into(), Some(4)).unwrap();
    assert_eq!(stamp.version, "1");
    assert_eq!(stamp.claim, 4);
    assert_eq!(stamp.ext, "");
    assert_eq!(stamp.rand.chars().count(), SALT_LENGTH);
    assert_eq!(SALT_LENGTH, 16);
    assert!(stamp.rand.chars().all(|c| c.is_ascii_alphanumeric()));
    assert_eq!(stamp.ts.len(), 14);
    assert!(stamp.ts.chars().all(|c| c.is_ascii_digit()));
    let now = chrono::Utc::now().format("%Y%m%d").to_string();
    assert!(stamp.ts.starts_with(&now[..4]));
    assert!(hex_digest(&stamp.format()).starts_with("0"));
}

#[test]
fn check_at_a_given_time() {
    let stamp = minted(8);
    assert!(stamp.check_at(8, "test", at(NEW_YEAR, 0)));
    assert!(stamp.check_at(0, "test", at(NEW_YEAR, 0)));
    assert!(!stamp.check_at(9, "test", at(NEW_YEAR, 0)));
    assert!(!stamp.check_at(8, "tes", at(NEW_YEAR, 0)));
    assert!(!stamp.check_at(8, "test", at(NEW_YEAR + 301, 0)));

    let other_version = Stamp { version: "2".into(), ..minted(8) };
    assert!(!other_version.check_at(8, "test", at(NEW_YEAR, 0)));

    // a claim of more zeros than the digest has digits is never met
    let greedy = Stamp { claim: 260, ..minted(8) };
    assert!(!greedy.check_at(8, "test", at(NEW_YEAR, 0)));

    // another counter gives another digest
    let first = u64::from_str_radix(&stamp.counter, 16).unwrap();
    let mut tampered = first + 1;
    while hex_digest(&format!("1:8:20240101000000:test::abcdefghijklmnop:{:x}", tampered))
        .starts_with("00")
    {
        tampered += 1;
    }
    let forged = Stamp { counter: format!("{:x}", tampered), ..minted(8) };
    assert!(!forged.check_at(8, "test", at(NEW_YEAR, 0)));
}

#[test]
fn a_stamp_is_fresh_for_five_minutes() {
    let stamp = minted(0);
    assert!(stamp.check_expiration_at(at(NEW_YEAR - 1_000_000, 0)));
    assert!(stamp.check_expiration_at(at(NEW_YEAR + 299, 999_999_999)));
    assert!(stamp.check_expiration_at(at(NEW_YEAR + 300, 0)));
    assert!(!stamp.check_expiration_at(at(NEW_YEAR + 300, 1)));
    assert!(!stamp.check_expiration_at(at(NEW_YEAR + 301, 0)));
    assert!(!stamp.check_expiration());

    let no_time = Stamp { ts: "yesterday".into(), ..minted(0) };
    assert!(!no_time.check_expiration_at(at(0, 0)));
    let no_day = Stamp { ts: "20240230000000".into(), ..minted(0) };
    assert!(!no_day.check_expiration_at(at(0, 0)));
}

#[test]
fn try_from_reads_a_stamp() {
    let stamp = Stamp::try_from("1:20:20240101000000:test::salt:ff").unwrap();
    assert_eq!(
        (stamp.version.as_str(), stamp.claim, stamp.ts.as_str(), stamp.resource.as_str()),
        ("1", 20, "20240101000000", "test")
    );
    assert_eq!((stamp.ext.as_str(), stamp.rand.as_str(), stamp.counter.as_str()), ("", "salt", "ff"));

    let stamp = Stamp::try_from("v:+007:t:r:e:s:c").unwrap();
    assert_eq!((stamp.claim, stamp.ext.as_str()), (7, "e"));
    assert_eq!(Stamp::try_from("1:4294967295:t:r::s:c").unwrap().claim, u32::MAX);
}

#[test]
fn try_from_refuses_what_is_no_stamp() {
    let refused = |text: &str| Stamp::try_from(text).unwrap_err();
    assert_eq!(refused(""), "Malformed stamp, expected 6 parts, got 1");
    assert_eq!(refused("a:b"), "Malformed stamp, expected 6 parts, got 2");
    assert_eq!(refused("1:20:t:r::s:c:more"), "Malformed stamp, expected 6 parts, got 8");
    assert_eq!(refused("1:20:t:::s:c"), "Malformed stamp, expected 6 parts, got 7");
    assert_eq!(refused(":20:t:r::s:c"), "Malformed stamp, expected 6 parts, got 7");
    assert_eq!(refused("1:20:t:r::s:"), "Malformed stamp, expected 6 parts, got 7");
    assert_eq!(refused("1:twenty:t:r::s:c"), "Malformed stamp");
    assert_eq!(refused("1:-1:t:r::s:c"), "Malformed stamp");
    assert_eq!(refused("1:+:t:r::s:c"), "Malformed stamp");
    assert_eq!(refused("1:2 0:t:r::s:c"), "Malformed stamp");
    assert_eq!(refused("1:4294967296:t:r::s:c"), "Malformed stamp");
}

#[test]
fn zero_digits_of_a_digest() {
    assert!(has_zero_digits(&vec![0x00, 0x0f, 0xff], 3));
    assert!(!has_zero_digits(&vec![0x00, 0x0f, 0xff], 4));
    assert!(!has_zero_digits(&vec![0x10, 0x00], 1));
    assert!(has_zero_digits(&vec![0x10, 0x00], 0));
    assert!(has_zero_digits(&vec![0x00, 0x00], 4));
    assert!(!has_zero_digits(&vec![0x00, 0x00], 5));
    assert!(has_zero_digits(&vec![], 0));
    assert!(!has_zero_digits(&vec![], 1));
}

#[test]
fn a_stamp_is_read_back_from_its_text() {
    for stamp in [mint("test", 20), mint("test", 19), minted(8), minted(0)] {
        let read = Stamp::try_from(stamp.format().as_str()).unwrap();
        assert_eq!(
            (read.version, read.claim, read.ts, read.resource, read.ext, read.rand, read.counter),
            (
                stamp.version,
                stamp.claim,
                stamp.ts,
                stamp.resource,
                stamp.ext,
                stamp.rand,
                stamp.counter
            )
        );
    }
    // a colon in the resource makes one part more, and the text is no stamp
    let colon = Stamp { resource: "a:b".into(), ..minted(0) };
    assert!(Stamp::try_from(colon.format().as_str()).is_err());
}
