use libreauth::pass::argon2::Argon2Hash;
use libreauth::pass::cfg::{is_valid, PassCfg};
use libreauth::pass::engine::HashFunc;
use libreauth::pass::mac::{codes_match, mac_code};
use libreauth::pass::normalize::normalize;
use libreauth::pass::pbkdf2::{output_len, prf_from_str, prf_string, Pbkdf2Hash, PrfHash};
use libreauth::pass::phc::PHCData;
use libreauth::pass::{
    Algorithm, ErrorCode, HashBuilder, Hasher, LengthCalculationMethod, Normalization,
    PasswordStorageStandard, PASSWORD_STORAGE_LEN,
};

fn salt16() -> Vec<u8> {
    (0u8..16).collect()
}

fn pbkdf2_policy(hash: &str) -> Hasher {
    HashBuilder::new()
        .algorithm(Algorithm::Pbkdf2)
        .add_param("iter", "10000")
        .add_param("hash", hash)
        .finalize()
        .unwrap()
}

#[test]
fn the_record_of_a_hash_tells_the_policy() {
    let hasher = HashBuilder::new().finalize().unwrap();
    let record = hasher
        .hash_with_salt("correct horse battery staple", salt16())
        .unwrap();
    let head = "$argon2$norm=nfkc,passes=3,mem=12,lanes=4,len=128,len-calc=chars,pmin=8,pmax=128,ver=1$AAECAwQFBgcICQoLDA0ODw$";
    assert!(record.starts_with(head), "{}", record);
    assert_eq!(record.len(), head.len() + 171);
    assert!(record.len() < PASSWORD_STORAGE_LEN);
    let again = hasher
        .hash_with_salt("correct horse battery staple", salt16())
        .unwrap();
    assert_eq!(record, again);
    let other = hasher
        .hash_with_salt("correct horse battery staplf", salt16())
        .unwrap();
    assert_ne!(record, other);
    let phc = PHCData::from_bytes(record.as_bytes()).unwrap();
    assert_eq!(phc.salt, Some(salt16()));
    assert_eq!(phc.hash.unwrap().len(), 128);
}

#[test]
fn the_record_of_a_pbkdf2_hash() {
    let hasher = HashBuilder::new_std(PasswordStorageStandard::Nist80063b)
        .min_len(10)
        .max_len(64)
        .version(3)
        .length_calculation(LengthCalculationMethod::Characters)
        .normalization(Normalization::Nfkd)
        .finalize()
        .unwrap();
    let record = hasher.hash_with_salt("correct horse", salt16()).unwrap();
    assert_eq!(
        record,
        "$pbkdf2$norm=nfkd,iter=45000,hash=sha512,len-calc=chars,pmin=10,pmax=64,ver=4$AAECAwQFBgcICQoLDA0ODw$5Wad15nGIGyfKkvdPYPRiX8+eCaiTj/YZc8hPVegGZH7bTUHW0hnepOj4FTpgB8tF1OHsdqMeE24fP9IMvbZFg"
    );
    let checker = HashBuilder::from_phc(&record).unwrap();
    assert_eq!(checker.min_len(), 10);
    assert_eq!(checker.max_len(), 64);
    assert_eq!(checker.version(), 4);
    assert_eq!(checker.salt_len(), 16);
    assert_eq!(checker.algorithm(), Algorithm::Pbkdf2);
    assert_eq!(checker.normalization(), Normalization::Nfkd);
    assert_eq!(
        checker.length_calculation(),
        LengthCalculationMethod::Characters
    );
    assert_eq!(checker.parameters().len(), 2);
    assert_eq!(checker.parameters().get("iter").unwrap(), "45000");
    assert_eq!(checker.parameters().get("hash").unwrap(), "sha512");
    assert!(checker.is_valid("correct horse"));
    assert!(!checker.is_valid("correct horsf"));
    assert_eq!(checker.hash("correct horse").unwrap(), record);
}

#[test]
fn a_stored_password_is_valid_again() {
    let password = "correct horse battery staple";
    let hashers = vec![
        HashBuilder::new().finalize().unwrap(),
        HashBuilder::new_std(PasswordStorageStandard::Nist80063b)
            .finalize()
            .unwrap(),
        HashBuilder::new()
            .add_param("passes", "1")
            .add_param("mem", "7")
            .add_param("lanes", "1")
            .add_param("len", "32")
            .salt_len(8)
            .finalize()
            .unwrap(),
        HashBuilder::new()
            .length_calculation(LengthCalculationMethod::Bytes)
            .normalization(Normalization::Nfd)
            .version(41)
            .finalize()
            .unwrap(),
        pbkdf2_policy("sha1"),
        pbkdf2_policy("sha3-256"),
    ];
    for hasher in hashers.iter() {
        let stored = hasher.hash(password).unwrap();
        let checker = HashBuilder::from_phc(stored.as_str()).unwrap();
        assert!(checker.is_valid(password), "{}", stored);
        let mut longer = password.to_string();
        longer.push('x');
        assert!(!checker.is_valid(&longer), "{}", stored);
        assert!(!checker.is_valid(""), "{}", stored);
        assert!(!hasher.is_valid(password));
        assert!(is_valid(password, stored.as_str()) == 1);
        assert!(is_valid(&longer, stored.as_str()) == 0);
    }
}

#[test]
fn every_hash_function_of_pbkdf2() {
    let names = [
        ("sha1", PrfHash::Sha1, 20),
        ("sha224", PrfHash::Sha224, 28),
        ("sha256", PrfHash::Sha256, 32),
        ("sha384", PrfHash::Sha384, 48),
        ("sha512", PrfHash::Sha512, 64),
        ("sha512t224", PrfHash::Sha512Trunc224, 28),
        ("sha512t256", PrfHash::Sha512Trunc256, 32),
        ("keccak224", PrfHash::Keccak224, 28),
        ("keccak256", PrfHash::Keccak256, 32),
        ("keccak384", PrfHash::Keccak384, 48),
        ("keccak512", PrfHash::Keccak512, 64),
        ("sha3-224", PrfHash::Sha3_224, 28),
        ("sha3-256", PrfHash::Sha3_256, 32),
        ("sha3-384", PrfHash::Sha3_384, 48),
        ("sha3-512", PrfHash::Sha3_512, 64),
    ];
    let mut seen: Vec<Vec<u8>> = Vec::new();
    for (name, hash, len) in names.iter() {
        assert_eq!(prf_from_str(name), Some(*hash));
        assert_eq!(prf_string(*hash), *name);
        assert_eq!(output_len(*hash), *len);
        let mut f = Pbkdf2Hash::new();
        assert_eq!(f.set_parameter("hash", name), Ok(()));
        assert_eq!(f.set_parameter("iter", "10000"), Ok(()));
        assert_eq!(f.set_salt(salt16()), Ok(()));
        let out = f.hash(b"password");
        assert_eq!(out.len(), *len);
        assert_eq!(out, f.hash(b"password"));
        assert_ne!(out, f.hash(b"passwore"));
        assert!(!seen.contains(&out), "{}", name);
        seen.push(out);
    }
    assert_eq!(prf_from_str("md5"), None);
    assert_eq!(prf_from_str("SHA1"), None);
}

fn hex(bytes: &[u8]) -> String {
    let mut out = String::new();
    for b in bytes.iter() {
        out.push_str(&format!("{:02x}", b));
    }
    out
}

#[test]
fn known_keys_of_pbkdf2() {
    let known = [
        ("sha1", "8e3e2f73c3eb6390a81abbc8101c0343b017a7af"),
        ("sha224", "a7150cd1d2a90e2df98d6588af0e4b79b0b9b5ecfa35b5f47f82c4ec"),
        ("sha256", "eb6c81535592203c092b158f8d3909672362a6f5dbd00d9828044cbaa8b252e9"),
        ("sha384", "24f67028f09c4d89225d0a6b66ef15e32d1305fe8e2e33e106132abed9552d97e903596159f6f659d57fb657dedae39a"),
        ("sha512", "5e5984ca905a5524238b359871c12dc2203693181c65804017e8c5ffc00735f3d15df4aae5e04364f297372d8b429905b8c345e3a148008ab942145e0f8c55bb"),
        ("sha512t224", "3c8418a6985c3b29a73c48e8f546516833efebd7beeb4f63451696a7"),
        ("sha512t256", "a7bf9b187aa44043cf82f882487056203c3120c8862f955c2d703e489c092e09"),
        ("sha3-224", "7ed5166dcf7de441235e69694c56527658d31eee84f1f3c943ef8595"),
        ("sha3-256", "be41baab177310fb896a39b849b3ba7a883a1497fa6bae61fd3044afbed3849d"),
        ("sha3-384", "dab1778c6faa0ecb826cc4f3364c9ae4a29239dd31727cc91524aeed2bb56ed70d2945f2fce1caad098b9682ece40c72"),
        ("sha3-512", "34ff3d66c08ca2e5a9baa5ab9600b50cebef4c81c36dbc9c0fd38727d984b7f0e18c21783114a12ad629e56b93f7a07be3113d9430b8509379c1c60e337855c8"),
    ];
    for (name, key) in known.iter() {
        let mut f = Pbkdf2Hash::new();
        assert_eq!(f.set_parameter("hash", name), Ok(()));
        assert_eq!(f.set_parameter("iter", "10000"), Ok(()));
        assert_eq!(f.set_salt(salt16()), Ok(()));
        assert_eq!(hex(&f.hash(b"password")), *key, "{}", name);
    }
}

#[test]
fn known_codes() {
    assert_eq!(
        hex(&mac_code(&[0x0b; 20], b"Hi There").unwrap()),
        "87aa7cdea5ef619d4ff0b4241a1d6cb02379f4e2ce4ec2787ad0b30545e17cdedaa833b7d6b8a702038b274eaea3f4e4be9d914eeb61f1702e696c203a126854"
    );
    assert_eq!(
        hex(&mac_code(b"key", b"hash").unwrap()),
        "207303c0fd5d21b23b6749bffde5421b366cee21198036fe2ea119f307ea052116bd8d8881fbd17cb11559f2afeb8ed8d0321383006c5a2ec57dbb435384d36f"
    );
}

#[test]
fn the_length_policy() {
    let hasher = HashBuilder::new()
        .algorithm(Algorithm::Pbkdf2)
        .min_len(4)
        .max_len(6)
        .finalize()
        .unwrap();
    assert_eq!(hasher.hash(""), Err(ErrorCode::PasswordTooShort));
    assert_eq!(hasher.hash("abc"), Err(ErrorCode::PasswordTooShort));
    assert!(hasher.hash("abcd").is_ok());
    assert!(hasher.hash("abcdef").is_ok());
    assert_eq!(hasher.hash("abcdefg"), Err(ErrorCode::PasswordTooLong));
    // four characters in eight bytes
    assert!(hasher.hash("éééé").is_ok());
    assert!(hasher.hash("éééééé").is_ok());
    assert_eq!(hasher.hash("ééééééé"), Err(ErrorCode::PasswordTooLong));
    assert_eq!(hasher.check_password("abc"), Err(ErrorCode::PasswordTooShort));
    assert_eq!(hasher.check_password("abcd"), Ok(()));
    assert_eq!(hasher.check_password("abcdefg"), Err(ErrorCode::PasswordTooLong));

    let hasher = HashBuilder::new()
        .algorithm(Algorithm::Pbkdf2)
        .length_calculation(LengthCalculationMethod::Bytes)
        .normalization(Normalization::NoNormalization)
        .min_len(4)
        .max_len(6)
        .finalize()
        .unwrap();
    assert_eq!(hasher.hash("é"), Err(ErrorCode::PasswordTooShort));
    assert!(hasher.hash("éé").is_ok());
    assert!(hasher.hash("ééé").is_ok());
    assert_eq!(hasher.hash("éééé"), Err(ErrorCode::PasswordTooLong));
}

#[test]
fn the_length_is_that_of_the_normal_form() {
    // "e" with a combining acute accent: two characters, one once composed
    let decomposed = "e\u{301}e\u{301}e\u{301}e\u{301}";
    let composing = HashBuilder::new()
        .algorithm(Algorithm::Pbkdf2)
        .normalization(Normalization::Nfc)
        .min_len(5)
        .max_len(8)
        .finalize()
        .unwrap();
    assert_eq!(composing.hash(decomposed), Err(ErrorCode::PasswordTooShort));
    let plain = HashBuilder::new()
        .algorithm(Algorithm::Pbkdf2)
        .normalization(Normalization::NoNormalization)
        .min_len(5)
        .max_len(8)
        .finalize()
        .unwrap();
    assert!(plain.hash(decomposed).is_ok());
}

#[test]
fn bounds_that_cross() {
    let hasher = HashBuilder::new()
        .algorithm(Algorithm::Pbkdf2)
        .min_len(10)
        .max_len(5)
        .finalize()
        .unwrap();
    assert_eq!(hasher.hash("1234567"), Err(ErrorCode::PasswordTooShort));
    assert_eq!(hasher.hash("1234567890"), Err(ErrorCode::PasswordTooLong));
}

#[test]
fn normal_forms() {
    assert_eq!(normalize(Normalization::Nfc, "e\u{301}"), "\u{e9}");
    assert_eq!(normalize(Normalization::Nfd, "\u{e9}"), "e\u{301}");
    assert_eq!(normalize(Normalization::Nfkc, "\u{fb01}e\u{301}"), "fi\u{e9}");
    assert_eq!(normalize(Normalization::Nfkd, "\u{fb01}\u{e9}"), "fie\u{301}");
    assert_eq!(normalize(Normalization::Nfc, "\u{fb01}"), "\u{fb01}");
    assert_eq!(normalize(Normalization::Nfd, "\u{fb01}"), "\u{fb01}");
    assert_eq!(
        normalize(Normalization::NoNormalization, "\u{fb01}e\u{301}"),
        "\u{fb01}e\u{301}"
    );
    let hasher = HashBuilder::new()
        .algorithm(Algorithm::Pbkdf2)
        .normalization(Normalization::Nfc)
        .finalize()
        .unwrap();
    let stored = hasher.hash("caf\u{e9} au lait").unwrap();
    let checker = HashBuilder::from_phc(&stored).unwrap();
    assert!(checker.is_valid("cafe\u{301} au lait"));
    assert!(!checker.is_valid("cafe au lait"));
}

#[test]
fn what_the_algorithm_refuses() {
    let cases: Vec<Hasher> = vec![
        HashBuilder::new().add_param("foo", "bar").finalize().unwrap(),
        HashBuilder::new().add_param("passes", "0").finalize().unwrap(),
        HashBuilder::new().add_param("passes", "1025").finalize().unwrap(),
        HashBuilder::new().add_param("mem", "6").finalize().unwrap(),
        HashBuilder::new().add_param("mem", "19").finalize().unwrap(),
        HashBuilder::new().add_param("lanes", "129").finalize().unwrap(),
        HashBuilder::new().add_param("len", "31").finalize().unwrap(),
        HashBuilder::new().add_param("len", "x").finalize().unwrap(),
        HashBuilder::new().add_param("iter", "45000").finalize().unwrap(),
        HashBuilder::new().salt_len(7).finalize().unwrap(),
        HashBuilder::new().salt_len(257).finalize().unwrap(),
        HashBuilder::new()
            .add_param("mem", "7")
            .add_param("lanes", "128")
            .finalize()
            .unwrap(),
        HashBuilder::new()
            .algorithm(Algorithm::Pbkdf2)
            .add_param("iter", "9999")
            .finalize()
            .unwrap(),
        HashBuilder::new()
            .algorithm(Algorithm::Pbkdf2)
            .add_param("iter", "200001")
            .finalize()
            .unwrap(),
        HashBuilder::new()
            .algorithm(Algorithm::Pbkdf2)
            .add_param("hash", "md5")
            .finalize()
            .unwrap(),
        HashBuilder::new()
            .algorithm(Algorithm::Pbkdf2)
            .add_param("passes", "3")
            .finalize()
            .unwrap(),
        HashBuilder::new()
            .algorithm(Algorithm::Pbkdf2)
            .salt_len(3)
            .finalize()
            .unwrap(),
    ];
    for hasher in cases.iter() {
        assert_eq!(
            hasher.hash("correct horse battery staple"),
            Err(ErrorCode::InvalidPasswordFormat)
        );
        assert_eq!(hasher.hash("short"), Err(ErrorCode::PasswordTooShort));
    }
    let hasher = HashBuilder::new()
        .algorithm(Algorithm::Pbkdf2)
        .salt_len(4)
        .finalize()
        .unwrap();
    assert!(hasher.hash("correct horse battery staple").is_ok());
}

#[test]
fn hashing_functions() {
    let mut f = Argon2Hash::new();
    assert_eq!(f.get_id(), "argon2");
    assert_eq!(f.set_parameter("passes", "2"), Ok(()));
    assert_eq!(
        f.set_parameter("passes", "0"),
        Err(ErrorCode::InvalidPasswordFormat)
    );
    assert_eq!(f.set_parameter("mem", "8"), Ok(()));
    assert_eq!(f.set_parameter("lanes", "2"), Ok(()));
    assert_eq!(f.set_parameter("len", "48"), Ok(()));
    assert_eq!(f.set_normalization(Normalization::Nfd), Ok(()));
    assert_eq!(
        f.set_salt(vec![1; 7]),
        Err(ErrorCode::InvalidPasswordFormat)
    );
    assert_eq!(f.hash(b"password"), None);
    assert_eq!(f.set_salt(vec![1; 8]), Ok(()));
    assert_eq!(f.get_salt(), Some(vec![1; 8]));
    let p = f.get_parameters();
    assert_eq!(p.len(), 5);
    assert_eq!(p.get("norm").unwrap(), "nfd");
    assert_eq!(p.get("passes").unwrap(), "2");
    assert_eq!(p.get("mem").unwrap(), "8");
    assert_eq!(p.get("lanes").unwrap(), "2");
    assert_eq!(p.get("len").unwrap(), "48");
    let out = f.hash(b"password").unwrap();
    assert_eq!(out.len(), 48);
    assert_ne!(out, f.hash(b"passwore").unwrap());

    let mut g = HashFunc::new(Algorithm::Pbkdf2);
    assert_eq!(g.get_id(), "pbkdf2");
    assert_eq!(g.set_parameter("iter", "12345"), Ok(()));
    assert_eq!(
        g.set_parameter("mem", "8"),
        Err(ErrorCode::InvalidPasswordFormat)
    );
    assert_eq!(g.set_salt(vec![9; 4]), Ok(()));
    assert_eq!(g.get_salt(), Some(vec![9; 4]));
    let p = g.get_parameters();
    assert_eq!(p.len(), 3);
    assert_eq!(p.get("norm").unwrap(), "nfkc");
    assert_eq!(p.get("iter").unwrap(), "12345");
    assert_eq!(p.get("hash").unwrap(), "sha512");
    assert_eq!(g.hash(b"password").unwrap().len(), 64);
}

#[test]
fn policies_are_read_from_records() {
    let minimal = HashBuilder::from_phc("$pbkdf2").unwrap();
    assert_eq!(minimal.normalization(), Normalization::Nfkc);
    assert_eq!(minimal.min_len(), 8);
    assert_eq!(minimal.max_len(), 128);
    assert_eq!(minimal.version(), 1);
    assert_eq!(minimal.salt_len(), 16);
    assert_eq!(
        minimal.length_calculation(),
        LengthCalculationMethod::Characters
    );
    assert!(minimal.parameters().is_empty());
    assert!(!minimal.is_valid("correct horse battery staple"));

    let full = HashBuilder::from_phc(
        "$argon2$norm=none,ver=+7,pmin=0,pmax=0099,len-calc=bytes,mem=9$AAECAwQFBgc",
    )
    .unwrap();
    assert_eq!(full.normalization(), Normalization::NoNormalization);
    assert_eq!(full.version(), 7);
    assert_eq!(full.min_len(), 0);
    assert_eq!(full.max_len(), 99);
    assert_eq!(full.salt_len(), 8);
    assert_eq!(full.length_calculation(), LengthCalculationMethod::Bytes);
    assert_eq!(full.algorithm(), Algorithm::Argon2);
    assert_eq!(full.parameters().len(), 1);
    assert_eq!(full.parameters().get("mem").unwrap(), "9");
    assert!(!full.is_valid("correct horse battery staple"));

    for name in ["nfd", "nfkd", "nfc", "nfkc", "none"] {
        let record = format!("$pbkdf2$norm={}", name);
        assert!(HashBuilder::from_phc(&record).is_ok());
    }
}

#[test]
fn records_that_describe_no_policy() {
    let data = [
        "",
        "$",
        "argon2",
        "$argon2i",
        "$scrypt$n=4",
        "$argon2$norm=nfx",
        "$argon2$norm=NFC",
        "$argon2$ver=a",
        "$argon2$ver=-1",
        "$argon2$pmin=1.5",
        "$argon2$pmax=99999999999999999999999999",
        "$argon2$len-calc=graphemes",
        "$argon2$pmin=8$YXN1cmUu$YQ==",
        "$argon2$pmin=\u{e9}",
    ];
    for s in data.iter() {
        assert_eq!(
            HashBuilder::from_phc(s).err(),
            Some(ErrorCode::InvalidPasswordFormat),
            "{}",
            s
        );
        assert_eq!(is_valid("correct horse battery staple", s), 0);
        assert_eq!(
            PassCfg::from_phc(s).err(),
            Some(ErrorCode::InvalidPasswordFormat)
        );
    }
}

#[test]
fn versions() {
    let c = HashBuilder::new().version(5).finalize().unwrap();
    assert_eq!(c.version(), 6);
    assert!(c.needs_update(Some(6)));
    assert!(!c.needs_update(Some(5)));
    assert!(!c.needs_update(None));
    assert!(c.needs_update(Some(usize::MAX)));
    let c = HashBuilder::from_phc("$argon2$ver=0").unwrap();
    assert!(c.needs_update(None));
    assert!(c.needs_update(Some(0)));
    let c = HashBuilder::from_phc("$argon2$ver=5").unwrap();
    assert!(c.needs_update(Some(5)));
    assert!(!c.needs_update(Some(4)));
    assert!(!c.needs_update(None));
    let top = format!("$argon2$ver={}", usize::MAX);
    let c = HashBuilder::from_phc(&top).unwrap();
    assert!(c.needs_update(Some(usize::MAX)));
    assert!(!c.needs_update(Some(usize::MAX - 1)));
}

#[test]
fn the_standard_refuses_what_does_not_comply() {
    fn nist() -> HashBuilder {
        HashBuilder::new_std(PasswordStorageStandard::Nist80063b)
    }
    assert_eq!(
        nist().min_len(7).finalize().err(),
        Some(ErrorCode::IncompatibleOption)
    );
    assert_eq!(
        nist().max_len(63).finalize().err(),
        Some(ErrorCode::IncompatibleOption)
    );
    assert_eq!(
        nist()
            .length_calculation(LengthCalculationMethod::Bytes)
            .finalize()
            .err(),
        Some(ErrorCode::IncompatibleOption)
    );
    assert_eq!(
        nist().normalization(Normalization::Nfc).finalize().err(),
        Some(ErrorCode::IncompatibleOption)
    );
    assert_eq!(
        nist().normalization(Normalization::Nfd).finalize().err(),
        Some(ErrorCode::IncompatibleOption)
    );
    assert_eq!(
        nist().algorithm(Algorithm::Argon2).finalize().err(),
        Some(ErrorCode::IncompatibleOption)
    );
    assert_eq!(
        nist().salt_len(3).finalize().err(),
        Some(ErrorCode::IncompatibleOption)
    );
    assert_eq!(
        nist().add_param("iter", "8000").finalize().err(),
        Some(ErrorCode::IncompatibleOption)
    );
    assert_eq!(
        nist().add_param("iter", "9999").finalize().err(),
        Some(ErrorCode::IncompatibleOption)
    );
    assert_eq!(
        nist().add_param("iter", "many").finalize().err(),
        Some(ErrorCode::IncompatibleOption)
    );
    assert!(nist().finalize().is_ok());
    assert!(nist().min_len(8).max_len(64).salt_len(4).finalize().is_ok());
    assert!(nist().add_param("iter", "10000").finalize().is_ok());
    assert!(nist().normalization(Normalization::Nfkd).finalize().is_ok());
    assert!(nist()
        .normalization(Normalization::NoNormalization)
        .finalize()
        .is_ok());
    // without a standard nothing is refused
    assert!(HashBuilder::new()
        .min_len(0)
        .max_len(0)
        .salt_len(0)
        .normalization(Normalization::Nfc)
        .length_calculation(LengthCalculationMethod::Bytes)
        .add_param("iter", "1")
        .finalize()
        .is_ok());
}

#[test]
fn builders() {
    let mut b = HashBuilder::default();
    assert_eq!(b.standard, PasswordStorageStandard::NoStandard);
    assert_eq!(b.algorithm, Algorithm::Argon2);
    assert_eq!(b.salt_len, 16);
    assert_eq!(
        b.length_calculation,
        LengthCalculationMethod::Characters
    );
    b.add_param("passes", "4").add_param("passes", "5");
    assert_eq!(b.parameters.len(), 1);
    assert_eq!(b.parameters.get("passes").unwrap(), "5");
    b.algorithm(Algorithm::Pbkdf2);
    assert!(b.parameters.is_empty());
    assert_eq!(b.algorithm, Algorithm::Pbkdf2);
    b.salt_len(32);
    assert_eq!(b.salt_len, 32);
    let h = b.finalize().unwrap();
    assert_eq!(h.salt_len(), 32);
    let record = h.hash("correct horse battery staple").unwrap();
    let phc = PHCData::from_bytes(record.as_bytes()).unwrap();
    assert_eq!(phc.salt.unwrap().len(), 32);
}

#[test]
fn fresh_salts_differ() {
    let hasher = HashBuilder::new()
        .algorithm(Algorithm::Pbkdf2)
        .finalize()
        .unwrap();
    let a = hasher.hash("correct horse battery staple").unwrap();
    let b = hasher.hash("correct horse battery staple").unwrap();
    assert_ne!(a, b);
    let sa = PHCData::from_bytes(a.as_bytes()).unwrap().salt.unwrap();
    assert_eq!(sa.len(), 16);
}

#[test]
fn comparison_through_codes() {
    assert!(codes_match(b"key", b"hash", b"hash"));
    assert!(!codes_match(b"key", b"hash", b"hasi"));
    assert!(!codes_match(b"key", b"hash", b""));
    assert!(codes_match(b"", b"", b""));
    let long_key = vec![7u8; 300];
    assert!(codes_match(&long_key, b"hash", b"hash"));
    assert!(!codes_match(&long_key, b"hash", b"hash "));

    let hasher = HashBuilder::new()
        .algorithm(Algorithm::Pbkdf2)
        .finalize()
        .unwrap();
    let stored = hasher.hash("correct horse battery staple").unwrap();
    let checker = HashBuilder::from_phc(&stored).unwrap();
    for key in [&b""[..], &b"k"[..], &[0u8; 16][..], &[1u8; 200][..]] {
        assert!(checker.is_valid_with("correct horse battery staple", vec![], key));
        assert!(!checker.is_valid_with("correct horse battery stapl", vec![], key));
    }
}

#[test]
fn plain_configurations() {
    let c = PassCfg::init();
    assert_eq!(c.min_len, 8);
    assert_eq!(c.max_len, 128);
    assert_eq!(c.salt_len, 16);
    assert_eq!(c.algorithm, Algorithm::Argon2);
    assert_eq!(c.length_calculation, LengthCalculationMethod::Characters);
    assert_eq!(c.normalization, Normalization::Nfkc);
    assert_eq!(c.standard, PasswordStorageStandard::NoStandard);
    assert_eq!(c.version, 0);
    let n = PassCfg::init_std(PasswordStorageStandard::Nist80063b);
    assert_eq!(n.algorithm, Algorithm::Pbkdf2);
    assert_eq!(n.standard, PasswordStorageStandard::Nist80063b);
    assert_eq!(n.version, 0);

    let read = PassCfg::from_phc(
        "$pbkdf2$norm=nfd,ver=5,pmin=10,pmax=42,len-calc=bytes$AAECAwQFBgc",
    )
    .unwrap();
    assert_eq!(read.min_len, 10);
    assert_eq!(read.max_len, 42);
    assert_eq!(read.salt_len, 8);
    assert_eq!(read.algorithm, Algorithm::Pbkdf2);
    assert_eq!(read.length_calculation, LengthCalculationMethod::Bytes);
    assert_eq!(read.normalization, Normalization::Nfd);
    assert_eq!(read.standard, PasswordStorageStandard::NoStandard);
    assert_eq!(read.version, 4);
    assert_eq!(PassCfg::from_phc("$pbkdf2$ver=0").unwrap().version, 0);

    let mut dest = [0xaau8; 512];
    assert_eq!(
        n.hash("correct horse battery staple", &mut dest),
        ErrorCode::Success
    );
    let end = dest.iter().position(|b| *b == 0).unwrap();
    let record = String::from_utf8(dest[..end].to_vec()).unwrap();
    assert!(record.starts_with("$pbkdf2$norm=nfkc,iter=45000,hash=sha512,"));
    assert!(dest[end + 1..].iter().all(|b| *b == 0xaa));
    assert_eq!(is_valid("correct horse battery staple", &record), 1);
    assert_eq!(is_valid("correct horse battery stapl", &record), 0);

    let mut small = [0xaau8; 64];
    assert_eq!(
        n.hash("correct horse battery staple", &mut small),
        ErrorCode::NotEnoughSpace
    );
    assert!(small.iter().all(|b| *b == 0xaa));
    let mut exact = vec![0xaau8; end];
    assert_eq!(
        n.hash("correct horse battery staple", &mut exact),
        ErrorCode::NotEnoughSpace
    );
    let mut fits = vec![0xaau8; end + 1];
    assert_eq!(
        n.hash("correct horse battery staple", &mut fits),
        ErrorCode::Success
    );
    assert_eq!(fits[end], 0);
    assert_eq!(n.hash("short", &mut dest), ErrorCode::PasswordTooShort);
    let mut none: [u8; 0] = [];
    assert_eq!(
        n.hash("correct horse battery staple", &mut none),
        ErrorCode::NotEnoughSpace
    );
}
