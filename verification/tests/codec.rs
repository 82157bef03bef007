use libreauth::pass::params::ParamMap;
use libreauth::pass::phc::{
    is_b64, is_id_char, is_param_name_char, is_param_value_char, PHCData,
};

fn parse(text: &str) -> Result<PHCData, ()> {
    PHCData::from_bytes(text.as_bytes())
}

fn rewrite(text: &str) -> String {
    parse(text).unwrap().to_string().unwrap()
}

#[test]
fn canonical_records_are_written_back() {
    let data = [
        "$test",
        "$test$i=42",
        "$test$i=42$YXN1cmUu$YW55IGNhcm5hbCBwbGVhc3Vy",
        "$pbkdf2$i=1000$RSF4Aw$xvdfA4H7QJQ1w/4jGcjBEIjCvsc",
        "$a-1$b=2,a=1,c-d=./+x$/w$+/8",
    ];
    for d in data.iter() {
        assert_eq!(rewrite(d), d.to_string());
        assert_eq!(rewrite(&rewrite(d)), d.to_string());
    }
}

#[test]
fn dangling_segments_are_dropped() {
    assert_eq!(rewrite("$test$"), "$test");
    assert_eq!(rewrite("$test$$YXN1cmUu$"), "$test$$YXN1cmUu");
    assert_eq!(rewrite("$test$i=42,"), "$test$i=42");
    assert_eq!(rewrite("$test$i=42,$YXN1cmUu"), "$test$i=42$YXN1cmUu");
}

#[test]
fn parameters_keep_their_order() {
    let phc = parse("$t$zz=1,aa=2,mm=3").unwrap();
    assert_eq!(phc.parameters.len(), 3);
    assert_eq!(phc.parameters.key_at(0), "zz");
    assert_eq!(phc.parameters.key_at(1), "aa");
    assert_eq!(phc.parameters.key_at(2), "mm");
    assert_eq!(phc.parameters.value_at(1), "2");
    assert_eq!(phc.to_string().unwrap(), "$t$zz=1,aa=2,mm=3");
}

#[test]
fn a_repeated_name_takes_the_later_value() {
    let phc = parse("$t$a=1,b=2,a=3").unwrap();
    assert_eq!(phc.parameters.len(), 2);
    assert_eq!(phc.parameters.get("a").unwrap(), "3");
    assert_eq!(phc.parameters.get("b").unwrap(), "2");
    assert_eq!(phc.to_string().unwrap(), "$t$a=3,b=2");
}

#[test]
fn segments_are_decoded() {
    let phc = parse("$t$$/w$+/8").unwrap();
    assert_eq!(phc.salt, Some(vec![0xff]));
    assert_eq!(phc.hash, Some(vec![0xfb, 0xff]));
    let phc = parse("$t$$AQID$AAECAwQFBgcICQoLDA0ODw").unwrap();
    assert_eq!(phc.salt, Some(vec![1, 2, 3]));
    assert_eq!(
        phc.hash,
        Some(vec![0, 1, 2, 3, 4, 5, 6, 7, 8, 9, 10, 11, 12, 13, 14, 15])
    );
}

#[test]
fn a_segment_that_is_no_encoding_is_absent() {
    // one character cannot encode a byte
    let phc = parse("$t$$Q").unwrap();
    assert_eq!(phc.salt, None);
    assert_eq!(phc.to_string().unwrap(), "$t");
    // the last character holds bits that belong to no byte
    let phc = parse("$t$$QR").unwrap();
    assert_eq!(phc.salt, None);
    let phc = parse("$t$$QUJ").unwrap();
    assert_eq!(phc.salt, None);
    let phc = parse("$t$$QUI").unwrap();
    assert_eq!(phc.salt, Some(vec![0x41, 0x42]));
    // five characters
    let phc = parse("$t$$QUJDR").unwrap();
    assert_eq!(phc.salt, None);
}

#[test]
fn a_hash_without_a_salt_is_not_written() {
    let phc = parse("$t$i=1$Q$QUJD").unwrap();
    assert_eq!(phc.salt, None);
    assert_eq!(phc.hash, Some(vec![0x41, 0x42, 0x43]));
    assert_eq!(phc.to_string().unwrap(), "$t$i=1");
    let phc = PHCData {
        id: "t".to_string(),
        parameters: ParamMap::new(),
        salt: None,
        hash: Some(vec![1]),
    };
    assert_eq!(phc.to_string().unwrap(), "$t");
}

#[test]
fn padding_and_foreign_bytes_are_refused() {
    let data = [
        "$test$i=42$YXN1cmU=",
        "$test$$YQ==",
        "$test$$YXN1cmUu$YQ==",
        "$test$$YXN1 cmUu",
        "$Test",
        "$test$I=42",
        "$test$i=4_2",
        "$test$i=42;j=3",
        "$test$i=42$YXN1cmUu$YXN1$YXN1",
        "test",
        "$t\u{e9}st",
    ];
    for s in data.iter() {
        assert!(parse(s).is_err(), "{}", s);
    }
    assert!(PHCData::from_bytes(&[0x24, 0x61, 0xff]).is_err());
    assert!(PHCData::from_bytes(&[0x24, 0x61, 0x00]).is_err());
}

#[test]
fn a_record_is_written_from_its_parts() {
    let mut parameters = ParamMap::new();
    parameters.insert("i".to_string(), "42".to_string());
    parameters.insert("mem".to_string(), "12".to_string());
    let phc = PHCData {
        id: "dummy".to_string(),
        parameters,
        salt: Some(vec![0x61, 0x73, 0x75, 0x72, 0x65, 0x2e]),
        hash: Some(vec![0xff, 0xfe]),
    };
    assert_eq!(phc.to_string().unwrap(), "$dummy$i=42,mem=12$YXN1cmUu$//4");
    let phc = PHCData {
        id: "dummy".to_string(),
        parameters: ParamMap::new(),
        salt: Some(vec![0]),
        hash: None,
    };
    assert_eq!(phc.to_string().unwrap(), "$dummy$$AA");
}

#[test]
fn a_record_without_identifier_is_not_written() {
    let phc = PHCData {
        id: String::new(),
        parameters: ParamMap::new(),
        salt: Some(vec![1, 2, 3]),
        hash: None,
    };
    assert_eq!(phc.to_string(), Err(()));
}

#[test]
fn character_classes() {
    for c in 0u8..=255 {
        let lower = c.is_ascii_lowercase();
        let upper = c.is_ascii_uppercase();
        let digit = c.is_ascii_digit();
        assert_eq!(is_id_char(c), lower || digit || c == b'-');
        assert_eq!(is_param_name_char(c), lower || digit || c == b'-');
        assert_eq!(
            is_param_value_char(c),
            lower || upper || digit || c == b'+' || c == b'-' || c == b'.' || c == b'/'
        );
        assert_eq!(is_b64(c), lower || upper || digit || c == b'+' || c == b'/');
    }
}

#[test]
fn parameter_maps() {
    let mut p = ParamMap::new();
    assert!(p.is_empty());
    p.insert("b".to_string(), "1".to_string());
    p.insert("a".to_string(), "2".to_string());
    p.insert("b".to_string(), "3".to_string());
    assert_eq!(p.len(), 2);
    assert_eq!(p.key_at(0), "b");
    assert_eq!(p.value_at(0), "3");
    assert_eq!(p.key_at(1), "a");
    assert!(p.contains_key("a"));
    assert!(!p.contains_key("c"));
    assert_eq!(p.get("c"), None);
    let q = p.clone();
    assert_eq!(p.remove("b"), Some("3".to_string()));
    assert_eq!(p.remove("b"), None);
    assert_eq!(p.len(), 1);
    assert_eq!(p.key_at(0), "a");
    assert_eq!(q.len(), 2);
    assert_eq!(q.get("b").unwrap(), "3");
}
