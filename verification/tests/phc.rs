use libreauth::pass::phc::PHCData;

#[test]
fn test_to_string_same() {
    let data = [
        "$test",
        "$test$i=42",
        "$test$$YXN1cmUu",
        "$test$i=42$YXN1cmUu",
        "$test$i=42$YXN1cmUu$YW55IGNhcm5hbCBwbGVhc3Vy",
        "$test$$YXN1cmUu$YW55IGNhcm5hbCBwbGVhc3Vy",
        "$pbkdf2$i=1000$RSF4Aw$xvdfA4H7QJQ1w/4jGcjBEIjCvsc",
        "$pbkdf2-sha256$t-y=./42+a-1$RSF4Aw$xvdfA4H7QJQ1w/4jGcjBEIjCvsc",
        "$pbkdf2$$RSF4Aw",
        "$pbkdf2$i=21000$RSF4Aw$LwCbGeQoBZIraYoDZ8Oe/PxdJHc",
    ];
    for d in data.iter() {
        match PHCData::from_bytes(&d.to_string().into_bytes()) {
            Ok(r) => match r.to_string() {
                Ok(s) => {
                    assert_eq!(s, d.to_string());
                }
                Err(_) => assert!(false),
            },
            Err(_) => assert!(false),
        }
    }
}

#[test]
fn test_to_string_diff() {
    let data = [
        ("$test$", "$test"),
        ("$test$$", "$test"),
        ("$test$$YXN1cmUu$", "$test$$YXN1cmUu"),
        ("$test$i=42$YXN1cmUu$", "$test$i=42$YXN1cmUu"),
    ];
    for &(d, c) in data.iter() {
        match PHCData::from_bytes(&d.to_string().into_bytes()) {
            Ok(r) => match r.to_string() {
                Ok(s) => {
                    assert_eq!(s, c);
                }
                Err(_) => assert!(false),
            },
            Err(_) => assert!(false),
        }
    }
}

#[test]
fn test_valid_data_id() {
    match PHCData::from_bytes(&"$dummy".to_string().into_bytes()) {
        Ok(phc) => {
            assert_eq!(phc.id, "dummy".to_string());
            assert!(phc.parameters.is_empty());
            assert_eq!(phc.salt, None);
            assert_eq!(phc.hash, None);
        }
        Err(_) => assert!(false),
    }
}

#[test]
fn test_valid_data_params() {
    match PHCData::from_bytes(&"$dummy$i=42".to_string().into_bytes()) {
        Ok(phc) => {
            assert_eq!(phc.id, "dummy".to_string());
            assert_eq!(phc.parameters.len(), 1);
            match phc.parameters.get("i") {
                Some(v) => assert_eq!(v, "42"),
                None => assert!(false),
            }
            assert_eq!(phc.salt, None);
            assert_eq!(phc.hash, None);
        }
        Err(_) => assert!(false),
    }
}

#[test]
fn test_valid_data_salt() {
    match PHCData::from_bytes(&"$dummy$i=42$YXN1cmUu".to_string().into_bytes()) {
        Ok(phc) => {
            assert_eq!(phc.id, "dummy".to_string());
            assert_eq!(phc.parameters.len(), 1);
            match phc.parameters.get("i") {
                Some(v) => assert_eq!(v, "42"),
                None => assert!(false),
            }
            match phc.salt {
                Some(p) => assert_eq!(p, vec![0x61, 0x73, 0x75, 0x72, 0x65, 0x2e]),
                None => assert!(false),
            };
            assert_eq!(phc.hash, None);
        }
        Err(_) => assert!(false),
    }
}

#[test]
fn test_valid_data_full() {
    match PHCData::from_bytes(
        &"$dummy$i=42$YXN1cmUu$YW55IGNhcm5hbCBwbGVhc3Vy"
            .to_string()
            .into_bytes(),
    ) {
        Ok(phc) => {
            assert_eq!(phc.id, "dummy".to_string());
            assert_eq!(phc.parameters.len(), 1);
            match phc.parameters.get("i") {
                Some(v) => assert_eq!(v, "42"),
                None => assert!(false),
            }
            match phc.salt {
                Some(p) => assert_eq!(p, vec![0x61, 0x73, 0x75, 0x72, 0x65, 0x2e]),
                None => assert!(false),
            };
            match phc.hash {
                Some(p) => assert_eq!(
                    p,
                    vec![
                        0x61, 0x6e, 0x79, 0x20, 0x63, 0x61, 0x72, 0x6e, 0x61, 0x6c, 0x20, 0x70,
                        0x6c, 0x65, 0x61, 0x73, 0x75, 0x72,
                    ]
                ),
                None => assert!(false),
            };
        }
        Err(_) => assert!(false),
    }
}

#[test]
fn test_multiple_params() {
    match PHCData::from_bytes(
        &"$dummy$i=42,plop=asdfg,21=abcd12efg$YXN1cmUu"
            .to_string()
            .into_bytes(),
    ) {
        Ok(phc) => {
            assert_eq!(phc.parameters.len(), 3);
            match phc.parameters.get("i") {
                Some(v) => assert_eq!(v, "42"),
                None => assert!(false),
            }
            match phc.parameters.get("plop") {
                Some(v) => assert_eq!(v, "asdfg"),
                None => assert!(false),
            }
            match phc.parameters.get("21") {
                Some(v) => assert_eq!(v, "abcd12efg"),
                None => assert!(false),
            }
        }
        Err(_) => assert!(false),
    }
}

#[test]
fn test_invalid_data() {
    let data = [
        "",                                               // does not start with $<id>
        "$",                                              // still no id
        "$@zerty",                                        // id must be alphanumerical
        "$test$YXN1cmUu",                                 // parameters may not be ommited
        "$test$=42",                                      // missing parameter name
        "$test$i@=42",           // parameter name must be alphanumerical
        "$test$i=?",             // parameter value must be alphanumerical
        "$test$i",               // missing parameter value and delimiter
        "$test$i=",              // missing parameter value
        "$test$i=$YXN1cmUu",     // missing parameter value
        "$test$i=42$YXN1cmUr%w", // invalid character in salt
        "$test$i=42$YXN1cmUr%w$YW55IGNhcm5hbCBwbGVhc3Vy", // invalid character in salt
        "$test$i=$YXN1cmUu$YW55IGNhcm5hbCBwbGVhc3V=", // no padding allowed
    ];
    for s in data.iter() {
        match PHCData::from_bytes(&s.to_string().into_bytes()) {
            Ok(_) => assert!(false),
            Err(_) => assert!(true),
        }
    }
}
