use file_content::content::file_content_result;
use file_content::utf8::is_valid_utf8;
use file_content::utf8::utf8_text;

const UTF8_NOTE: &str = "stream did not contain valid UTF-8";

#[test]
fn hello_bytes_decode_to_hello() {
    let reply = file_content_result(Ok(b"hello".to_vec()));
    assert_eq!(reply, Ok(String::from("hello")));
}

#[test]
fn empty_file_decodes_to_empty_string() {
    let reply = file_content_result(Ok(Vec::new()));
    assert_eq!(reply, Ok(String::new()));
}

#[test]
fn absent_path_note_is_passed_through() {
    let note = String::from("No such file or directory (os error 2)");
    let reply = file_content_result(Err(note.clone()));
    assert_eq!(reply, Err(note.clone()));
    let text = reply.unwrap_err();
    assert!(!text.is_empty());
    assert!(text.contains("No such file"));
}

#[test]
fn directory_note_is_passed_through() {
    let note = String::from("Is a directory (os error 21)");
    let reply = file_content_result(Err(note.clone()));
    assert_eq!(reply, Err(note));
    assert!(!file_content_result(Err(String::from("Is a directory (os error 21)")))
        .unwrap_err()
        .is_empty());
}

#[test]
fn invalid_bytes_fail_with_decoding_note() {
    let reply = file_content_result(Ok(vec![0xff, 0xfe, 0xfd]));
    assert_eq!(reply, Err(String::from(UTF8_NOTE)));
    let text = reply.unwrap_err();
    assert!(text.contains("UTF-8"));
    // No partial content: the note carries nothing of the input bytes.
    assert!(!text.contains('\u{fffd}'));
}

#[test]
fn two_byte_scalar_decodes_to_three_code_points() {
    let reply = file_content_result(Ok(vec![0xc3, 0xa9, 0x0a, 0x0a]));
    let text = reply.unwrap();
    assert_eq!(text, "\u{e9}\n\n");
    assert_eq!(text.chars().count(), 3);
}

#[test]
fn same_bytes_give_byte_identical_replies() {
    let bytes = vec![0xf0, 0x9f, 0x92, 0x96, 0x68, 0x69];
    let first = file_content_result(Ok(bytes.clone()));
    let second = file_content_result(Ok(bytes));
    assert_eq!(first, second);
    assert_eq!(first.unwrap().as_bytes(), second.unwrap().as_bytes());
}

#[test]
fn decoded_text_is_not_the_raw_bytes() {
    // A decode that handed the two input bytes through unchanged would give
    // two code points; strict UTF-8 decoding gives the single scalar U+00E9.
    let text = utf8_text(vec![0xc3, 0xa9]).unwrap();
    assert_eq!(text, "\u{e9}");
    assert_eq!(text.chars().count(), 1);
    assert_ne!(text, "\u{c3}\u{a9}");
}

#[test]
fn validator_accepts_boundary_scalars() {
    let valid: [&[u8]; 9] = [
        b"",
        &[0x00],
        &[0x7f],
        &[0xc2, 0x80],
        &[0xdf, 0xbf],
        &[0xe0, 0xa0, 0x80],
        &[0xed, 0x9f, 0xbf],
        &[0xf0, 0x90, 0x80, 0x80],
        &[0xf4, 0x8f, 0xbf, 0xbf],
    ];
    for bytes in valid {
        assert!(is_valid_utf8(&bytes.to_vec()), "rejected {bytes:02x?}");
    }
}

#[test]
fn validator_rejects_malformed_sequences() {
    let invalid: [&[u8]; 12] = [
        &[0x80],
        &[0xbf],
        &[0xc0, 0x80],
        &[0xc1, 0xbf],
        &[0xe0, 0x9f, 0xbf],
        &[0xed, 0xa0, 0x80],
        &[0xf0, 0x8f, 0xbf, 0xbf],
        &[0xf4, 0x90, 0x80, 0x80],
        &[0xf5, 0x80, 0x80, 0x80],
        &[0xf8, 0x80, 0x80, 0x80, 0x80],
        &[0xc3],
        &[0xf0, 0x9f, 0x92],
    ];
    for bytes in invalid {
        assert!(!is_valid_utf8(&bytes.to_vec()), "accepted {bytes:02x?}");
    }
}

#[test]
fn validator_agrees_with_std_on_all_two_byte_inputs() {
    for b0 in 0..=255u8 {
        let one = vec![b0];
        assert_eq!(is_valid_utf8(&one), std::str::from_utf8(&one).is_ok());
        for b1 in 0..=255u8 {
            let two = vec![b0, b1];
            assert_eq!(
                is_valid_utf8(&two),
                std::str::from_utf8(&two).is_ok(),
                "disagree on {two:02x?}"
            );
        }
    }
}

#[test]
fn validator_agrees_with_std_on_longer_samples() {
    let leads = [0xe0, 0xe1, 0xed, 0xef, 0xf0, 0xf2, 0xf4, 0xf5];
    let fills = [0x00, 0x7f, 0x80, 0x8f, 0x90, 0x9f, 0xa0, 0xbf, 0xc2, 0xe0, 0xf4, 0xff];
    for l in leads {
        for a in fills {
            for b in fills {
                for c in fills {
                    let v = vec![l, a, b, c];
                    assert_eq!(
                        is_valid_utf8(&v),
                        std::str::from_utf8(&v).is_ok(),
                        "disagree on {v:02x?}"
                    );
                }
            }
        }
    }
}

#[test]
fn decode_agrees_with_std_on_mixed_text() {
    let samples: [&[u8]; 5] = [
        b"plain ascii",
        &[0xc3, 0xa9, 0x20, 0xe2, 0x82, 0xac, 0x20, 0xf0, 0x9f, 0x92, 0x96],
        &[0xed, 0x9f, 0xbf, 0xee, 0x80, 0x80],
        &[0x00, 0x01, 0x7f],
        &[0xf4, 0x8f, 0xbf, 0xbf, 0x0a],
    ];
    for bytes in samples {
        let text = utf8_text(bytes.to_vec()).expect("sample is valid");
        assert_eq!(text, std::str::from_utf8(bytes).unwrap());
    }
}

#[test]
fn truncated_tail_returns_no_text() {
    assert_eq!(utf8_text(vec![0x61, 0x62, 0xe2, 0x82]), None);
}
