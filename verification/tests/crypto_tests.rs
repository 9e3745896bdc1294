use file_encryption::crypto::{
    build_payload, convert_path, convert_path_on, extract_filename, extract_filename_on,
    get_platform_binary, is_windows, open_payload, output_file_name, output_path,
    output_path_on, path_separator, prepend_slice, seal, seal_payload, separator_for,
    split_payload, to_key, unseal, UnsealError,
};

#[test]
fn to_key_pads_short_passwords_with_zeros() {
    assert_eq!(to_key(b"abc"), [97, 98, 99, 0, 0, 0, 0, 0]);
    assert_eq!(to_key(b""), [0; 8]);
}

#[test]
fn to_key_keeps_first_eight_bytes() {
    assert_eq!(to_key(b"0123456789"), *b"01234567");
    assert_eq!(to_key(b"rustrust"), *b"rustrust");
}

#[test]
fn prepend_slice_puts_slice_first() {
    let mut v = vec![4, 5];
    prepend_slice(&mut v, &[1, 2, 3]);
    assert_eq!(v, vec![1, 2, 3, 4, 5]);
    let mut e: Vec<u8> = Vec::new();
    prepend_slice(&mut e, &[]);
    assert!(e.is_empty());
}

#[test]
fn platform_binaries() {
    assert_eq!(get_platform_binary(1), "task_unix");
    assert_eq!(get_platform_binary(2), "task.exe");
    assert_eq!(get_platform_binary(3), "task_linux");
    assert_eq!(get_platform_binary(4), "task_linux_arm64");
    assert_eq!(get_platform_binary(0), "");
    assert_eq!(get_platform_binary(-1), "");
}

#[test]
fn separators_follow_the_convention() {
    assert_eq!(separator_for(true), "\\");
    assert_eq!(separator_for(false), "/");
    let sep = path_separator();
    assert!(sep == "/" || sep == "\\");
    assert_eq!(is_windows(), sep == "\\");
}

#[test]
fn convert_path_turns_backslashes_on_windows() {
    assert_eq!(convert_path_on("C:\\t\\t\\t\\", true), "C:/t/t/t/");
    assert_eq!(convert_path_on("C:\\t\\t\\t\\", false), "C:\\t\\t\\t\\");
    assert_eq!(convert_path_on("a/b", true), "a/b");
    assert_eq!(convert_path_on("", true), "");
    let here = convert_path("x\\y");
    assert!(here == "x/y" || here == "x\\y");
}

#[test]
fn extract_filename_takes_the_last_component() {
    assert_eq!(extract_filename_on("/home/u/secret.pdf", '/'), "secret.pdf");
    assert_eq!(extract_filename_on("C:\\docs\\secret.pdf", '/'), "secret.pdf");
    assert_eq!(extract_filename_on("C:\\docs\\secret.pdf", '\\'), "secret.pdf");
    assert_eq!(extract_filename_on("a\\b/c", '\\'), "b/c");
    assert_eq!(extract_filename_on("a/b\\c", '/'), "b\\c");
    assert_eq!(extract_filename_on("secret.pdf", '/'), "secret.pdf");
    assert_eq!(extract_filename_on("dir/", '/'), "");
    assert_eq!(extract_filename_on("/tmp/é.txt", '/'), "é.txt");
    assert_eq!(extract_filename("/a/b.txt"), "b.txt");
}

#[test]
fn payload_layout() {
    assert_eq!(build_payload("ab", &[1, 2]), vec![2, b'a', b'b', 1, 2]);
    assert_eq!(build_payload("", &[]), vec![0]);
    assert_eq!(build_payload("é", &[9]), vec![2, 0xc3, 0xa9, 9]);
}

#[test]
fn split_payload_cases() {
    assert_eq!(
        split_payload(&[2, b'a', b'b', 1, 2]),
        Ok((String::from("ab"), vec![1, 2]))
    );
    assert_eq!(split_payload(&[]), Err(UnsealError::EmptyData));
    assert_eq!(split_payload(&[3, b'a']), Err(UnsealError::BadData));
    assert_eq!(split_payload(&[1, 0xff, 7]), Err(UnsealError::BadFilename));
    assert_eq!(split_payload(&[0]), Ok((String::new(), vec![])));
}

#[test]
fn seal_payload_round_trip_keeps_zero_padding() {
    let cipher = seal_payload("x.txt", &[1, 2, 3], "pw");
    assert_eq!(cipher.len(), 16);
    assert_ne!(cipher, build_payload("x.txt", &[1, 2, 3]));
    let (name, data) = open_payload(&cipher, "pw").unwrap();
    assert_eq!(name, "x.txt");
    assert_eq!(data, vec![1, 2, 3, 0, 0, 0, 0, 0, 0, 0]);
}

#[test]
fn seal_payload_is_des_ecb_with_the_password_key() {
    let a = seal_payload("", &[0, 0, 0, 0, 0, 0, 0], "k");
    let b = seal_payload("", &[0, 0, 0, 0, 0, 0, 0, 0, 0, 0, 0, 0, 0, 0, 0], "k");
    assert_eq!(a.len(), 8);
    assert_eq!(b.len(), 16);
    assert_eq!(&b[..8], &a[..]);
    let c = seal_payload("", &[0, 0, 0, 0, 0, 0, 0], "other");
    assert_ne!(a, c);
}

#[test]
fn seal_then_unseal_gives_name_and_padded_contents() {
    let stub = vec![0x7fu8; 1234];
    let file = seal("report.txt", b"hello world", "secret", stub.clone());
    assert_eq!(&file[..1234], &stub[..]);
    assert_eq!(&file[file.len() - 10..], &[12, 34, 0, 0, 0, 0, 0, 0, 0, 0]);
    assert_eq!(file.len(), 1234 + 24 + 10);
    let (name, data) = unseal(&file, "secret").unwrap();
    assert_eq!(name, "report.txt");
    let mut expected = b"hello world".to_vec();
    expected.extend_from_slice(&[0, 0]);
    assert_eq!(data, expected);
}

#[test]
fn seal_then_unseal_with_empty_contents() {
    let file = seal("a", &[], "", vec![1u8; 7]);
    let (name, data) = unseal(&file, "").unwrap();
    assert_eq!(name, "a");
    assert_eq!(data, vec![0, 0, 0, 0, 0, 0]);
}

#[test]
fn unseal_errors() {
    assert_eq!(unseal(&[1, 2, 3], "pw"), Err(UnsealError::FileTooSmall));
    assert_eq!(unseal(&[0u8; 20], "pw"), Err(UnsealError::BadIndex));
    let mut f = vec![0u8; 5];
    f.extend_from_slice(&[5, 0, 0, 0, 0, 0, 0, 0, 0, 0]);
    assert_eq!(unseal(&f, "pw"), Err(UnsealError::BadLayout));
    let mut g = vec![0u8; 4];
    g.extend_from_slice(&[255; 10]);
    assert_eq!(unseal(&g, "pw"), Err(UnsealError::BadIndex));
}

#[test]
fn seal_then_unseal_behind_stubs_with_zero_led_digit_pairs() {
    // 1005 is written as the groups 10 and 05; 05 is stored as 105.
    let file = seal("n", &[1, 2, 3, 4, 5, 6], "pw", vec![0u8; 1005]);
    assert_eq!(&file[file.len() - 10..], &[10, 105, 0, 0, 0, 0, 0, 0, 0, 0]);
    assert_eq!(unseal(&file, "pw"), Ok((String::from("n"), vec![1, 2, 3, 4, 5, 6])));
    for stub_len in [0usize, 10, 100, 120, 1000, 1234056, 1000000] {
        let file = seal("f", &[9], "k", vec![3u8; stub_len]);
        assert_eq!(unseal(&file, "k"), Ok((String::from("f"), vec![9, 0, 0, 0, 0, 0])));
    }
}

#[test]
fn error_messages() {
    assert_eq!(UnsealError::FileTooSmall.message(), "File too small to contain index");
    assert_eq!(UnsealError::BadIndex.message(), "Failed to parse data index");
    assert_eq!(UnsealError::BadLayout.message(), "Invalid encrypted file format");
    assert_eq!(UnsealError::EmptyData.message(), "Decrypted data is empty");
    assert_eq!(UnsealError::BadData.message(), "Invalid decrypted data format");
    assert_eq!(UnsealError::BadFilename.message(), "Invalid filename in decrypted data");
}

#[test]
fn output_names_are_uuid_texts() {
    let plain = output_file_name(false);
    assert_eq!(plain.len(), 36);
    let exe = output_file_name(true);
    assert_eq!(exe.len(), 40);
    assert!(exe.ends_with(".exe"));
    for name in [&plain, &exe] {
        let chars: Vec<char> = name.chars().collect();
        for (i, c) in chars.iter().take(36).enumerate() {
            if i == 8 || i == 13 || i == 18 || i == 23 {
                assert_eq!(*c, '-');
            } else {
                assert!(c.is_ascii_hexdigit() && !c.is_ascii_uppercase());
            }
        }
        assert_eq!(chars[14], '4');
    }
    assert_ne!(output_file_name(false), output_file_name(false));
}

#[test]
fn output_paths() {
    assert_eq!(output_path_on("C:\\out", "f.txt", true), "C:/out\\f.txt");
    assert_eq!(output_path_on("/tmp/out", "f.txt", false), "/tmp/out/f.txt");
    let p = output_path("/tmp", "f");
    assert!(p == "/tmp/f" || p == "/tmp\\f");
}
