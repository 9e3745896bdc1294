use file_encryption::gui::{decrypt_enabled, encrypt_enabled, passwords_mismatch, Mode, Status};
use file_encryption::generate_the_string;
use file_encryption::platform::Platform;
use file_encryption::self_release::{
    _is_win_os_, convert_path, convert_spell, generate_the_string as release_generate,
    get_platform, stub_path_for,
};
use file_encryption::text::{after_last_of, has_char, replace_all, with_forward_slashes};

#[test]
fn generate_the_string_cases() {
    assert_eq!(generate_the_string(4), "aaab");
    assert_eq!(generate_the_string(1), "a");
    assert_eq!(generate_the_string(2), "ab");
    assert_eq!(generate_the_string(7), "aaaaaaa");
    assert_eq!(generate_the_string(0), "b");
    assert_eq!(generate_the_string(-2), "b");
    assert_eq!(generate_the_string(-3), "");
    assert_eq!(release_generate(3), "aaa");
}

#[test]
fn generate_the_string_has_n_characters() {
    for n in 1..40 {
        assert_eq!(generate_the_string(n).len(), n as usize);
    }
}

#[test]
fn platform_ids_labels() {
    assert_eq!(Platform::MacOS.id(), 1);
    assert_eq!(Platform::Windows.id(), 2);
    assert_eq!(Platform::Linux.id(), 3);
    assert_eq!(Platform::LinuxARM64.id(), 4);
    assert_eq!(Platform::MacOS.label(), "macOS (x86/ARM)");
    assert_eq!(Platform::Windows.label(), "Windows (x86_64)");
    assert_eq!(Platform::Linux.label(), "Linux (x86_64)");
    assert_eq!(Platform::LinuxARM64.label(), "Linux (ARM64)");
    assert!(Platform::Windows.is_windows());
    assert!(!Platform::Linux.is_windows());
}

#[test]
fn platform_binary_is_exe_only_for_windows() {
    for p in [Platform::MacOS, Platform::Windows, Platform::Linux, Platform::LinuxARM64] {
        let b = file_encryption::crypto::get_platform_binary(p.id());
        assert!(!b.is_empty());
        assert_eq!(b == "task.exe", p.is_windows());
    }
}

#[test]
fn release_helpers() {
    assert_eq!(get_platform(1), "task_unix");
    assert_eq!(get_platform(2), "task.exe");
    assert_eq!(get_platform(3), "task_linux");
    assert_eq!(get_platform(4), "");
    let s = convert_spell();
    assert!(s == "/" || s == "\\");
    assert_eq!(_is_win_os_(), s == "\\");
    let p = convert_path("a\\b");
    assert!(p == "a/b" || p == "a\\b");
}

#[test]
fn stub_paths() {
    assert_eq!(stub_path_for("/opt/bin/task_unix", false, 3), "/opt/bin/task_linux");
    assert_eq!(stub_path_for("/opt/bin/task_unix", false, 2), "/opt/bin/task.exe");
    assert_eq!(stub_path_for("/opt/bin/task_unix", false, 1), "/opt/bin/task_unix");
    assert_eq!(stub_path_for("/opt/bin/task_unix", false, 4), "/opt/bin/task_unix");
    assert_eq!(stub_path_for("C:\\bin\\task.exe", true, 1), "C:\\bin\\task_unix");
    assert_eq!(stub_path_for("C:\\bin\\task.exe", true, 2), "C:\\bin\\task.exe");
    assert_eq!(stub_path_for("C:\\bin\\task.exe", true, 3), "C:\\bin\\task_linux");
}

#[test]
fn text_helpers() {
    assert!(has_char("a/b", '/'));
    assert!(!has_char("ab", '/'));
    assert_eq!(after_last_of("a/b/c", '/'), "c");
    assert_eq!(after_last_of("abc", '/'), "abc");
    assert_eq!(with_forward_slashes("\\a\\\\b"), "/a//b");
    assert_eq!(replace_all("aaaa", "aa", "b"), "bb");
    assert_eq!(replace_all("aaa", "aa", "b"), "ba");
    assert_eq!(replace_all("xtask_unixtask_unix", "task_unix", "t"), "xtt");
    assert_eq!(replace_all("", "a", "b"), "");
}

#[test]
fn gui_rules() {
    assert!(encrypt_enabled(false, "f", "o", "pw", "pw"));
    assert!(!encrypt_enabled(true, "f", "o", "pw", "pw"));
    assert!(!encrypt_enabled(false, "", "o", "pw", "pw"));
    assert!(!encrypt_enabled(false, "f", "o", "pw", "px"));
    assert!(!encrypt_enabled(false, "f", "o", "", ""));
    assert!(decrypt_enabled(false, "f", "o", "pw"));
    assert!(!decrypt_enabled(false, "f", "", "pw"));
    assert!(passwords_mismatch("a", "b"));
    assert!(!passwords_mismatch("a", ""));
    assert!(!passwords_mismatch("ab", "ab"));

    let r = Status::ready();
    assert_eq!(r.message, "Ready");
    assert_eq!(r.color(), (100, 255, 100));
    let b = Status::begin(Mode::Encrypt);
    assert_eq!(b.message, "Encrypting...");
    assert!(b.is_busy);
    assert_eq!(b.color(), (255, 200, 80));
    assert_eq!(Status::begin(Mode::Decrypt).message, "Decrypting...");
    let ok = Status::finish(Mode::Encrypt, Ok(String::from("x.exe")));
    assert_eq!(ok.message, "Encrypted: x.exe");
    assert!(!ok.is_busy && !ok.is_error);
    let okd = Status::finish(Mode::Decrypt, Ok(String::from("/tmp/a")));
    assert_eq!(okd.message, "Decrypted: /tmp/a");
    let err = Status::finish(Mode::Decrypt, Err(String::from("boom")));
    assert_eq!(err.message, "Error: boom");
    assert!(err.is_error);
    assert_eq!(err.color(), (255, 100, 100));
}
