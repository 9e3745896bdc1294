//! Properties that relate the library's functions to one another.

use vstd::prelude::*;
use vstd::utf8::{encode_utf8, encode_utf8_decode_utf8, encode_utf8_valid_utf8};
use crate::crypto::{
    converted_path, file_name_of, key_from, payload, platform_binary, split_spec, UnsealError,
};
use crate::gui::{decrypt_ready, encrypt_ready, mismatch_shown};
use crate::odd_counts_text;
use crate::platform::{platform_id, Platform};
use crate::self_release::known_platform;
use crate::text::{after_last, forward_slashes};

verus! {

/// Law: a payload opens to the name and contents it was built from, whenever
/// the name's UTF-8 bytes fit the one-byte length field.
pub proof fn law_payload_round_trip(name: Seq<char>, contents: Seq<u8>)
    requires
        encode_utf8(name).len() <= 255,
    ensures
        split_spec(payload(name, contents)) == Ok::<(Seq<char>, Seq<u8>), UnsealError>(
            (name, contents),
        ),
{
    let nb = encode_utf8(name);
    let p = payload(name, contents);
    assert(p[0] == nb.len() as u8);
    assert(p.subrange(1, nb.len() as int + 1) =~= nb);
    assert(p.subrange(nb.len() as int + 1, p.len() as int) =~= contents);
    encode_utf8_valid_utf8(name);
    encode_utf8_decode_utf8(name);
}

/// Law: every platform has a stub binary, and the stub is the Windows
/// executable `task.exe` exactly for the Windows platform.
pub proof fn law_platform_binaries(p: Platform)
    ensures
        platform_binary(platform_id(p)).len() > 0,
        (platform_binary(platform_id(p)) == "task.exe"@) == (p == Platform::Windows),
{
    reveal_strlit("task_unix");
    reveal_strlit("task.exe");
    reveal_strlit("task_linux");
    reveal_strlit("task_linux_arm64");
    if p != Platform::Windows {
        assert(platform_binary(platform_id(p))[4] != "task.exe"@[4]);
    }
}

/// Law: the command-line tool's stub names agree with the library's for
/// every platform id the tool knows (1, 2 and 3), and it knows no other.
pub proof fn law_known_platforms(id: i8)
    ensures
        1 <= id <= 3 ==> known_platform(id) == platform_binary(id),
        !(1 <= id <= 3) ==> known_platform(id).len() == 0,
{
    reveal_strlit("");
}

/// Law: a path converted for Windows holds no backslash, and converting a
/// converted path again changes nothing.
pub proof fn law_converted_path(path: Seq<char>, windows: bool)
    ensures
        windows ==> !converted_path(path, windows).contains('\\'),
        converted_path(converted_path(path, windows), windows) == converted_path(path, windows),
{
    let c = forward_slashes(path);
    assert forall|i: int| 0 <= i < c.len() implies #[trigger] c[i] != '\\' by {}
    assert(forward_slashes(c) =~= c);
}

/// What follows the last `sep` holds no `sep` and ends `s`.
proof fn lemma_after_last(s: Seq<char>, sep: char)
    ensures
        !after_last(s, sep).contains(sep),
        after_last(s, sep).len() <= s.len(),
        after_last(s, sep) == s.skip(s.len() - after_last(s, sep).len()),
    decreases s.len(),
{
    if s.len() == 0 {
        assert(s.skip(0) =~= s);
    } else if s.last() == sep {
        assert(s.skip(s.len() as int) =~= Seq::<char>::empty());
    } else {
        lemma_after_last(s.drop_last(), sep);
        let r = after_last(s.drop_last(), sep);
        assert(after_last(s, sep) =~= s.skip(s.len() - r.len() - 1));
    }
}

/// Law: the file name extracted from a path holds no separator of the
/// platform, and it is the path's end.
pub proof fn law_file_name(path: Seq<char>, sep: char)
    ensures
        !file_name_of(path, sep).contains(sep),
        file_name_of(path, sep) == path.skip(path.len() - file_name_of(path, sep).len()),
{
    lemma_after_last(path, sep);
    lemma_after_last(path, '/');
    lemma_after_last(path, '\\');
    assert(path.skip(0) =~= path);
}

/// Law: for every positive `n`, `generate_the_string(n)` has `n` characters.
pub proof fn law_odd_counts_length(n: int)
    requires
        n >= 1,
    ensures
        odd_counts_text(n).len() == n,
{
}

/// Law: whenever the Encrypt button is enabled, no password mismatch is
/// shown.
pub proof fn law_enabled_without_mismatch(
    is_busy: bool,
    input_file: Seq<char>,
    output_dir: Seq<char>,
    password: Seq<char>,
    password_confirm: Seq<char>,
)
    ensures
        encrypt_ready(is_busy, input_file, output_dir, password, password_confirm)
            ==> !mismatch_shown(password, password_confirm),
{
}

/// Law: the Encrypt button asks for all that the Decrypt button asks for (no
/// job running, a file, an output directory, a password) and a matching
/// confirmation; in particular it is never enabled without an output
/// directory or an input file.
pub proof fn law_encrypt_button(
    is_busy: bool,
    input_file: Seq<char>,
    output_dir: Seq<char>,
    password: Seq<char>,
    password_confirm: Seq<char>,
)
    ensures
        encrypt_ready(is_busy, input_file, output_dir, password, password_confirm) == (
        decrypt_ready(is_busy, input_file, output_dir, password) && password == password_confirm),
        encrypt_ready(is_busy, input_file, output_dir, password, password_confirm) ==> output_dir.len()
            > 0 && input_file.len() > 0 && password.len() > 0 && !is_busy,
{
}

/// Law: the mismatch warning is shown exactly when both passwords are given
/// and differ; once the Decrypt conditions hold and a confirmation is typed,
/// either the Encrypt button is enabled or the warning is shown, never both.
pub proof fn law_mismatch_warning(
    is_busy: bool,
    input_file: Seq<char>,
    output_dir: Seq<char>,
    password: Seq<char>,
    password_confirm: Seq<char>,
)
    ensures
        password.len() > 0 && password_confirm.len() > 0 && password != password_confirm
            ==> mismatch_shown(password, password_confirm),
        mismatch_shown(password, password_confirm) ==> password != password_confirm,
        decrypt_ready(is_busy, input_file, output_dir, password) && password_confirm.len() > 0
            ==> (encrypt_ready(is_busy, input_file, output_dir, password, password_confirm)
            != mismatch_shown(password, password_confirm)),
{
}

/// Law: the DES key keeps every password byte that fits. A password of at
/// most eight bytes is the key's start, followed by zero bytes; a longer one
/// gives its first eight bytes; so two passwords of the same length up to
/// eight bytes give the same key only when they are equal, and passwords that
/// agree on their first eight bytes give the same key.
pub proof fn law_key_keeps_password(pw: Seq<u8>, other: Seq<u8>)
    ensures
        key_from(pw).len() == 8,
        pw.len() <= 8 ==> key_from(pw) == pw + Seq::new((8 - pw.len()) as nat, |i: int| 0u8),
        pw.len() >= 8 ==> key_from(pw) == pw.take(8),
        pw.len() <= 8 && other.len() == pw.len() && key_from(pw) == key_from(other) ==> pw
            == other,
        pw.len() >= 8 && other.len() >= 8 && pw.take(8) == other.take(8) ==> key_from(pw)
            == key_from(other),
{
    if pw.len() <= 8 {
        assert(key_from(pw) =~= pw + Seq::new((8 - pw.len()) as nat, |i: int| 0u8));
        if other.len() == pw.len() && key_from(pw) == key_from(other) {
            assert forall|i: int| 0 <= i < pw.len() implies pw[i] == other[i] by {
                assert(key_from(pw)[i] == pw[i]);
                assert(key_from(other)[i] == other[i]);
            }
            assert(pw =~= other);
        }
    }
    if pw.len() >= 8 {
        assert(key_from(pw) =~= pw.take(8));
        if other.len() >= 8 && pw.take(8) == other.take(8) {
            assert forall|i: int| 0 <= i < 8 implies key_from(pw)[i] == key_from(other)[i] by {
                assert(pw.take(8)[i] == other.take(8)[i]);
            }
            assert(key_from(pw) =~= key_from(other));
        }
    }
}

} // verus!
