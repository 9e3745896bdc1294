//! Packaging of an encrypted file behind a platform stub binary, and the
//! path and key helpers around it.
//!
//! A sealed file is laid out as
//! `stub ++ DES(len ++ name ++ contents) ++ trailer`, where `len` is one byte
//! holding the length of the UTF-8 file name, and the ten-byte trailer
//! records the stub's length (where the encrypted data starts).

use vstd::prelude::*;
use vstd::slice::{slice_subrange, slice_to_vec};
use vstd::string::*;
use vstd::utf8::{decode_utf8, encode_utf8, encode_utf8_decode_utf8, encode_utf8_valid_utf8, valid_utf8};
use crate::outside::{
    des_decrypt, des_decrypt_bytes, des_encrypt, des_encrypt_bytes, is_uuid_v4_text,
    main_separator, padded_len, random_uuid_text, utf8_text, zero_padded,
};
use crate::text::{after_last, after_last_of, forward_slashes, has_char, with_forward_slashes};
use crate::trailer::{
    cover_usize_to_u8s, law_trailer_round_trip, lemma_trailer_fits_pairs,
    offset_trailer, read_data_offset, trailer_offset,
};

verus! {

/// The 8-byte DES key made from a password: its first eight bytes, filled up
/// with zero bytes when it is shorter.
pub open spec fn key_from(pw: Seq<u8>) -> Seq<u8> {
    Seq::new(8, |i: int| if i < pw.len() { pw[i] } else { 0u8 })
}

/// Converts a password slice to an 8-byte DES key: the first eight bytes,
/// zero-filled when the slice is shorter.
pub fn to_key(slice: &[u8]) -> (key: [u8; 8])
    ensures
        key@ == key_from(slice@),
        forall|i: int| 0 <= i < 8 && i < slice@.len() ==> key@[i] == slice@[i],
        forall|i: int| slice@.len() <= i < 8 ==> key@[i] == 0,
{
    let mut key = [0u8; 8];
    let n = if slice.len() < 8 { slice.len() } else { 8 };
    let mut i: usize = 0;
    while i < n
        invariant
            n <= 8,
            n <= slice@.len(),
            n == slice@.len() || n == 8,
            i <= n,
            key@.len() == 8,
            forall|j: int| 0 <= j < i ==> key@[j] == slice@[j],
            forall|j: int| i <= j < 8 ==> key@[j] == 0,
        decreases n - i,
    {
        key[i] = slice[i];
        i += 1;
    }
    assert(key@ =~= key_from(slice@));
    key
}

/// Puts `slice` in front of the contents of `vec`.
pub fn prepend_slice<T: Copy>(vec: &mut Vec<T>, slice: &[T])
    ensures
        final(vec)@ == slice@ + old(vec)@,
{
    let mut joined: Vec<T> = Vec::with_capacity(slice.len());
    let mut i: usize = 0;
    while i < slice.len()
        invariant
            i <= slice@.len(),
            joined@ == slice@.subrange(0, i as int),
        decreases slice@.len() - i,
    {
        joined.push(slice[i]);
        assert(joined@ =~= slice@.subrange(0, i + 1));
        i += 1;
    }
    let mut j: usize = 0;
    while j < vec.len()
        invariant
            j <= vec@.len(),
            vec@ == old(vec)@,
            joined@ == slice@ + vec@.subrange(0, j as int),
        decreases vec@.len() - j,
    {
        joined.push(vec[j]);
        assert(joined@ =~= slice@ + vec@.subrange(0, j + 1));
        j += 1;
    }
    assert(vec@.subrange(0, vec@.len() as int) =~= vec@);
    *vec = joined;
}

/// The path separator of one convention: `\` on Windows, `/` elsewhere.
pub open spec fn separator(windows: bool) -> Seq<char> {
    if windows {
        seq!['\\']
    } else {
        seq!['/']
    }
}

/// The path separator of the Windows convention (`\`) or the other one (`/`).
pub fn separator_for(windows: bool) -> (sep: &'static str)
    ensures
        sep@ == separator(windows),
{
    proof {
        reveal_strlit("\\");
        reveal_strlit("/");
    }
    if windows {
        "\\"
    } else {
        "/"
    }
}

/// Whether the platform the program was built for separates path components
/// with a backslash. The answer is read from `std::path::MAIN_SEPARATOR`, of
/// which nothing is claimed, so no clause states it; the functions that take
/// the convention as an argument carry the exact contracts.
fn host_is_windows() -> bool {
    main_separator() == '\\'
}

/// The path separator of the current platform.
pub fn path_separator() -> (sep: &'static str)
    ensures
        sep@ == separator(false) || sep@ == separator(true),
{
    separator_for(host_is_windows())
}

/// Whether the current platform is Windows (its separator is `\`). Decided
/// by the build target's separator alone; no clause states which answer.
pub fn is_windows() -> bool {
    host_is_windows()
}

/// A path in the convention of one platform: on Windows every backslash
/// becomes a forward slash; elsewhere the path is unchanged.
pub open spec fn converted_path(path: Seq<char>, windows: bool) -> Seq<char> {
    if windows {
        forward_slashes(path)
    } else {
        path
    }
}

/// Converts path separators for the Windows convention or the other one.
pub fn convert_path_on(path_str: &str, windows: bool) -> (out: String)
    ensures
        out@ == converted_path(path_str@, windows),
{
    if windows {
        with_forward_slashes(path_str)
    } else {
        String::from_str(path_str)
    }
}

/// Converts path separators for the current platform.
pub fn convert_path(path_str: &str) -> (out: String)
    ensures
        out@ == converted_path(path_str@, false) || out@ == converted_path(path_str@, true),
{
    convert_path_on(path_str, host_is_windows())
}

/// The stub binary's file name for a platform id; empty for an unknown id.
pub open spec fn platform_binary(platform: i8) -> Seq<char> {
    if platform == 1 {
        "task_unix"@
    } else if platform == 2 {
        "task.exe"@
    } else if platform == 3 {
        "task_linux"@
    } else if platform == 4 {
        "task_linux_arm64"@
    } else {
        ""@
    }
}

/// Gets the stub binary's file name for a platform id
/// (1 macOS, 2 Windows x86_64, 3 Linux x86_64, 4 Linux ARM64).
pub fn get_platform_binary(platform: i8) -> (name: &'static str)
    ensures
        name@ == platform_binary(platform),
{
    match platform {
        1 => "task_unix",
        2 => "task.exe",
        3 => "task_linux",
        4 => "task_linux_arm64",
        _ => "",
    }
}

/// The file name part of a path, given the platform's separator `sep`: what
/// follows the last `sep` if there is one, else what follows the last `/`,
/// else what follows the last `\`, else the whole path.
pub open spec fn file_name_of(path: Seq<char>, sep: char) -> Seq<char> {
    if path.contains(sep) {
        after_last(path, sep)
    } else if path.contains('/') {
        after_last(path, '/')
    } else if path.contains('\\') {
        after_last(path, '\\')
    } else {
        path
    }
}

/// Extracts the file name from a path, with `sep` as the platform's separator.
pub fn extract_filename_on(filepath: &str, sep: char) -> (name: String)
    ensures
        name@ == file_name_of(filepath@, sep),
{
    if has_char(filepath, sep) {
        after_last_of(filepath, sep)
    } else if has_char(filepath, '/') {
        after_last_of(filepath, '/')
    } else if has_char(filepath, '\\') {
        after_last_of(filepath, '\\')
    } else {
        String::from_str(filepath)
    }
}

/// Extracts the file name from a path, with the current platform's separator.
pub fn extract_filename(filepath: &str) -> (name: String)
    ensures
        name@ == file_name_of(filepath@, '/') || name@ == file_name_of(filepath@, '\\'),
{
    let sep = if host_is_windows() { '\\' } else { '/' };
    extract_filename_on(filepath, sep)
}

/// Why a sealed file or a decrypted payload could not be opened.
#[derive(PartialEq, Eq, Structural, Clone, Copy, Debug)]
pub enum UnsealError {
    /// The file is shorter than the ten-byte trailer.
    FileTooSmall,
    /// The trailer does not spell a data offset.
    BadIndex,
    /// The data offset leaves no encrypted data before the trailer.
    BadLayout,
    /// Decryption gave no bytes.
    EmptyData,
    /// The decrypted data is shorter than its file name length claims.
    BadData,
    /// The file name in the decrypted data is not UTF-8.
    BadFilename,
}

/// The message that describes each error.
pub open spec fn error_message(e: UnsealError) -> Seq<char> {
    match e {
        UnsealError::FileTooSmall => "File too small to contain index"@,
        UnsealError::BadIndex => "Failed to parse data index"@,
        UnsealError::BadLayout => "Invalid encrypted file format"@,
        UnsealError::EmptyData => "Decrypted data is empty"@,
        UnsealError::BadData => "Invalid decrypted data format"@,
        UnsealError::BadFilename => "Invalid filename in decrypted data"@,
    }
}

impl UnsealError {
    /// The error's message, as the command-line tool prints it.
    pub fn message(&self) -> (text: String)
        ensures
            text@ == error_message(*self),
    {
        match self {
            UnsealError::FileTooSmall => String::from_str("File too small to contain index"),
            UnsealError::BadIndex => String::from_str("Failed to parse data index"),
            UnsealError::BadLayout => String::from_str("Invalid encrypted file format"),
            UnsealError::EmptyData => String::from_str("Decrypted data is empty"),
            UnsealError::BadData => String::from_str("Invalid decrypted data format"),
            UnsealError::BadFilename => String::from_str("Invalid filename in decrypted data"),
        }
    }
}

/// The plain payload that is encrypted: one byte with the length of the
/// file name's UTF-8 bytes (modulo 256), the name's bytes, then the contents.
pub open spec fn payload(name: Seq<char>, contents: Seq<u8>) -> Seq<u8> {
    let nb = encode_utf8(name);
    seq![nb.len() as u8] + nb + contents
}

/// The DES key that a password gives: its UTF-8 bytes through `key_from`.
pub open spec fn password_key(password: Seq<char>) -> Seq<u8> {
    key_from(encode_utf8(password))
}

/// The zero bytes that DES adds to a payload of `n` bytes.
pub open spec fn pad_zeros(n: nat) -> Seq<u8> {
    Seq::new((padded_len(n) - n) as nat, |i: int| 0u8)
}

/// What opening a decrypted payload gives: the file name and the data after
/// it, or the error that stops it.
pub open spec fn split_spec(data: Seq<u8>) -> Result<(Seq<char>, Seq<u8>), UnsealError> {
    if data.len() == 0 {
        Err(UnsealError::EmptyData)
    } else if data[0] as int + 1 > data.len() {
        Err(UnsealError::BadData)
    } else {
        let name_bytes = data.subrange(1, data[0] as int + 1);
        if !valid_utf8(name_bytes) {
            Err(UnsealError::BadFilename)
        } else {
            Ok((decode_utf8(name_bytes), data.subrange(data[0] as int + 1, data.len() as int)))
        }
    }
}

/// The views of an opened file name and data.
pub open spec fn opened(r: Result<(String, Vec<u8>), UnsealError>) -> Result<
    (Seq<char>, Seq<u8>),
    UnsealError,
> {
    match r {
        Ok((name, data)) => Ok((name@, data@)),
        Err(e) => Err(e),
    }
}

/// Builds the plain payload: the file name's length byte and bytes in front
/// of the contents.
pub fn build_payload(filename: &str, contents: &[u8]) -> (data: Vec<u8>)
    ensures
        data@ == payload(filename@, contents@),
{
    let mut result = slice_to_vec(contents);
    let merge_data = filename.as_bytes();
    prepend_slice(&mut result, merge_data);
    result.insert(0, merge_data.len() as u8);
    assert(result@ =~= payload(filename@, contents@));
    result
}

/// Splits a decrypted payload into the file name and the data after it.
pub fn split_payload(data: &[u8]) -> (r: Result<(String, Vec<u8>), UnsealError>)
    ensures
        opened(r) == split_spec(data@),
{
    if data.len() == 0 {
        return Err(UnsealError::EmptyData);
    }
    let filename_len = data[0] as usize;
    if filename_len + 1 > data.len() {
        return Err(UnsealError::BadData);
    }
    let filename_bytes = slice_subrange(data, 1, filename_len + 1);
    match utf8_text(filename_bytes) {
        None => Err(UnsealError::BadFilename),
        Some(text) => {
            proof {
                encode_utf8_decode_utf8(text@);
            }
            let filename = String::from_str(text);
            let file_data = slice_to_vec(slice_subrange(data, filename_len + 1, data.len()));
            Ok((filename, file_data))
        },
    }
}

/// Encrypts a file name and contents under a password.
pub fn seal_payload(filename: &str, contents: &[u8], password: &str) -> (cipher: Vec<u8>)
    ensures
        cipher@ == des_encrypt(payload(filename@, contents@), password_key(password@)),
        encode_utf8(filename@).len() <= 255 ==> split_spec(
            des_decrypt(cipher@, password_key(password@)),
        ) == Ok::<(Seq<char>, Seq<u8>), UnsealError>(
            (
                filename@,
                contents@ + pad_zeros(payload(filename@, contents@).len()),
            ),
        ),
{
    let data = build_payload(filename, contents);
    let key = to_key(password.as_bytes());
    let cipher = des_encrypt_bytes(data.as_slice(), &key);
    proof {
        if encode_utf8(filename@).len() <= 255 {
            lemma_split_padded_payload(filename@, contents@);
        }
    }
    cipher
}

/// Opening the zero-filled payload gives back the name and the zero-filled
/// contents, when the name's bytes fit the length byte.
proof fn lemma_split_padded_payload(name: Seq<char>, contents: Seq<u8>)
    requires
        encode_utf8(name).len() <= 255,
    ensures
        split_spec(zero_padded(payload(name, contents))) == Ok::<
            (Seq<char>, Seq<u8>),
            UnsealError,
        >((name, contents + pad_zeros(payload(name, contents).len()))),
{
    let nb = encode_utf8(name);
    let p = payload(name, contents);
    let data = zero_padded(p);
    let zs = pad_zeros(p.len());
    assert(data =~= seq![nb.len() as u8] + nb + (contents + zs));
    assert(data[0] == nb.len() as u8);
    assert(data.subrange(1, nb.len() as int + 1) =~= nb);
    encode_utf8_valid_utf8(name);
    encode_utf8_decode_utf8(name);
    assert(data.subrange(nb.len() as int + 1, data.len() as int) =~= contents + zs);
}

/// Decrypts a payload under a password and splits it into the file name and
/// the data after it.
pub fn open_payload(cipher: &[u8], password: &str) -> (r: Result<(String, Vec<u8>), UnsealError>)
    ensures
        opened(r) == split_spec(des_decrypt(cipher@, password_key(password@))),
{
    let key = to_key(password.as_bytes());
    let data = des_decrypt_bytes(cipher, &key);
    split_payload(data.as_slice())
}

/// The sealed file for a stub binary, a file name, contents and a password.
pub open spec fn sealed(
    name: Seq<char>,
    contents: Seq<u8>,
    password: Seq<char>,
    stub: Seq<u8>,
) -> Seq<u8> {
    stub + des_encrypt(payload(name, contents), password_key(password)) + offset_trailer(
        stub.len(),
        2,
    )
}

/// What opening a sealed file gives: the file name and data, or the error
/// that stops it.
pub open spec fn unseal_spec(file: Seq<u8>, password: Seq<char>) -> Result<
    (Seq<char>, Seq<u8>),
    UnsealError,
> {
    if file.len() < 10 {
        Err(UnsealError::FileTooSmall)
    } else {
        match trailer_offset(file.subrange(file.len() - 10, file.len() as int)) {
            None => Err(UnsealError::BadIndex),
            Some(start) => if start >= file.len() - 10 {
                Err(UnsealError::BadLayout)
            } else {
                split_spec(
                    des_decrypt(
                        file.subrange(start as int, file.len() - 10),
                        password_key(password),
                    ),
                )
            },
        }
    }
}

/// Seals a file: the stub binary, then the encrypted payload, then the
/// trailer that records where the payload starts.
pub fn seal(filename: &str, contents: &[u8], password: &str, stub: Vec<u8>) -> (file: Vec<u8>)
    ensures
        file@ == sealed(filename@, contents@, password@, stub@),
        encode_utf8(filename@).len() <= 255 ==> unseal_spec(
            file@,
            password@,
        ) == Ok::<(Seq<char>, Seq<u8>), UnsealError>(
            (
                filename@,
                contents@ + pad_zeros(payload(filename@, contents@).len()),
            ),
        ),
{
    let data = build_payload(filename, contents);
    let key = to_key(password.as_bytes());
    let cipher = des_encrypt_bytes(data.as_slice(), &key);
    let mut base_file = stub;
    let de_code_index = base_file.len();
    let mut i: usize = 0;
    while i < cipher.len()
        invariant
            i <= cipher@.len(),
            base_file@ == stub@ + cipher@.subrange(0, i as int),
            de_code_index == stub@.len(),
        decreases cipher@.len() - i,
    {
        base_file.push(cipher[i]);
        assert(base_file@ =~= stub@ + cipher@.subrange(0, i + 1));
        i += 1;
    }
    assert(cipher@.subrange(0, cipher@.len() as int) =~= cipher@);
    proof {
        lemma_trailer_fits_pairs(de_code_index);
    }
    let index_bytes = cover_usize_to_u8s(de_code_index, 2);
    let ghost before = base_file@;
    let mut k: usize = 0;
    while k < 10
        invariant
            k <= 10,
            index_bytes@.len() == 10,
            base_file@ == before + index_bytes@.subrange(0, k as int),
        decreases 10 - k,
    {
        base_file.push(index_bytes[k]);
        assert(base_file@ =~= before + index_bytes@.subrange(0, k + 1));
        k += 1;
    }
    assert(index_bytes@.subrange(0, 10) =~= index_bytes@);
    proof {
        let file = base_file@;
        if encode_utf8(filename@).len() <= 255 {
            law_trailer_round_trip(de_code_index);
            let n = file.len();
            assert(file.subrange(n - 10, n as int) =~= index_bytes@);
            assert(cipher@.len() >= 8);
            assert(file.subrange(de_code_index as int, n - 10) =~= cipher@);
            lemma_split_padded_payload(filename@, contents@);
        }
    }
    base_file
}

/// Opens a sealed file: reads the data offset from the trailer, decrypts the
/// data between it and the trailer, and splits off the file name.
pub fn unseal(file: &[u8], password: &str) -> (r: Result<(String, Vec<u8>), UnsealError>)
    ensures
        opened(r) == unseal_spec(file@, password@),
{
    if file.len() < 10 {
        return Err(UnsealError::FileTooSmall);
    }
    let end = file.len() - 10;
    let start = match read_data_offset(slice_subrange(file, end, file.len())) {
        Some(start) => start,
        None => return Err(UnsealError::BadIndex),
    };
    if start >= end {
        return Err(UnsealError::BadLayout);
    }
    open_payload(slice_subrange(file, start, end), password)
}

/// An output file name: a UUID text, with `.exe` added for a Windows target.
pub open spec fn named_output(uuid: Seq<char>, windows_target: bool) -> Seq<char> {
    if windows_target {
        uuid + ".exe"@
    } else {
        uuid
    }
}

/// A fresh random output file name: a version-4 UUID in hyphenated lower-case
/// text, with `.exe` added when the target platform is Windows.
pub fn output_file_name(is_windows_target: bool) -> (name: String)
    ensures
        is_uuid_v4_text(name@.take(36)),
        name@ == named_output(name@.take(36), is_windows_target),
{
    let mut out_name = random_uuid_text();
    let ghost uuid = out_name@;
    if is_windows_target {
        out_name.append(".exe");
    }
    assert(out_name@.take(36) =~= uuid);
    out_name
}

/// The path of a file `name` in directory `dir`, for one platform convention.
pub open spec fn output_path_spec(dir: Seq<char>, name: Seq<char>, windows: bool) -> Seq<char> {
    converted_path(dir, windows) + separator(windows) + name
}

/// Joins an output directory and a file name for the Windows convention or
/// the other one.
pub fn output_path_on(output_dir: &str, filename: &str, windows: bool) -> (path: String)
    ensures
        path@ == output_path_spec(output_dir@, filename@, windows),
{
    let mut path = convert_path_on(output_dir, windows);
    path.append(separator_for(windows));
    path.append(filename);
    path
}

/// Joins an output directory and a file name for the current platform.
pub fn output_path(output_dir: &str, filename: &str) -> (path: String)
    ensures
        path@ == output_path_spec(output_dir@, filename@, false) || path@ == output_path_spec(
            output_dir@,
            filename@,
            true,
        ),
{
    output_path_on(output_dir, filename, host_is_windows())
}

} // verus!
