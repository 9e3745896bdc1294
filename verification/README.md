# file_encryption

A file is sealed as `stub ++ DES(len ++ name ++ contents) ++ trailer`: the
platform stub binary, the DES-encrypted payload (one length byte, the UTF-8
file name, the contents), and ten trailer bytes that record where the
payload starts. Run without arguments, the sealed file asks for the password
and writes back the file it carries.

- `src/crypto.rs`: keys, paths, payloads, `seal` and `unseal`.
- `src/trailer.rs`: the offset trailer and its round trip.
- `src/text.rs`, `src/digits.rs`: string and decimal helpers.
- `src/platform.rs`, `src/self_release.rs`: target platforms and stub names.
- `src/gui.rs`: button and status-line rules of the graphical front end.
- `src/outside.rs`: the calls into `des`, `uuid` and std that are trusted.
- `src/laws.rs`: properties relating the functions.
- `app/main.rs`: the command-line tool (file I/O, arguments, stdin).
