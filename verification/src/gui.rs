//! The decisions of the graphical front end: when its buttons are enabled,
//! what its status line says before and after a job, and in which colour.

use vstd::prelude::*;
use vstd::string::*;
use crate::text::same_text;

verus! {

/// What the front end is set up to do.
#[derive(PartialEq, Eq, Structural, Clone, Copy, Debug)]
pub enum Mode {
    Encrypt,
    Decrypt,
}

/// The status line: its text, and whether it reports an error or a job in
/// progress.
pub struct Status {
    pub message: String,
    pub is_error: bool,
    pub is_busy: bool,
}

/// The text of the status line when a job of `mode` starts.
pub open spec fn started_message(mode: Mode) -> Seq<char> {
    match mode {
        Mode::Encrypt => "Encrypting..."@,
        Mode::Decrypt => "Decrypting..."@,
    }
}

/// The text of the status line when a job of `mode` ends with `outcome`.
pub open spec fn finished_message(mode: Mode, outcome: Result<Seq<char>, Seq<char>>) -> Seq<char> {
    match outcome {
        Ok(done) => match mode {
            Mode::Encrypt => "Encrypted: "@ + done,
            Mode::Decrypt => "Decrypted: "@ + done,
        },
        Err(e) => "Error: "@ + e,
    }
}

/// The colour of the status line: red for an error, amber while busy, green
/// otherwise.
pub open spec fn status_rgb(is_error: bool, is_busy: bool) -> (u8, u8, u8) {
    if is_error {
        (255, 100, 100)
    } else if is_busy {
        (255, 200, 80)
    } else {
        (100, 255, 100)
    }
}

impl Status {
    /// The status before any job: "Ready".
    pub fn ready() -> (s: Status)
        ensures
            s.message@ == "Ready"@,
            !s.is_error,
            !s.is_busy,
    {
        Status { message: String::from_str("Ready"), is_error: false, is_busy: false }
    }

    /// The status while a job of `mode` runs.
    pub fn begin(mode: Mode) -> (s: Status)
        ensures
            s.message@ == started_message(mode),
            !s.is_error,
            s.is_busy,
    {
        let message = match mode {
            Mode::Encrypt => String::from_str("Encrypting..."),
            Mode::Decrypt => String::from_str("Decrypting..."),
        };
        Status { message, is_error: false, is_busy: true }
    }

    /// The status after a job of `mode` ended with `outcome`: the output name
    /// or path on success, the error otherwise.
    pub fn finish(mode: Mode, outcome: Result<String, String>) -> (s: Status)
        ensures
            s.message@ == finished_message(
                mode,
                match outcome {
                    Ok(done) => Ok(done@),
                    Err(e) => Err(e@),
                },
            ),
            s.is_error == outcome is Err,
            !s.is_busy,
    {
        match outcome {
            Ok(done) => {
                let mut message = match mode {
                    Mode::Encrypt => String::from_str("Encrypted: "),
                    Mode::Decrypt => String::from_str("Decrypted: "),
                };
                message.append(done.as_str());
                Status { message, is_error: false, is_busy: false }
            },
            Err(e) => {
                let mut message = String::from_str("Error: ");
                message.append(e.as_str());
                Status { message, is_error: true, is_busy: false }
            },
        }
    }

    /// The colour in which the status line is shown, as red, green, blue.
    pub fn color(&self) -> (rgb: (u8, u8, u8))
        ensures
            rgb == status_rgb(self.is_error, self.is_busy),
    {
        if self.is_error {
            (255, 100, 100)
        } else if self.is_busy {
            (255, 200, 80)
        } else {
            (100, 255, 100)
        }
    }
}

/// The Encrypt button's rule.
pub open spec fn encrypt_ready(
    is_busy: bool,
    input_file: Seq<char>,
    output_dir: Seq<char>,
    password: Seq<char>,
    password_confirm: Seq<char>,
) -> bool {
    !is_busy && input_file.len() > 0 && output_dir.len() > 0 && password.len() > 0 && password
        == password_confirm
}

/// The Decrypt button's rule.
pub open spec fn decrypt_ready(
    is_busy: bool,
    input_file: Seq<char>,
    output_dir: Seq<char>,
    password: Seq<char>,
) -> bool {
    !is_busy && input_file.len() > 0 && output_dir.len() > 0 && password.len() > 0
}

/// The rule for warning that the passwords differ.
pub open spec fn mismatch_shown(password: Seq<char>, password_confirm: Seq<char>) -> bool {
    password.len() > 0 && password_confirm.len() > 0 && password != password_confirm
}

/// Whether the Encrypt button is enabled: no job runs, a file, an output
/// directory and a password are given, and the confirmation matches.
pub fn encrypt_enabled(
    is_busy: bool,
    input_file: &str,
    output_dir: &str,
    password: &str,
    password_confirm: &str,
) -> (enabled: bool)
    ensures
        enabled == encrypt_ready(is_busy, input_file@, output_dir@, password@, password_confirm@),
        enabled ==> !is_busy && input_file@.len() > 0 && output_dir@.len() > 0 && password@.len()
            > 0 && password@ == password_confirm@,
        !is_busy && input_file@.len() > 0 && output_dir@.len() > 0 && password@.len() > 0
            && password@ == password_confirm@ ==> enabled,
{
    !is_busy && !input_file.is_empty() && !output_dir.is_empty() && !password.is_empty()
        && same_text(password, password_confirm)
}

/// Whether the Decrypt button is enabled: no job runs, and a file, an output
/// directory and a password are given.
pub fn decrypt_enabled(is_busy: bool, input_file: &str, output_dir: &str, password: &str) -> (enabled:
    bool)
    ensures
        enabled == (!is_busy && input_file@.len() > 0 && output_dir@.len() > 0
            && password@.len() > 0),
        enabled == decrypt_ready(is_busy, input_file@, output_dir@, password@),
{
    !is_busy && !input_file.is_empty() && !output_dir.is_empty() && !password.is_empty()
}

/// Whether to warn that the passwords do not match: both are given and they
/// differ.
pub fn passwords_mismatch(password: &str, password_confirm: &str) -> (warn: bool)
    ensures
        warn == mismatch_shown(password@, password_confirm@),
        password@.len() > 0 && password_confirm@.len() > 0 && password@ != password_confirm@
            ==> warn,
        warn ==> password@.len() > 0 && password_confirm@.len() > 0 && password@
            != password_confirm@,
{
    !password.is_empty() && !password_confirm.is_empty() && !same_text(password, password_confirm)
}

} // verus!
