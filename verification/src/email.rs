//! Email accounts: provider presets, the stored form of account settings,
//! and the encoding of stored credentials.

use vstd::prelude::*;
use vstd::string::StringSliceAdditionalSpecFns;
use vstd::utf8::{decode_utf8, encode_utf8, valid_utf8};

use crate::text::{all_ascii, append_str, ascii_lower, ascii_lowered, chars_of, eq_str, lowercase, starts_with, to_lowercase};

use base64::engine::general_purpose::STANDARD as BASE64;
use base64::Engine;

verus! {

broadcast use vstd::string::group_string_axioms;

/// The folder read when none is named.
pub const DEFAULT_FOLDER: &'static str = "INBOX";

/// Server settings of an email provider.
#[derive(Debug)]
pub struct EmailProvider {
    pub name: String,
    pub imap_host: String,
    pub imap_port: u16,
    pub imap_use_tls: bool,
    pub smtp_host: String,
    pub smtp_port: u16,
    pub smtp_use_tls: bool,
}

/// The default of a TLS setting that is not given.
pub fn default_true() -> (r: bool)
    ensures
        r,
{
    true
}

/// A provider's settings as values: name, IMAP host, port and TLS, SMTP
/// host, port and TLS.
pub open spec fn provider_view(p: &EmailProvider) -> (Seq<char>, Seq<char>, u16, bool, Seq<char>, u16, bool) {
    (p.name@, p.imap_host@, p.imap_port, p.imap_use_tls, p.smtp_host@, p.smtp_port, p.smtp_use_tls)
}

/// The built-in presets, by lower-case provider key.
pub open spec fn provider_preset(key: Seq<char>) -> Option<(Seq<char>, Seq<char>, u16, bool, Seq<char>, u16, bool)> {
    if key == "gmail"@ {
        Some(("Gmail"@, "imap.gmail.com"@, 993, true, "smtp.gmail.com"@, 587, true))
    } else if key == "outlook"@ || key == "hotmail"@ {
        Some(("Outlook"@, "outlook.office365.com"@, 993, true, "smtp.office365.com"@, 587, true))
    } else if key == "yahoo"@ {
        Some(("Yahoo"@, "imap.mail.yahoo.com"@, 993, true, "smtp.mail.yahoo.com"@, 587, true))
    } else {
        None
    }
}

/// The provider presets: exactly the keys `gmail`, `outlook`, `hotmail`
/// and `yahoo` have one; `hotmail` has Outlook's; and every preset reads
/// mail over IMAP on port 993 and sends over SMTP on port 587, both with
/// TLS.
pub proof fn law_provider_presets(key: Seq<char>)
    ensures
        provider_preset(key) is Some <==> (key == "gmail"@ || key == "outlook"@ || key
            == "hotmail"@ || key == "yahoo"@),
        provider_preset("hotmail"@) == provider_preset("outlook"@),
        provider_preset(key) matches Some(v) ==> v.2 == 993 && v.3 && v.5 == 587 && v.6,
{
    reveal_strlit("outlook");
    reveal_strlit("hotmail");
    reveal_strlit("gmail");
    reveal_strlit("yahoo");
    assert("hotmail"@.len() == 7 && "gmail"@.len() == 5 && "yahoo"@.len() == 5
        && "outlook"@.len() == 7 && "hotmail"@[0] == 'h' && "outlook"@[0] == 'o');
}

/// Lower-casing an ASCII provider name again changes nothing: with the
/// ASCII clauses of `get_provider_config`, looking up the lower-cased name
/// of an ASCII name gives the same preset as the name itself.
pub proof fn law_provider_config_lowercased(name: Seq<char>)
    requires
        all_ascii(name),
    ensures
        all_ascii(ascii_lowered(name)),
        ascii_lowered(ascii_lowered(name)) == ascii_lowered(name),
        provider_preset(ascii_lowered(ascii_lowered(name))) == provider_preset(ascii_lowered(name)),
{
    let l = ascii_lowered(name);
    assert forall|i: int| 0 <= i < l.len() implies (l[i] as u32) < 128 by {
        assert(l[i] == ascii_lower(name[i]));
    }
    assert(ascii_lowered(l) =~= l);
}

/// A provider preset.
fn preset(name: &str, imap_host: &str, smtp_host: &str) -> (p: EmailProvider)
    ensures
        provider_view(&p) == (name@, imap_host@, 993u16, true, smtp_host@, 587u16, true),
{
    EmailProvider {
        name: name.to_owned(),
        imap_host: imap_host.to_owned(),
        imap_port: 993,
        imap_use_tls: true,
        smtp_host: smtp_host.to_owned(),
        smtp_port: 587,
        smtp_use_tls: true,
    }
}

/// The built-in settings of a provider, named in any case.
pub fn get_provider_config(provider: &str) -> (r: Option<EmailProvider>)
    ensures
        provider_preset(lowercase(provider@)) matches Some(v) ==> (r matches Some(p) && provider_view(&p) == v),
        provider_preset(lowercase(provider@)) is None ==> r is None,
        all_ascii(provider@) ==> (provider_preset(ascii_lowered(provider@)) matches Some(v) ==> (
        r matches Some(p) && provider_view(&p) == v)),
        all_ascii(provider@) ==> (provider_preset(ascii_lowered(provider@)) is None ==> r is None),
{
    let key = chars_of(to_lowercase(provider).as_str());
    if eq_str(&key, "gmail") {
        Some(preset("Gmail", "imap.gmail.com", "smtp.gmail.com"))
    } else if eq_str(&key, "outlook") || eq_str(&key, "hotmail") {
        Some(preset("Outlook", "outlook.office365.com", "smtp.office365.com"))
    } else if eq_str(&key, "yahoo") {
        Some(preset("Yahoo", "imap.mail.yahoo.com", "smtp.mail.yahoo.com"))
    } else {
        None
    }
}

/// A flag as stored in the database.
pub fn bool_to_int(value: bool) -> (r: i64)
    ensures
        r == (if value { 1i64 } else { 0i64 }),
{
    if value {
        1
    } else {
        0
    }
}

/// A stored flag: any non-zero value is set.
pub fn int_to_bool(value: i64) -> (r: bool)
    ensures
        r == (value != 0),
{
    value != 0
}

/// A connected email account, as the application shows it.
#[derive(Debug)]
pub struct EmailAccount {
    pub id: i64,
    pub provider: String,
    pub email: String,
    pub display_name: Option<String>,
    pub imap_host: String,
    pub imap_port: u16,
    pub imap_use_tls: bool,
    pub smtp_host: String,
    pub smtp_port: u16,
    pub smtp_use_tls: bool,
    pub created_at: i64,
    pub last_sync: Option<i64>,
}

/// A stored email account, with its encoded password.
#[derive(Debug)]
pub struct EmailAccountRecord {
    pub id: i64,
    pub provider: String,
    pub email: String,
    pub display_name: Option<String>,
    pub imap_host: String,
    pub imap_port: u16,
    pub imap_use_tls: bool,
    pub smtp_host: String,
    pub smtp_port: u16,
    pub smtp_use_tls: bool,
    pub password: String,
    pub created_at: i64,
    pub last_sync: Option<i64>,
}

impl EmailAccountRecord {
    /// The account without its password.
    pub fn into_account(self) -> (a: EmailAccount)
        ensures
            a.id == self.id,
            a.provider == self.provider,
            a.email == self.email,
            a.display_name == self.display_name,
            a.imap_host == self.imap_host,
            a.imap_port == self.imap_port,
            a.imap_use_tls == self.imap_use_tls,
            a.smtp_host == self.smtp_host,
            a.smtp_port == self.smtp_port,
            a.smtp_use_tls == self.smtp_use_tls,
            a.created_at == self.created_at,
            a.last_sync == self.last_sync,
    {
        EmailAccount {
            id: self.id,
            provider: self.provider,
            email: self.email,
            display_name: self.display_name,
            imap_host: self.imap_host,
            imap_port: self.imap_port,
            imap_use_tls: self.imap_use_tls,
            smtp_host: self.smtp_host,
            smtp_port: self.smtp_port,
            smtp_use_tls: self.smtp_use_tls,
            created_at: self.created_at,
            last_sync: self.last_sync,
        }
    }
}

/// An email address with an optional display name.
#[derive(Debug)]
pub struct EmailAddress {
    pub name: Option<String>,
    pub email: String,
}

/// What the user asks to send.
#[derive(Debug)]
pub struct SendEmailRequest {
    pub account_id: i64,
    pub to: Vec<EmailAddress>,
    pub cc: Vec<EmailAddress>,
    pub bcc: Vec<EmailAddress>,
    pub reply_to: Option<EmailAddress>,
    pub subject: String,
    pub body_text: Option<String>,
    pub body_html: Option<String>,
    pub attachments: Vec<String>,
}

// ---------------------------------------------------------------------------
// Stored credentials
// ---------------------------------------------------------------------------

/// The error that `base64` decoding reports.
#[verifier::external_type_specification]
#[verifier::external_body]
pub struct ExDecodeError(base64::DecodeError);

/// The character of a 6-bit value in the standard Base64 alphabet:
/// `A`-`Z`, `a`-`z`, `0`-`9`, `+`, `/`.
pub open spec fn base64_digit(v: int) -> char {
    if v < 26 {
        (('A' as int) + v) as char
    } else if v < 52 {
        (('a' as int) + v - 26) as char
    } else if v < 62 {
        (('0' as int) + v - 52) as char
    } else if v == 62 {
        '+'
    } else {
        '/'
    }
}

/// The standard padded Base64 encoding of `bytes`: each group of three
/// bytes becomes four characters of six bits each, most significant
/// first; a last group of one or two bytes is filled with zero bits and
/// padded with `'='` to four characters.
pub open spec fn base64_encoding(bytes: Seq<u8>) -> Seq<char>
    decreases bytes.len(),
{
    if bytes.len() == 0 {
        Seq::empty()
    } else if bytes.len() == 1 {
        let b0 = bytes[0] as int;
        seq![base64_digit(b0 / 4), base64_digit((b0 % 4) * 16), '=', '=']
    } else if bytes.len() == 2 {
        let b0 = bytes[0] as int;
        let b1 = bytes[1] as int;
        seq![
            base64_digit(b0 / 4),
            base64_digit((b0 % 4) * 16 + b1 / 16),
            base64_digit((b1 % 16) * 4),
            '=',
        ]
    } else {
        let b0 = bytes[0] as int;
        let b1 = bytes[1] as int;
        let b2 = bytes[2] as int;
        seq![
            base64_digit(b0 / 4),
            base64_digit((b0 % 4) * 16 + b1 / 16),
            base64_digit((b1 % 16) * 4 + b2 / 64),
            base64_digit(b2 % 64),
        ] + base64_encoding(bytes.subrange(3, bytes.len() as int))
    }
}

/// What the standard Base64 engine decodes `text` to, where it accepts it.
pub uninterp spec fn base64_decoding(text: Seq<char>) -> Option<Seq<u8>>;

/// `general_purpose::STANDARD.encode`: the padded standard Base64 encoding
/// of `bytes`, as `base64_encoding` spells it out; decoding it gives
/// `bytes` back. It
/// panics on an input whose encoded length overflows `usize`, which the
/// precondition leaves out.
#[verifier::external_body]
pub(crate) fn base64_encode(bytes: &[u8]) -> (r: String)
    requires
        bytes@.len() <= 3 * (usize::MAX / 4),
    ensures
        r@ == base64_encoding(bytes@),
        base64_decoding(r@) == Some(bytes@),
{
    BASE64.encode(bytes)
}

/// `general_purpose::STANDARD.decode`: the bytes that `text` encodes, named
/// `base64_decoding`, or the crate's error where `text` is not padded
/// standard Base64.
#[verifier::external_body]
pub(crate) fn base64_decode(text: &str) -> (r: Result<Vec<u8>, base64::DecodeError>)
    ensures
        (match r {
            Ok(v) => Some(v@),
            Err(_) => None,
        }) == base64_decoding(text@),
{
    BASE64.decode(text)
}

/// The text of a Base64 decoding error (its `Display`). Nothing is stated
/// of the text.
#[verifier::external_body]
pub(crate) fn decode_error_text(e: &base64::DecodeError) -> (r: String) {
    e.to_string()
}

/// `String::from_utf8`: the string that `bytes` encode where they are valid
/// UTF-8; otherwise the error's text, of which nothing is stated.
#[verifier::external_body]
fn string_from_utf8(bytes: Vec<u8>) -> (r: Result<String, String>)
    ensures
        valid_utf8(bytes@) <==> r is Ok,
        r matches Ok(s) ==> s@ == decode_utf8(bytes@),
{
    String::from_utf8(bytes).map_err(|e| e.to_string())
}

/// The stored form of a password: the Base64 of its UTF-8 bytes.
pub fn encode_password(password: &str) -> (r: String)
    requires
        password.spec_bytes().len() <= 3 * (usize::MAX / 4),
    ensures
        r@ == base64_encoding(encode_utf8(password@)),
        decoded_password(r@) == Some(password@),
{
    let r = base64_encode(password.as_bytes());
    proof {
        vstd::utf8::encode_utf8_valid_utf8(password@);
        vstd::utf8::encode_utf8_decode_utf8(password@);
    }
    r
}

/// The password that a stored form holds: Base64-decoded, then read as
/// UTF-8.
pub open spec fn decoded_password(encoded: Seq<char>) -> Option<Seq<char>> {
    match base64_decoding(encoded) {
        Some(b) => if valid_utf8(b) {
            Some(decode_utf8(b))
        } else {
            None
        },
        None => None,
    }
}

/// Reads a stored password back.
pub fn decode_password(encoded: &str) -> (r: Result<String, String>)
    ensures
        decoded_password(encoded@) matches Some(p) ==> (r matches Ok(s) && s@ == p),
        decoded_password(encoded@) is None ==> r is Err,
        base64_decoding(encoded@) is None ==> (r matches Err(e) && starts_with(
            e@,
            "Failed to decode stored credentials: "@,
        )),
        base64_decoding(encoded@) is Some ==> (r matches Err(e) ==> starts_with(
            e@,
            "Stored credentials invalid UTF-8: "@,
        )),
{
    let bytes = match base64_decode(encoded) {
        Ok(b) => b,
        Err(e) => {
            let mut msg = "Failed to decode stored credentials: ".to_owned();
            let ghost prefix = msg@;
            append_str(&mut msg, decode_error_text(&e).as_str());
            assert(msg@.subrange(0, prefix.len() as int) =~= prefix);
            return Err(msg);
        },
    };
    match string_from_utf8(bytes) {
        Ok(s) => Ok(s),
        Err(e) => {
            let mut msg = "Stored credentials invalid UTF-8: ".to_owned();
            let ghost prefix = msg@;
            append_str(&mut msg, e.as_str());
            assert(msg@.subrange(0, prefix.len() as int) =~= prefix);
            Err(msg)
        },
    }
}

} // verus!
