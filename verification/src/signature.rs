//! Commit signatures: what a verifier program is asked, and what its answers mean.

use vstd::prelude::*;
use vstd::slice::slice_subrange;
use vstd::slice::slice_to_vec;
use vstd::string::StringExecFns;

use crate::bytes::append;
use crate::bytes::ascii;
use crate::bytes::copy_option;
use crate::bytes::eq_ignore_ascii_case;
use crate::bytes::equal_ignoring_case;
use crate::bytes::fields_of;
use crate::bytes::find_byte;
use crate::bytes::first_index;
use crate::bytes::lines;
use crate::bytes::lines_of;
use crate::bytes::literal;
use crate::bytes::non_empty;
use crate::bytes::rsplit_once;
use crate::bytes::after_last;
use crate::bytes::split;
use crate::bytes::starts_with;
use crate::bytes::strip_prefix;
use crate::bytes::view_option;
use crate::bytes::views;
use crate::bytes::without_empty;
use crate::bytes::SPACE;
use crate::foreign::debug_text;
use crate::foreign::format_time;
use crate::foreign::formatted_time;
use crate::foreign::show_debug;
use crate::foreign::trim;
use crate::foreign::trimmed;

verus! {

/// The format of a cryptographic signature.
#[derive(Clone, Copy, Debug, Eq, PartialEq, Structural)]
pub enum Format {
    /// An OpenPGP signature.
    OpenPgp,
    /// An X.509 signature.
    X509,
    /// An SSH signature.
    Ssh,
}

/// The result reported by the signature verifier.
#[derive(Clone, Copy, Debug, Eq, PartialEq, Structural)]
pub enum Status {
    /// The signature is cryptographically valid.
    Good,
    /// The signature is invalid.
    Bad,
    /// The verifier could not check the signature.
    Error,
    /// The signature has expired.
    Expired,
    /// The signing key has expired.
    ExpiredKey,
    /// The signing key was revoked.
    RevokedKey,
    /// The verifier returned no recognized result.
    Unknown,
}

/// The trust level reported by the signature verifier, from the least to the greatest.
#[derive(Clone, Copy, Debug, Eq, Ord, PartialEq, PartialOrd, Structural)]
pub enum TrustLevel {
    /// No trust information is available.
    Undefined,
    /// The key must never be trusted.
    Never,
    /// The key is marginally trusted.
    Marginal,
    /// The key is fully trusted.
    Fully,
    /// The key is ultimately trusted.
    Ultimate,
}

impl Default for TrustLevel {
    fn default() -> (level: Self)
        ensures
            level == TrustLevel::Undefined,
    {
        TrustLevel::Undefined
    }
}

impl TrustLevel {
    /// The place of this level in the order of trust.
    pub open spec fn rank(self) -> int {
        match self {
            TrustLevel::Undefined => 0,
            TrustLevel::Never => 1,
            TrustLevel::Marginal => 2,
            TrustLevel::Fully => 3,
            TrustLevel::Ultimate => 4,
        }
    }

    fn position(self) -> (place: u8)
        ensures
            place == self.rank(),
    {
        match self {
            TrustLevel::Undefined => 0,
            TrustLevel::Never => 1,
            TrustLevel::Marginal => 2,
            TrustLevel::Fully => 3,
            TrustLevel::Ultimate => 4,
        }
    }

    /// Whether this level is `minimum` or greater.
    pub fn at_least(self, minimum: TrustLevel) -> (enough: bool)
        ensures
            enough == (self.rank() >= minimum.rank()),
    {
        self.position() >= minimum.position()
    }
}

/// What keeps a signature from being verified.
#[derive(Debug)]
pub enum Error {
    /// The signature begins like none of the known formats.
    UnsupportedFormat,
    /// The configured minimum trust level is not the name of one.
    InvalidTrustLevel(Vec<u8>),
    /// No file with allowed signers is configured.
    MissingAllowedSigners,
    /// The time of the commit can't be shown, and why.
    CommitTime(String),
}

impl Error {
    /// What the error says.
    pub open spec fn text(&self) -> Seq<char> {
        match self {
            Error::UnsupportedFormat => "The signature format is unsupported"@,
            Error::InvalidTrustLevel(value) => "Invalid value for gpg.minTrustLevel: "@
                + debug_text(value@),
            Error::MissingAllowedSigners =>
                "gpg.ssh.allowedSignersFile must be configured for SSH signature verification"@,
            Error::CommitTime(_) => "Commit time could not be formatted for SSH verification"@,
        }
    }

    /// What the error says.
    pub fn message(&self) -> (text: String)
        ensures
            text@ == self.text(),
    {
        match self {
            Error::UnsupportedFormat => "The signature format is unsupported".to_owned(),
            Error::InvalidTrustLevel(value) => {
                let shown = show_debug(value.as_slice());
                "Invalid value for gpg.minTrustLevel: ".to_owned().concat(shown.as_str())
            },
            Error::MissingAllowedSigners =>
                "gpg.ssh.allowedSignersFile must be configured for SSH signature verification".to_owned(),
            Error::CommitTime(_) =>
                "Commit time could not be formatted for SSH verification".to_owned(),
        }
    }
}

/// The complete result of verifying a commit signature.
#[derive(Clone, Debug, Eq, PartialEq)]
pub struct Outcome {
    /// The signature format.
    pub format: Format,
    /// The cryptographic status.
    pub status: Status,
    /// The verifier's trust assessment.
    pub trust_level: TrustLevel,
    /// The signer identity, if reported.
    pub signer: Option<Vec<u8>>,
    /// The key identifier, if reported.
    pub key: Option<Vec<u8>>,
    /// The key fingerprint, if reported.
    pub fingerprint: Option<Vec<u8>>,
    /// The primary-key fingerprint, if reported.
    pub primary_key_fingerprint: Option<Vec<u8>>,
    /// Human-readable verifier output.
    pub output: Vec<u8>,
    /// Machine-readable verifier output.
    pub raw_output: Vec<u8>,
    /// Whether the signature is accepted; only this module decides that.
    pub verdict: Verdict,
}

/// Whether a signature is accepted.
#[derive(Clone, Copy, Debug, Eq, PartialEq, Structural)]
pub struct Verdict {
    valid: bool,
}

impl Verdict {
    /// Whether this is the verdict of an accepted signature.
    pub closed spec fn accepted(self) -> bool {
        self.valid
    }
}

/// What an [`Outcome`] says.
#[verifier::ext_equal]
pub struct OutcomeView {
    pub format: Format,
    pub status: Status,
    pub trust_level: TrustLevel,
    pub signer: Option<Seq<u8>>,
    pub key: Option<Seq<u8>>,
    pub fingerprint: Option<Seq<u8>>,
    pub primary_key_fingerprint: Option<Seq<u8>>,
    pub output: Seq<u8>,
    pub raw_output: Seq<u8>,
    pub valid: bool,
}

impl View for Outcome {
    type V = OutcomeView;

    open spec fn view(&self) -> OutcomeView {
        OutcomeView {
            format: self.format,
            status: self.status,
            trust_level: self.trust_level,
            signer: view_option(self.signer),
            key: view_option(self.key),
            fingerprint: view_option(self.fingerprint),
            primary_key_fingerprint: view_option(self.primary_key_fingerprint),
            output: self.output@,
            raw_output: self.raw_output@,
            valid: self.verdict.accepted(),
        }
    }
}

impl Outcome {
    /// Return `true` if Git would accept the signature with the configured minimum trust level.
    pub fn is_valid(&self) -> (valid: bool)
        ensures
            valid == self@.valid,
    {
        self.verdict.valid
    }
}

/// The format that a signature announces in its first bytes.
pub open spec fn announced_format(signature: Seq<u8>) -> Option<Format> {
    if ascii("-----BEGIN PGP SIGNATURE-----").is_prefix_of(signature) || ascii(
        "-----BEGIN PGP MESSAGE-----",
    ).is_prefix_of(signature) {
        Some(Format::OpenPgp)
    } else if ascii("-----BEGIN SIGNED MESSAGE-----").is_prefix_of(signature) {
        Some(Format::X509)
    } else if ascii("-----BEGIN SSH SIGNATURE-----").is_prefix_of(signature) {
        Some(Format::Ssh)
    } else {
        None
    }
}

/// The format that `signature` announces in its first bytes.
pub fn signature_format(signature: &[u8]) -> (format: Result<Format, Error>)
    ensures
        match format {
            Ok(format) => announced_format(signature@) == Some(format),
            Err(err) => announced_format(signature@) is None && err == Error::UnsupportedFormat,
        },
{
    if starts_with(signature, "-----BEGIN PGP SIGNATURE-----".as_bytes()) || starts_with(
        signature,
        "-----BEGIN PGP MESSAGE-----".as_bytes(),
    ) {
        Ok(Format::OpenPgp)
    } else if starts_with(signature, "-----BEGIN SIGNED MESSAGE-----".as_bytes()) {
        Ok(Format::X509)
    } else if starts_with(signature, "-----BEGIN SSH SIGNATURE-----".as_bytes()) {
        Ok(Format::Ssh)
    } else {
        Err(Error::UnsupportedFormat)
    }
}

/// The trust level of the given name, in letters of any case.
pub open spec fn trust_named(name: Seq<u8>) -> Option<TrustLevel> {
    if equal_ignoring_case(name, ascii("undefined")) {
        Some(TrustLevel::Undefined)
    } else if equal_ignoring_case(name, ascii("never")) {
        Some(TrustLevel::Never)
    } else if equal_ignoring_case(name, ascii("marginal")) {
        Some(TrustLevel::Marginal)
    } else if equal_ignoring_case(name, ascii("fully")) {
        Some(TrustLevel::Fully)
    } else if equal_ignoring_case(name, ascii("ultimate")) {
        Some(TrustLevel::Ultimate)
    } else {
        None
    }
}

/// The trust level that `value` names, in letters of any case.
pub fn parse_trust(value: &[u8]) -> (level: Option<TrustLevel>)
    ensures
        level == trust_named(value@),
{
    if eq_ignore_ascii_case(value, "undefined".as_bytes()) {
        Some(TrustLevel::Undefined)
    } else if eq_ignore_ascii_case(value, "never".as_bytes()) {
        Some(TrustLevel::Never)
    } else if eq_ignore_ascii_case(value, "marginal".as_bytes()) {
        Some(TrustLevel::Marginal)
    } else if eq_ignore_ascii_case(value, "fully".as_bytes()) {
        Some(TrustLevel::Fully)
    } else if eq_ignore_ascii_case(value, "ultimate".as_bytes()) {
        Some(TrustLevel::Ultimate)
    } else {
        None
    }
}

/// The trust level that a signature needs at least, from the value of `gpg.minTrustLevel`.
///
/// Without a value every level is enough; white space around the value does not matter.
pub fn minimum_trust(value: Option<Vec<u8>>) -> (level: Result<TrustLevel, Error>)
    ensures
        match (value, level) {
            (None, Ok(level)) => level == TrustLevel::Undefined,
            (None, Err(_)) => false,
            (Some(value), Ok(level)) => trust_named(trimmed(value@)) == Some(level),
            (Some(value), Err(err)) => trust_named(trimmed(value@)) is None && err
                == Error::InvalidTrustLevel(value),
        },
{
    match value {
        None => Ok(TrustLevel::Undefined),
        Some(value) => {
            let name = trim(value.as_slice());
            match parse_trust(name.as_slice()) {
                Some(level) => Ok(level),
                None => Err(Error::InvalidTrustLevel(value)),
            }
        },
    }
}

/// What has to be known before a verifier runs: the format of the signature and the trust level
/// that it needs. An unknown format is reported before an unknown trust level.
pub fn prepare(signature: &[u8], configured_trust: Option<Vec<u8>>) -> (plan: Result<
    (Format, TrustLevel),
    Error,
>)
    ensures
        match plan {
            Ok((format, level)) => announced_format(signature@) == Some(format) && (
            match configured_trust {
                None => level == TrustLevel::Undefined,
                Some(value) => trust_named(trimmed(value@)) == Some(level),
            }),
            Err(Error::UnsupportedFormat) => announced_format(signature@) is None,
            Err(Error::InvalidTrustLevel(value)) => announced_format(signature@) is Some
                && configured_trust == Some(value) && trust_named(trimmed(value@)) is None,
            Err(_) => false,
        },
{
    match signature_format(signature) {
        Err(err) => Err(err),
        Ok(format) => match minimum_trust(configured_trust) {
            Err(err) => Err(err),
            Ok(level) => Ok((format, level)),
        },
    }
}

/// What the status lines of an OpenPGP or X.509 verifier have said so far.
#[verifier::ext_equal]
pub struct GpgReport {
    /// Whether a line has already given the result of the verification.
    pub decided: bool,
    pub status: Status,
    pub trust_level: TrustLevel,
    pub signer: Option<Seq<u8>>,
    pub key: Option<Seq<u8>>,
    pub fingerprint: Option<Seq<u8>>,
    pub primary_key_fingerprint: Option<Seq<u8>>,
}

/// Nothing was said yet.
pub open spec fn empty_report() -> GpgReport {
    GpgReport {
        decided: false,
        status: Status::Unknown,
        trust_level: TrustLevel::Undefined,
        signer: None,
        key: None,
        fingerprint: None,
        primary_key_fingerprint: None,
    }
}

/// `text`, unless it is empty.
pub open spec fn unless_empty(text: Seq<u8>) -> Option<Seq<u8>> {
    if text.len() == 0 {
        None
    } else {
        Some(text)
    }
}

/// What follows `prefix` in `text`.
pub open spec fn after(text: Seq<u8>, prefix: Seq<u8>) -> Seq<u8> {
    text.skip(prefix.len() as int)
}

/// The result that a status message gives, with what the message says of the signer.
pub open spec fn result_message(message: Seq<u8>) -> Option<(Status, Seq<u8>)> {
    if ascii("GOODSIG ").is_prefix_of(message) {
        Some((Status::Good, after(message, ascii("GOODSIG "))))
    } else if ascii("BADSIG ").is_prefix_of(message) {
        Some((Status::Bad, after(message, ascii("BADSIG "))))
    } else if ascii("ERRSIG ").is_prefix_of(message) {
        Some((Status::Error, after(message, ascii("ERRSIG "))))
    } else if ascii("EXPSIG ").is_prefix_of(message) {
        Some((Status::Expired, after(message, ascii("EXPSIG "))))
    } else if ascii("EXPKEYSIG ").is_prefix_of(message) {
        Some((Status::ExpiredKey, after(message, ascii("EXPKEYSIG "))))
    } else if ascii("REVKEYSIG ").is_prefix_of(message) {
        Some((Status::RevokedKey, after(message, ascii("REVKEYSIG "))))
    } else {
        None
    }
}

/// The message of a status line, if `line` is one.
pub open spec fn status_message(line: Seq<u8>) -> Option<Seq<u8>> {
    if ascii("[GNUPG:] ").is_prefix_of(line) {
        Some(after(line, ascii("[GNUPG:] ")))
    } else {
        None
    }
}

/// Whether `line` is a status line that gives the result of the verification.
pub open spec fn gives_result(line: Seq<u8>) -> bool {
    status_message(line) is Some && result_message(status_message(line).unwrap()) is Some
}

/// The report after the part of a message that may give the result: the first result counts, a
/// second one turns the whole report into an error without signer and key.
pub open spec fn with_result(report: GpgReport, message: Seq<u8>) -> GpgReport {
    match result_message(message) {
        None => report,
        Some((status, value)) => if report.decided {
            GpgReport { status: Status::Error, signer: None, key: None, ..report }
        } else {
            let end = first_index(value, SPACE);
            GpgReport {
                decided: true,
                status,
                key: unless_empty(value.take(end)),
                signer: if end < value.len() {
                    unless_empty(value.skip(end + 1))
                } else {
                    None
                },
                ..report
            }
        },
    }
}

/// The report after the part of a message that may speak of trust or fingerprints.
pub open spec fn with_details(report: GpgReport, message: Seq<u8>) -> GpgReport {
    if ascii("TRUST_").is_prefix_of(message) {
        let value = after(message, ascii("TRUST_"));
        GpgReport {
            trust_level: match trust_named(value.take(first_index(value, SPACE))) {
                Some(level) => level,
                None => TrustLevel::Undefined,
            },
            ..report
        }
    } else if ascii("VALIDSIG ").is_prefix_of(message) {
        let fields = fields_of(after(message, ascii("VALIDSIG ")), SPACE);
        GpgReport {
            fingerprint: unless_empty(fields[0]),
            primary_key_fingerprint: if fields.len() > 9 {
                unless_empty(fields[9])
            } else {
                None
            },
            ..report
        }
    } else {
        report
    }
}

/// The report after one more line of verifier output.
pub open spec fn after_line(report: GpgReport, line: Seq<u8>) -> GpgReport {
    match status_message(line) {
        None => report,
        Some(message) => with_details(with_result(report, message), message),
    }
}

/// The report after all the given lines.
pub open spec fn report_of(lines: Seq<Seq<u8>>) -> GpgReport
    decreases lines.len(),
{
    if lines.len() == 0 {
        empty_report()
    } else {
        after_line(report_of(lines.drop_last()), lines.last())
    }
}

/// The outcome that a report amounts to before it is judged.
pub open spec fn outcome_of(
    format: Format,
    report: GpgReport,
    output: Seq<u8>,
    raw_output: Seq<u8>,
    valid: bool,
) -> OutcomeView {
    OutcomeView {
        format,
        status: report.status,
        trust_level: report.trust_level,
        signer: report.signer,
        key: report.key,
        fingerprint: report.fingerprint,
        primary_key_fingerprint: report.primary_key_fingerprint,
        output,
        raw_output,
        valid,
    }
}

/// The result that `message` gives, with what it says of the signer.
fn parse_result(message: &[u8]) -> (result: Option<(Status, &[u8])>)
    ensures
        match result {
            Some((status, value)) => result_message(message@) == Some((status, value@)),
            None => result_message(message@) is None,
        },
{
    if let Some(value) = strip_prefix(message, "GOODSIG ".as_bytes()) {
        Some((Status::Good, value))
    } else if let Some(value) = strip_prefix(message, "BADSIG ".as_bytes()) {
        Some((Status::Bad, value))
    } else if let Some(value) = strip_prefix(message, "ERRSIG ".as_bytes()) {
        Some((Status::Error, value))
    } else if let Some(value) = strip_prefix(message, "EXPSIG ".as_bytes()) {
        Some((Status::Expired, value))
    } else if let Some(value) = strip_prefix(message, "EXPKEYSIG ".as_bytes()) {
        Some((Status::ExpiredKey, value))
    } else if let Some(value) = strip_prefix(message, "REVKEYSIG ".as_bytes()) {
        Some((Status::RevokedKey, value))
    } else {
        None
    }
}

/// A copy of `text`, unless it is empty.
fn copy_unless_empty(text: &[u8]) -> (copy: Option<Vec<u8>>)
    ensures
        view_option(copy) == unless_empty(text@),
{
    if text.len() == 0 {
        None
    } else {
        Some(slice_to_vec(text))
    }
}

/// What the output of an OpenPGP or X.509 verifier says, before it is judged.
pub fn parse_gpg_output(format: Format, output: Vec<u8>, raw_output: Vec<u8>) -> (outcome: Outcome)
    ensures
        outcome@ == outcome_of(
            format,
            report_of(lines_of(raw_output@)),
            output@,
            raw_output@,
            false,
        ),
{
    let list = lines(raw_output.as_slice());
    let mut outcome = Outcome {
        format,
        status: Status::Unknown,
        trust_level: TrustLevel::Undefined,
        signer: None,
        key: None,
        fingerprint: None,
        primary_key_fingerprint: None,
        output,
        raw_output,
        verdict: Verdict { valid: false },
    };
    let mut decided = false;
    let ghost all = lines_of(raw_output@);
    let mut i: usize = 0;
    while i < list.len()
        invariant
            i <= list.len(),
            views(list@) == all,
            outcome@ == outcome_of(format, report_of(all.take(i as int)), output@, raw_output@, false),
            decided == report_of(all.take(i as int)).decided,
        decreases list.len() - i,
    {
        let ghost before = report_of(all.take(i as int));
        let line = list[i].as_slice();
        proof {
            assert(line@ == views(list@)[i as int]);
            assert(all.take(i + 1).drop_last() =~= all.take(i as int));
            assert(all.take(i + 1).last() == line@);
            assert(report_of(all.take(i + 1)) == after_line(before, line@));
        }
        i += 1;
        let message = match strip_prefix(line, "[GNUPG:] ".as_bytes()) {
            None => continue ,
            Some(message) => message,
        };
        if let Some((status, value)) = parse_result(message) {
            if decided {
                outcome.status = Status::Error;
                outcome.signer = None;
                outcome.key = None;
            } else {
                decided = true;
                outcome.status = status;
                let end: usize = find_byte(value, SPACE);
                let key = slice_subrange(value, 0, end);
                assert(key@ =~= value@.take(end as int));
                outcome.key = copy_unless_empty(key);
                if end < value.len() {
                    let signer = slice_subrange(value, end + 1, value.len());
                    assert(signer@ =~= value@.skip(end + 1));
                    outcome.signer = copy_unless_empty(signer);
                } else {
                    outcome.signer = None;
                }
            }
        }
        if let Some(value) = strip_prefix(message, "TRUST_".as_bytes()) {
            let end: usize = find_byte(value, SPACE);
            let name = slice_subrange(value, 0, end);
            assert(name@ =~= value@.take(end as int));
            outcome.trust_level =
                match parse_trust(name) {
                    Some(level) => level,
                    None => TrustLevel::Undefined,
                };
        } else if let Some(value) = strip_prefix(message, "VALIDSIG ".as_bytes()) {
            let fields = split(value, SPACE);
            let ghost all_fields = fields_of(value@, SPACE);
            assert(all_fields[0] == fields@[0]@);
            outcome.fingerprint = copy_unless_empty(fields[0].as_slice());
            if fields.len() > 9 {
                assert(all_fields[9] == fields@[9]@);
                outcome.primary_key_fingerprint = copy_unless_empty(fields[9].as_slice());
            } else {
                outcome.primary_key_fingerprint = None;
            }
        }
    }
    assert(all.take(i as int) =~= all);
    outcome
}

/// What a program wrote, and whether it reported success.
pub struct ProcessOutput {
    /// Whether the program exited successfully.
    pub success: bool,
    /// What it wrote to its standard output.
    pub stdout: Vec<u8>,
    /// What it wrote to its standard error.
    pub stderr: Vec<u8>,
}

/// The programs that are configured as verifiers.
pub struct Programs {
    /// The value of `gpg.openpgp.program`.
    pub openpgp: Option<Vec<u8>>,
    /// The value of `gpg.program`.
    pub gpg: Option<Vec<u8>>,
    /// The value of `gpg.x509.program`.
    pub x509: Option<Vec<u8>>,
    /// The value of `gpg.ssh.program`.
    pub ssh: Option<Vec<u8>>,
}

/// The program that verifies signatures of the given format.
pub open spec fn program_for(programs: Programs, format: Format) -> Seq<u8> {
    match format {
        Format::OpenPgp => match (programs.openpgp, programs.gpg) {
            (Some(program), _) => program@,
            (None, Some(program)) => program@,
            (None, None) => ascii("gpg"),
        },
        Format::X509 => match programs.x509 {
            Some(program) => program@,
            None => ascii("gpgsm"),
        },
        Format::Ssh => match programs.ssh {
            Some(program) => program@,
            None => ascii("ssh-keygen"),
        },
    }
}

/// The program that verifies signatures of the given format.
pub fn verifier_program(programs: Programs, format: Format) -> (program: Vec<u8>)
    ensures
        program@ == program_for(programs, format),
{
    let (configured, fallback) = match format {
        Format::OpenPgp => match programs.openpgp {
            Some(program) => (Some(program), "gpg"),
            None => (programs.gpg, "gpg"),
        },
        Format::X509 => (programs.x509, "gpgsm"),
        Format::Ssh => (programs.ssh, "ssh-keygen"),
    };
    match configured {
        Some(program) => program,
        None => literal(fallback),
    }
}

/// The arguments of an OpenPGP or X.509 verifier; the signed data goes to its standard input.
pub open spec fn gpg_arguments(format: Format, signature_path: Seq<u8>) -> Seq<Seq<u8>> {
    (if format == Format::OpenPgp {
        seq![ascii("--keyid-format=long")]
    } else {
        seq![]
    }) + seq![ascii("--status-fd=1"), ascii("--verify"), signature_path, ascii("-")]
}

/// The arguments of an OpenPGP or X.509 verifier; the signed data goes to its standard input.
pub fn gpg_command(format: Format, signature_path: &[u8]) -> (arguments: Vec<Vec<u8>>)
    ensures
        views(arguments@) == gpg_arguments(format, signature_path@),
{
    let mut arguments: Vec<Vec<u8>> = Vec::new();
    if format == Format::OpenPgp {
        arguments.push(literal("--keyid-format=long"));
    }
    arguments.push(literal("--status-fd=1"));
    arguments.push(literal("--verify"));
    arguments.push(slice_to_vec(signature_path));
    arguments.push(literal("-"));
    assert(views(arguments@) =~= gpg_arguments(format, signature_path@));
    arguments
}

/// The judged outcome of an OpenPGP or X.509 verifier that ran to its end: the signature is
/// accepted if the program succeeded, reported a good signature, and trusts the key enough.
pub fn conclude_gpg(format: Format, output: ProcessOutput, minimum_trust: TrustLevel) -> (outcome:
    Outcome)
    ensures
        outcome@ == ({
            let report = report_of(lines_of(output.stdout@));
            outcome_of(
                format,
                report,
                output.stderr@,
                output.stdout@,
                output.success && report.status == Status::Good && report.trust_level.rank()
                    >= minimum_trust.rank(),
            )
        }),
{
    let mut outcome = parse_gpg_output(format, output.stderr, output.stdout);
    let valid = output.success && outcome.status == Status::Good && outcome.trust_level.at_least(
        minimum_trust,
    );
    outcome.verdict = Verdict { valid };
    outcome
}

/// What the output of the SSH verifier says, with the given judgement.
pub open spec fn ssh_outcome(
    output: Seq<u8>,
    signer: Option<Seq<u8>>,
    trust_level: TrustLevel,
    valid: bool,
) -> OutcomeView {
    let lines = lines_of(output);
    let fingerprint = if lines.len() == 0 {
        None
    } else {
        after_last(lines[0], ascii(" key "), (lines[0].len() + 1) as nat)
    };
    OutcomeView {
        format: Format::Ssh,
        status: if ascii("Good \"git\" signature").is_prefix_of(output) {
            Status::Good
        } else {
            Status::Bad
        },
        trust_level,
        signer,
        key: fingerprint,
        fingerprint,
        primary_key_fingerprint: None,
        output,
        raw_output: output,
        valid,
    }
}

/// What the output of the SSH verifier says, before it is judged.
pub fn parse_ssh_output(
    output: Vec<u8>,
    signer: Option<Vec<u8>>,
    trust_level: TrustLevel,
) -> (outcome: Outcome)
    ensures
        outcome@ == ssh_outcome(output@, view_option(signer), trust_level, false),
{
    let status = if starts_with(output.as_slice(), "Good \"git\" signature".as_bytes()) {
        Status::Good
    } else {
        Status::Bad
    };
    let list = lines(output.as_slice());
    let ghost all = lines_of(output@);
    assert(all == views(list@));
    let fingerprint = if list.len() == 0 {
        None
    } else {
        assert(all[0] == list@[0]@);
        rsplit_once(list[0].as_slice(), " key ".as_bytes())
    };
    let raw_output = slice_to_vec(output.as_slice());
    Outcome {
        format: Format::Ssh,
        status,
        trust_level,
        signer,
        key: copy_option(&fingerprint),
        fingerprint,
        primary_key_fingerprint: None,
        output,
        raw_output,
        verdict: Verdict { valid: false },
    }
}

/// What a person is shown of the output of the SSH verifier.
pub open spec fn human_output(stdout: Seq<u8>, stderr: Seq<u8>) -> Seq<u8> {
    stdout + stderr
}

/// The judged outcome of an SSH verification, from the program that had the last word.
pub open spec fn ssh_conclusion(
    stdout: Seq<u8>,
    stderr: Seq<u8>,
    signer: Option<Seq<u8>>,
    has_principal: bool,
    minimum_trust: TrustLevel,
) -> OutcomeView {
    let trust_level = if has_principal {
        TrustLevel::Fully
    } else {
        TrustLevel::Undefined
    };
    let human = human_output(stdout, stderr);
    ssh_outcome(
        human,
        signer,
        trust_level,
        has_principal && ascii("Good \"git\" signature").is_prefix_of(human) && trust_level.rank()
            >= minimum_trust.rank(),
    )
}

fn conclude_ssh(
    output: ProcessOutput,
    signer: Option<Vec<u8>>,
    has_principal: bool,
    minimum_trust: TrustLevel,
) -> (outcome: Outcome)
    ensures
        outcome@ == ssh_conclusion(
            output.stdout@,
            output.stderr@,
            view_option(signer),
            has_principal,
            minimum_trust,
        ),
{
    let trust_level = if has_principal {
        TrustLevel::Fully
    } else {
        TrustLevel::Undefined
    };
    let mut human = output.stdout;
    append(&mut human, output.stderr.as_slice());
    let mut outcome = parse_ssh_output(human, signer, trust_level);
    let valid = has_principal && outcome.status == Status::Good && trust_level.at_least(
        minimum_trust,
    );
    outcome.verdict = Verdict { valid };
    outcome
}

/// What every run of the SSH verifier for one commit is told.
pub struct SshRequest {
    /// The file with the allowed signers.
    pub allowed_signers: Vec<u8>,
    /// The file with the revoked keys, if there is one.
    pub revocations: Option<Vec<u8>>,
    /// The file with the signature.
    pub signature_path: Vec<u8>,
    /// The argument with the time of the commit.
    pub verify_time: Vec<u8>,
    /// The trust level that the signature needs at least.
    pub minimum_trust: TrustLevel,
}

/// The time of a commit as the SSH verifier takes it: all digits from the year to the second.
pub open spec fn compact_time(seconds: i64, offset: i32) -> Option<Seq<char>> {
    formatted_time(seconds, offset, "%Y%m%d%H%M%S"@)
}

/// The argument that tells the SSH verifier the time of the commit.
pub open spec fn time_argument(text: Seq<char>) -> Seq<u8> {
    ascii("-Overify-time=") + vstd::utf8::encode_utf8(text)
}

/// The argument that tells the SSH verifier the time of the commit, from that time as text.
pub fn time_argument_of(text: &str) -> (argument: Vec<u8>)
    ensures
        argument@ == time_argument(text@),
{
    let mut argument = literal("-Overify-time=");
    append(&mut argument, text.as_bytes());
    argument
}

/// The argument that tells the SSH verifier the time of the commit.
pub fn verify_time(seconds: i64, offset: i32) -> (argument: Result<Vec<u8>, Error>)
    ensures
        match argument {
            Ok(argument) => compact_time(seconds, offset) is Some && argument@ == time_argument(
                compact_time(seconds, offset).unwrap(),
            ),
            Err(Error::CommitTime(_)) => compact_time(seconds, offset) is None,
            Err(_) => false,
        },
{
    match format_time(seconds, offset, "%Y%m%d%H%M%S") {
        Ok(text) => Ok(time_argument_of(text.as_str())),
        Err(reason) => Err(Error::CommitTime(reason)),
    }
}

/// What an SSH verification can't do without: a file with allowed signers, which is asked for first, and
/// the argument with the time of the commit.
pub fn ssh_inputs(allowed_signers: Option<Vec<u8>>, seconds: i64, offset: i32) -> (inputs: Result<
    (Vec<u8>, Vec<u8>),
    Error,
>)
    ensures
        match inputs {
            Ok((allowed, argument)) => allowed_signers == Some(allowed) && compact_time(
                seconds,
                offset,
            ) is Some && argument@ == time_argument(compact_time(seconds, offset).unwrap()),
            Err(Error::MissingAllowedSigners) => allowed_signers is None,
            Err(Error::CommitTime(_)) => allowed_signers is Some && compact_time(seconds, offset) is None,
            Err(_) => false,
        },
{
    match allowed_signers {
        None => Err(Error::MissingAllowedSigners),
        Some(allowed) => match verify_time(seconds, offset) {
            Ok(argument) => Ok((allowed, argument)),
            Err(err) => Err(err),
        },
    }
}

impl SshRequest {
    /// The arguments that ask who may have signed.
    pub open spec fn find_arguments(&self) -> Seq<Seq<u8>> {
        seq![
            ascii("-Y"),
            ascii("find-principals"),
            ascii("-f"),
            self.allowed_signers@,
            ascii("-s"),
            self.signature_path@,
            self.verify_time@,
        ]
    }

    /// The arguments that ask whether `principal` has signed.
    pub open spec fn verify_arguments(&self, principal: Seq<u8>) -> Seq<Seq<u8>> {
        seq![
            ascii("-Y"),
            ascii("verify"),
            ascii("-n"),
            ascii("git"),
            ascii("-f"),
            self.allowed_signers@,
            ascii("-I"),
            principal,
            ascii("-s"),
            self.signature_path@,
            self.verify_time@,
        ] + match self.revocations {
            Some(file) => seq![ascii("-r"), file@],
            None => seq![],
        }
    }

    /// The arguments that ask whether the signature is sound, whoever has signed.
    pub open spec fn check_arguments(&self) -> Seq<Seq<u8>> {
        seq![
            ascii("-Y"),
            ascii("check-novalidate"),
            ascii("-n"),
            ascii("git"),
            ascii("-s"),
            self.signature_path@,
            self.verify_time@,
        ]
    }

    /// The arguments that ask who may have signed.
    pub fn find_command(&self) -> (arguments: Vec<Vec<u8>>)
        ensures
            views(arguments@) == self.find_arguments(),
    {
        let mut arguments: Vec<Vec<u8>> = Vec::new();
        arguments.push(literal("-Y"));
        arguments.push(literal("find-principals"));
        arguments.push(literal("-f"));
        arguments.push(slice_to_vec(self.allowed_signers.as_slice()));
        arguments.push(literal("-s"));
        arguments.push(slice_to_vec(self.signature_path.as_slice()));
        arguments.push(slice_to_vec(self.verify_time.as_slice()));
        assert(views(arguments@) =~= self.find_arguments());
        arguments
    }

    /// The arguments that ask whether `principal` has signed.
    pub fn verify_command(&self, principal: &[u8]) -> (arguments: Vec<Vec<u8>>)
        ensures
            views(arguments@) == self.verify_arguments(principal@),
    {
        let mut arguments: Vec<Vec<u8>> = Vec::new();
        arguments.push(literal("-Y"));
        arguments.push(literal("verify"));
        arguments.push(literal("-n"));
        arguments.push(literal("git"));
        arguments.push(literal("-f"));
        arguments.push(slice_to_vec(self.allowed_signers.as_slice()));
        arguments.push(literal("-I"));
        arguments.push(slice_to_vec(principal));
        arguments.push(literal("-s"));
        arguments.push(slice_to_vec(self.signature_path.as_slice()));
        arguments.push(slice_to_vec(self.verify_time.as_slice()));
        if let Some(file) = &self.revocations {
            arguments.push(literal("-r"));
            arguments.push(slice_to_vec(file.as_slice()));
        }
        assert(views(arguments@) =~= self.verify_arguments(principal@));
        arguments
    }

    /// The arguments that ask whether the signature is sound, whoever has signed.
    pub fn check_command(&self) -> (arguments: Vec<Vec<u8>>)
        ensures
            views(arguments@) == self.check_arguments(),
    {
        let mut arguments: Vec<Vec<u8>> = Vec::new();
        arguments.push(literal("-Y"));
        arguments.push(literal("check-novalidate"));
        arguments.push(literal("-n"));
        arguments.push(literal("git"));
        arguments.push(literal("-s"));
        arguments.push(slice_to_vec(self.signature_path.as_slice()));
        arguments.push(slice_to_vec(self.verify_time.as_slice()));
        assert(views(arguments@) =~= self.check_arguments());
        arguments
    }
}

/// Where an SSH verification stands: which program runs next.
pub enum SshStage {
    /// The program that finds out who may have signed.
    Finding,
    /// The program that checks whether the current one of `principals` has signed.
    Verifying { principals: Vec<Vec<u8>>, current: usize },
    /// The program that checks the signature without regard to who has signed.
    Checking,
}

/// An SSH verification that waits for the program of its stage.
pub struct SshVerification {
    /// What every run is told.
    pub request: SshRequest,
    /// Which program runs.
    pub stage: SshStage,
}

/// What comes next in an SSH verification.
pub enum SshStep {
    /// Run the verifier with these arguments, with the signed data as its input if
    /// `with_signed_data` is set and with no input otherwise, and go on with its output.
    Run { verification: SshVerification, arguments: Vec<Vec<u8>>, with_signed_data: bool },
    /// The verification is finished.
    Done(Outcome),
}

/// What a program wrote, and whether it reported success.
pub struct ProcessOutputView {
    pub success: bool,
    pub stdout: Seq<u8>,
    pub stderr: Seq<u8>,
}

impl View for ProcessOutput {
    type V = ProcessOutputView;

    open spec fn view(&self) -> ProcessOutputView {
        ProcessOutputView { success: self.success, stdout: self.stdout@, stderr: self.stderr@ }
    }
}

/// Where an SSH verification stands.
pub enum SshStageView {
    Finding,
    Verifying { principals: Seq<Seq<u8>>, current: int },
    Checking,
}

impl View for SshStage {
    type V = SshStageView;

    open spec fn view(&self) -> SshStageView {
        match self {
            SshStage::Finding => SshStageView::Finding,
            SshStage::Verifying { principals, current } => SshStageView::Verifying {
                principals: views(principals@),
                current: *current as int,
            },
            SshStage::Checking => SshStageView::Checking,
        }
    }
}

/// What comes next in an SSH verification.
pub enum SshStepView {
    Run {
        request: SshRequest,
        stage: SshStageView,
        arguments: Seq<Seq<u8>>,
        with_signed_data: bool,
    },
    Done(OutcomeView),
}

impl View for SshStep {
    type V = SshStepView;

    open spec fn view(&self) -> SshStepView {
        match self {
            SshStep::Run { verification, arguments, with_signed_data } => SshStepView::Run {
                request: verification.request,
                stage: verification.stage@,
                arguments: views(arguments@),
                with_signed_data: *with_signed_data,
            },
            SshStep::Done(outcome) => SshStepView::Done(outcome@),
        }
    }
}

impl SshStep {
    /// Whether the verification that this step goes on with, if it goes on at all, is well-formed.
    pub open spec fn wf(&self) -> bool {
        match self {
            SshStep::Run { verification, .. } => verification.wf(),
            SshStep::Done(_) => true,
        }
    }
}

impl SshVerification {
    /// The current principal is one of the list.
    pub open spec fn wf(&self) -> bool {
        match self.stage {
            SshStage::Verifying { principals, current } => current < principals@.len(),
            _ => true,
        }
    }
}

/// The answers of the finding program, one a line, without white space around them.
pub open spec fn answers_of(stdout: Seq<u8>) -> Seq<Seq<u8>> {
    lines_of(stdout).map_values(|line: Seq<u8>| trimmed(line))
}

/// What follows once it is known who may have signed: the first of them is verified, and without
/// any the signature is checked alone.
pub open spec fn after_finding(request: SshRequest, principals: Seq<Seq<u8>>) -> SshStepView {
    if principals.len() > 0 {
        SshStepView::Run {
            request,
            stage: SshStageView::Verifying { principals, current: 0 },
            arguments: request.verify_arguments(principals[0]),
            with_signed_data: true,
        }
    } else {
        SshStepView::Run {
            request,
            stage: SshStageView::Checking,
            arguments: request.check_arguments(),
            with_signed_data: true,
        }
    }
}

/// Whether the verifying program confirms its principal.
pub open spec fn confirms(output: ProcessOutputView) -> bool {
    output.success && ascii("Good").is_prefix_of(output.stdout)
}

/// What follows the program of a stage.
pub open spec fn ssh_next(
    request: SshRequest,
    stage: SshStageView,
    output: ProcessOutputView,
) -> SshStepView {
    match stage {
        SshStageView::Finding => after_finding(
            request,
            if output.success {
                non_empty(answers_of(output.stdout))
            } else {
                Seq::empty()
            },
        ),
        SshStageView::Verifying { principals, current } => if confirms(output) {
            SshStepView::Done(
                ssh_conclusion(
                    output.stdout,
                    output.stderr,
                    Some(principals[current]),
                    true,
                    request.minimum_trust,
                ),
            )
        } else if current + 1 < principals.len() {
            SshStepView::Run {
                request,
                stage: SshStageView::Verifying { principals, current: current + 1 },
                arguments: request.verify_arguments(principals[current + 1]),
                with_signed_data: true,
            }
        } else {
            SshStepView::Done(
                ssh_conclusion(output.stdout, output.stderr, None, true, request.minimum_trust),
            )
        },
        SshStageView::Checking => SshStepView::Done(
            ssh_conclusion(output.stdout, output.stderr, None, false, request.minimum_trust),
        ),
    }
}

/// The lines of `stdout`, without white space around them.
fn trimmed_lines(stdout: &[u8]) -> (answers: Vec<Vec<u8>>)
    ensures
        views(answers@) == answers_of(stdout@),
{
    let list = lines(stdout);
    let mut answers: Vec<Vec<u8>> = Vec::new();
    let mut i: usize = 0;
    while i < list.len()
        invariant
            i <= list.len(),
            views(list@) == lines_of(stdout@),
            answers@.len() == i,
            forall|k: int| 0 <= k < i ==> answers@[k]@ == trimmed(views(list@)[k]),
        decreases list.len() - i,
    {
        assert(views(list@)[i as int] == list@[i as int]@);
        answers.push(trim(list[i].as_slice()));
        i += 1;
    }
    assert(views(answers@) =~= answers_of(stdout@));
    answers
}

impl SshVerification {
    /// The beginning of a verification: the verifier is asked who may have signed.
    pub fn start(request: SshRequest) -> (step: SshStep)
        ensures
            step@ == (SshStepView::Run {
                request,
                stage: SshStageView::Finding,
                arguments: request.find_arguments(),
                with_signed_data: false,
            }),
            step.wf(),
    {
        let arguments = request.find_command();
        SshStep::Run {
            verification: SshVerification { request, stage: SshStage::Finding },
            arguments,
            with_signed_data: false,
        }
    }

    /// What follows once `principals` are known to be those who may have signed.
    pub fn with_principals(request: SshRequest, principals: Vec<Vec<u8>>) -> (step: SshStep)
        ensures
            step@ == after_finding(request, views(principals@)),
            step.wf(),
    {
        if principals.len() > 0 {
            let arguments = request.verify_command(principals[0].as_slice());
            SshStep::Run {
                verification: SshVerification {
                    request,
                    stage: SshStage::Verifying { principals, current: 0 },
                },
                arguments,
                with_signed_data: true,
            }
        } else {
            let arguments = request.check_command();
            SshStep::Run {
                verification: SshVerification { request, stage: SshStage::Checking },
                arguments,
                with_signed_data: true,
            }
        }
    }

    /// What follows the program that this verification waits for.
    pub fn advance(self, output: ProcessOutput) -> (step: SshStep)
        requires
            self.wf(),
        ensures
            step@ == ssh_next(self.request, self.stage@, output@),
            step.wf(),
    {
        let request = self.request;
        match self.stage {
            SshStage::Finding => {
                let principals = if output.success {
                    without_empty(trimmed_lines(output.stdout.as_slice()))
                } else {
                    Vec::new()
                };
                assert(!output.success ==> views(principals@) =~= Seq::empty());
                Self::with_principals(request, principals)
            },
            SshStage::Verifying { principals, current } => {
                let ghost list = views(principals@);
                assert(list[current as int] == principals@[current as int]@);
                let minimum_trust = request.minimum_trust;
                if output.success && starts_with(output.stdout.as_slice(), "Good".as_bytes()) {
                    let signer = slice_to_vec(principals[current].as_slice());
                    SshStep::Done(conclude_ssh(output, Some(signer), true, minimum_trust))
                } else if current < principals.len() - 1 {
                    assert(list[current + 1] == principals@[current + 1]@);
                    let arguments = request.verify_command(principals[current + 1].as_slice());
                    SshStep::Run {
                        verification: SshVerification {
                            request,
                            stage: SshStage::Verifying { principals, current: current + 1 },
                        },
                        arguments,
                        with_signed_data: true,
                    }
                } else {
                    SshStep::Done(conclude_ssh(output, None, true, minimum_trust))
                }
            },
            SshStage::Checking => {
                let minimum_trust = request.minimum_trust;
                SshStep::Done(conclude_ssh(output, None, false, minimum_trust))
            },
        }
    }
}

/// The directory against which a configured path is read.
#[derive(Clone, Copy, Debug, Eq, PartialEq, Structural)]
pub enum PathBase {
    /// The path stands for itself.
    Unchanged,
    /// The path is relative to the worktree.
    Worktree,
    /// The path is relative to the repository itself.
    GitDir,
}

/// The directory against which a configured path is read: none for an absolute path, otherwise
/// the worktree, or the repository if it has no worktree.
pub fn repository_relative(is_absolute: bool, has_worktree: bool) -> (base: PathBase)
    ensures
        base == (if is_absolute {
            PathBase::Unchanged
        } else if has_worktree {
            PathBase::Worktree
        } else {
            PathBase::GitDir
        }),
{
    if is_absolute {
        PathBase::Unchanged
    } else if has_worktree {
        PathBase::Worktree
    } else {
        PathBase::GitDir
    }
}

/// The outcome of an SSH verification whose programs write `outputs` in turn, if that many are
/// enough to finish it.
pub open spec fn ssh_run(
    request: SshRequest,
    stage: SshStageView,
    outputs: Seq<ProcessOutputView>,
) -> Option<OutcomeView>
    decreases outputs.len(),
{
    if outputs.len() == 0 {
        None
    } else {
        match ssh_next(request, stage, outputs[0]) {
            SshStepView::Done(outcome) => Some(outcome),
            SshStepView::Run { stage, .. } => ssh_run(request, stage, outputs.skip(1)),
        }
    }
}

proof fn lemma_ssh_run_principals(
    request: SshRequest,
    principals: Seq<Seq<u8>>,
    current: int,
    outputs: Seq<ProcessOutputView>,
    last: int,
)
    requires
        0 <= current <= last < principals.len(),
        outputs.len() == last - current + 1,
        forall|i: int| 0 <= i < last - current ==> !confirms(#[trigger] outputs[i]),
        confirms(outputs.last()) || last == principals.len() - 1,
    ensures
        ssh_run(request, SshStageView::Verifying { principals, current }, outputs) == Some(
            ssh_conclusion(
                outputs.last().stdout,
                outputs.last().stderr,
                if confirms(outputs.last()) {
                    Some(principals[last])
                } else {
                    None
                },
                true,
                request.minimum_trust,
            ),
        ),
    decreases last - current,
{
    if current < last {
        assert(!confirms(outputs[0]));
        let rest = outputs.skip(1);
        assert forall|i: int| 0 <= i < last - (current + 1) implies !confirms(#[trigger] rest[i]) by {
            assert(rest[i] == outputs[i + 1]);
        }
        assert(rest.last() == outputs.last());
        lemma_ssh_run_principals(request, principals, current + 1, rest, last);
    } else {
        assert(outputs[0] == outputs.last());
    }
}

/// The first principal that the verifier confirms is the signer, and later ones are not asked.
pub proof fn law_first_confirmed_principal_signs(
    request: SshRequest,
    found: ProcessOutputView,
    verified: Seq<ProcessOutputView>,
)
    requires
        found.success,
        0 < verified.len() <= non_empty(answers_of(found.stdout)).len(),
        forall|i: int| 0 <= i < verified.len() - 1 ==> !confirms(#[trigger] verified[i]),
        confirms(verified.last()),
    ensures
        ssh_run(request, SshStageView::Finding, seq![found] + verified) == Some(
            ssh_conclusion(
                verified.last().stdout,
                verified.last().stderr,
                Some(non_empty(answers_of(found.stdout))[verified.len() - 1]),
                true,
                request.minimum_trust,
            ),
        ),
{
    let principals = non_empty(answers_of(found.stdout));
    assert((seq![found] + verified).skip(1) =~= verified);
    lemma_ssh_run_principals(request, principals, 0, verified, verified.len() - 1);
}

/// If no principal is confirmed, the last one's output decides and there is no signer.
pub proof fn law_unconfirmed_principals_leave_no_signer(
    request: SshRequest,
    found: ProcessOutputView,
    verified: Seq<ProcessOutputView>,
)
    requires
        found.success,
        verified.len() == non_empty(answers_of(found.stdout)).len(),
        verified.len() > 0,
        forall|i: int| 0 <= i < verified.len() ==> !confirms(#[trigger] verified[i]),
    ensures
        ssh_run(request, SshStageView::Finding, seq![found] + verified) == Some(
            ssh_conclusion(
                verified.last().stdout,
                verified.last().stderr,
                None,
                true,
                request.minimum_trust,
            ),
        ),
{
    let principals = non_empty(answers_of(found.stdout));
    assert((seq![found] + verified).skip(1) =~= verified);
    lemma_ssh_run_principals(request, principals, 0, verified, verified.len() - 1);
}

/// Where nobody is known to have signed, the signature is checked alone, and it is never
/// accepted, whatever the minimum trust level is.
pub proof fn law_ssh_needs_a_principal(
    request: SshRequest,
    found: ProcessOutputView,
    checked: ProcessOutputView,
)
    requires
        !found.success || non_empty(answers_of(found.stdout)).len() == 0,
    ensures
        ({
            let outcome = ssh_run(request, SshStageView::Finding, seq![found, checked]);
            &&& outcome == Some(
                ssh_conclusion(
                    checked.stdout,
                    checked.stderr,
                    None,
                    false,
                    request.minimum_trust,
                ),
            )
            &&& !outcome.unwrap().valid
            &&& outcome.unwrap().trust_level == TrustLevel::Undefined
        }),
{
    assert(seq![found, checked].skip(1) =~= seq![checked]);
    reveal_with_fuel(ssh_run, 2);
}

/// An accepted SSH signature has a good status, and a trust level that is enough.
pub proof fn law_accepted_ssh_signatures_are_good(
    request: SshRequest,
    stage: SshStageView,
    outputs: Seq<ProcessOutputView>,
)
    ensures
        ssh_run(request, stage, outputs) matches Some(outcome) ==> outcome.format == Format::Ssh
            && (outcome.valid ==> outcome.status == Status::Good && outcome.trust_level
            == TrustLevel::Fully && outcome.trust_level.rank() >= request.minimum_trust.rank()),
    decreases outputs.len(),
{
    if outputs.len() > 0 {
        match ssh_next(request, stage, outputs[0]) {
            SshStepView::Done(_) => {},
            SshStepView::Run { stage, .. } => {
                law_accepted_ssh_signatures_are_good(request, stage, outputs.skip(1));
            },
        }
    }
}

proof fn lemma_undecided(lines: Seq<Seq<u8>>)
    requires
        forall|i: int| 0 <= i < lines.len() ==> !gives_result(#[trigger] lines[i]),
    ensures
        !report_of(lines).decided,
        report_of(lines).status == Status::Unknown,
        report_of(lines).signer is None,
        report_of(lines).key is None,
    decreases lines.len(),
{
    if lines.len() > 0 {
        assert(!gives_result(lines.last()));
        assert forall|i: int| 0 <= i < lines.len() - 1 implies !gives_result(
            #[trigger] lines.drop_last()[i],
        ) by {
            assert(lines.drop_last()[i] == lines[i]);
        }
        lemma_undecided(lines.drop_last());
    }
}

/// Verifier output without a result leaves the status unknown, so the signature is not good.
pub proof fn law_no_result_is_unknown(raw_output: Seq<u8>)
    requires
        forall|i: int|
            0 <= i < lines_of(raw_output).len() ==> !gives_result(
                #[trigger] lines_of(raw_output)[i],
            ),
    ensures
        report_of(lines_of(raw_output)).status == Status::Unknown,
        report_of(lines_of(raw_output)).signer is None,
        report_of(lines_of(raw_output)).key is None,
{
    lemma_undecided(lines_of(raw_output));
}

/// The one line that gives a result decides the status, the key and the signer.
pub proof fn law_single_result_decides(lines: Seq<Seq<u8>>, place: int)
    requires
        0 <= place < lines.len(),
        gives_result(lines[place]),
        forall|i: int|
            0 <= i < lines.len() && i != place ==> !gives_result(#[trigger] lines[i]),
    ensures
        report_of(lines).decided,
        ({
            let (status, value) = result_message(status_message(lines[place]).unwrap()).unwrap();
            let end = first_index(value, SPACE);
            &&& report_of(lines).status == status
            &&& report_of(lines).key == unless_empty(value.take(end))
            &&& report_of(lines).signer == (if end < value.len() {
                unless_empty(value.skip(end + 1))
            } else {
                None
            })
        }),
    decreases lines.len(),
{
    let earlier = lines.drop_last();
    if place == lines.len() - 1 {
        assert forall|i: int| 0 <= i < earlier.len() implies !gives_result(
            #[trigger] earlier[i],
        ) by {
            assert(earlier[i] == lines[i]);
        }
        lemma_undecided(earlier);
    } else {
        assert(!gives_result(lines.last()));
        assert forall|i: int| 0 <= i < earlier.len() && i != place implies !gives_result(
            #[trigger] earlier[i],
        ) by {
            assert(earlier[i] == lines[i]);
        }
        law_single_result_decides(earlier, place);
    }
}

proof fn lemma_decided(lines: Seq<Seq<u8>>, place: int)
    requires
        0 <= place < lines.len(),
        gives_result(lines[place]),
    ensures
        report_of(lines).decided,
    decreases lines.len(),
{
    if place < lines.len() - 1 {
        assert(lines.drop_last()[place] == lines[place]);
        lemma_decided(lines.drop_last(), place);
    }
}

/// Results that contradict each other by their number alone are an error: two lines that give a
/// result leave no signer, no key, and never a good status.
pub proof fn law_two_results_are_an_error(lines: Seq<Seq<u8>>, first: int, second: int)
    requires
        0 <= first < second < lines.len(),
        gives_result(lines[first]),
        gives_result(lines[second]),
    ensures
        report_of(lines).status == Status::Error,
        report_of(lines).signer is None,
        report_of(lines).key is None,
    decreases lines.len(),
{
    let earlier = lines.drop_last();
    if second == lines.len() - 1 {
        assert(earlier[first] == lines[first]);
        lemma_decided(earlier, first);
    } else {
        assert(earlier[first] == lines[first]);
        assert(earlier[second] == lines[second]);
        law_two_results_are_an_error(earlier, first, second);
        lemma_decided(earlier, first);
    }
}

/// The names of the trust levels are recognized, and in letters of any case.
pub proof fn law_trust_names_ignore_case(name: Seq<u8>, other: Seq<u8>)
    requires
        equal_ignoring_case(name, other),
    ensures
        trust_named(name) == trust_named(other),
{
}

} // verus!
