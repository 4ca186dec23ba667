//! Laws on commit signatures.

use vstd::prelude::*;

use crate::bytes::after_last;
use crate::bytes::ascii;
use crate::bytes::equal_ignoring_case;
use crate::bytes::fields_of;
use crate::bytes::lemma_first_index_unique;
use crate::bytes::lines_of;
use crate::bytes::non_empty;
use crate::foreign::debug_text;
use crate::foreign::formatted_time;
use crate::foreign::trimmed;
use crate::signature::announced_format;
use crate::signature::answers_of;
use crate::signature::compact_time;
use crate::signature::confirms;
use crate::signature::gives_result;
use crate::signature::gpg_arguments;
use crate::signature::outcome_of;
use crate::signature::program_for;
use crate::signature::report_of;
use crate::signature::result_message;
use crate::signature::ssh_conclusion;
use crate::signature::ssh_next;
use crate::signature::ssh_outcome;
use crate::signature::status_message;
use crate::signature::time_argument;
use crate::signature::trust_named;
use crate::signature::Error;
use crate::signature::Format;
use crate::signature::GpgReport;
use crate::signature::ProcessOutputView;
use crate::signature::Programs;
use crate::signature::SshRequest;
use crate::signature::SshStageView;
use crate::signature::SshStepView;
use crate::signature::Status;
use crate::signature::TrustLevel;

verus! {

/// The first line of a signature tells its format.
pub proof fn law_formats_are_announced(signature: Seq<u8>)
    ensures
        ({
            let pgp = ascii("-----BEGIN PGP SIGNATURE-----").is_prefix_of(signature) || ascii(
                "-----BEGIN PGP MESSAGE-----",
            ).is_prefix_of(signature);
            let x509 = ascii("-----BEGIN SIGNED MESSAGE-----").is_prefix_of(signature);
            let ssh = ascii("-----BEGIN SSH SIGNATURE-----").is_prefix_of(signature);
            &&& pgp ==> announced_format(signature) == Some(Format::OpenPgp)
            &&& x509 && !pgp ==> announced_format(signature) == Some(Format::X509)
            &&& ssh && !pgp && !x509 ==> announced_format(signature) == Some(Format::Ssh)
            &&& !pgp && !x509 && !ssh ==> announced_format(signature) is None
        }),
{
}

/// Trust grows from undefined over never, marginal and fully to ultimate.
pub proof fn law_trust_grows()
    ensures
        TrustLevel::Undefined.rank() < TrustLevel::Never.rank(),
        TrustLevel::Never.rank() < TrustLevel::Marginal.rank(),
        TrustLevel::Marginal.rank() < TrustLevel::Fully.rank(),
        TrustLevel::Fully.rank() < TrustLevel::Ultimate.rank(),
{
}

/// Whether text is the given name, in letters of any case.
pub open spec fn is_named(text: Seq<u8>, name: Seq<u8>) -> bool {
    equal_ignoring_case(text, name)
}

/// Each trust level has its name, and there are no other names.
pub proof fn law_trust_levels_have_names(text: Seq<u8>)
    ensures
        trust_named(text) == Some(TrustLevel::Undefined) <==> is_named(text, ascii("undefined")),
        trust_named(text) == Some(TrustLevel::Never) <==> is_named(text, ascii("never")) && !is_named(
            text,
            ascii("undefined"),
        ),
        trust_named(text) == Some(TrustLevel::Marginal) ==> is_named(text, ascii("marginal")),
        trust_named(text) == Some(TrustLevel::Fully) ==> is_named(text, ascii("fully")),
        trust_named(text) == Some(TrustLevel::Ultimate) ==> is_named(text, ascii("ultimate")),
        trust_named(text) is None <==> !is_named(text, ascii("undefined")) && !is_named(
            text,
            ascii("never"),
        ) && !is_named(text, ascii("marginal")) && !is_named(text, ascii("fully")) && !is_named(
            text,
            ascii("ultimate"),
        ),
{
}

/// Before anything is said, the result is unknown and nothing is trusted.
pub proof fn law_reports_begin_empty()
    ensures
        report_of(Seq::empty()) == (GpgReport {
            decided: false,
            status: Status::Unknown,
            trust_level: TrustLevel::Undefined,
            signer: None,
            key: None,
            fingerprint: None,
            primary_key_fingerprint: None,
        }),
{
}

/// A line that isn't a status line says nothing.
pub proof fn law_other_lines_say_nothing(lines: Seq<Seq<u8>>, line: Seq<u8>)
    requires
        !ascii("[GNUPG:] ").is_prefix_of(line),
    ensures
        report_of(lines.push(line)) == report_of(lines),
        !gives_result(line),
{
    assert(lines.push(line).drop_last() =~= lines);
}

/// A status line gives a result exactly if one of the words for results comes right behind the mark.
pub proof fn law_results_begin_with_a_word(line: Seq<u8>, message: Seq<u8>)
    requires
        line == ascii("[GNUPG:] ") + message,
    ensures
        gives_result(line) <==> ascii("GOODSIG ").is_prefix_of(message) || ascii("BADSIG ").is_prefix_of(
            message,
        ) || ascii("ERRSIG ").is_prefix_of(message) || ascii("EXPSIG ").is_prefix_of(message)
            || ascii("EXPKEYSIG ").is_prefix_of(message) || ascii("REVKEYSIG ").is_prefix_of(message),
{
    assert(line.take(ascii("[GNUPG:] ").len() as int) =~= ascii("[GNUPG:] "));
    assert(rest_of(line, ascii("[GNUPG:] ")) =~= message);
}

/// The part of a text behind another one that it begins with.
pub open spec fn rest_of(text: Seq<u8>, beginning: Seq<u8>) -> Seq<u8> {
    text.skip(beginning.len() as int)
}

/// Status lines begin with the same mark, and the words behind it that give a result are these.
pub proof fn law_words_that_give_results(line: Seq<u8>, message: Seq<u8>)
    ensures
        ascii("[GNUPG:] ").is_prefix_of(line) ==> status_message(line) == Some(
            rest_of(line, ascii("[GNUPG:] ")),
        ),
        ({
            let good = ascii("GOODSIG ");
            let bad = ascii("BADSIG ");
            let error = ascii("ERRSIG ");
            let expired = ascii("EXPSIG ");
            let expired_key = ascii("EXPKEYSIG ");
            let revoked = ascii("REVKEYSIG ");
            let g = good.is_prefix_of(message);
            let b = bad.is_prefix_of(message);
            let e = error.is_prefix_of(message);
            let x = expired.is_prefix_of(message);
            let k = expired_key.is_prefix_of(message);
            let r = revoked.is_prefix_of(message);
            &&& g ==> result_message(message) == Some((Status::Good, rest_of(message, good)))
            &&& b && !g ==> result_message(message) == Some((Status::Bad, rest_of(message, bad)))
            &&& e && !g && !b ==> result_message(message) == Some(
                (Status::Error, rest_of(message, error)),
            )
            &&& x && !g && !b && !e ==> result_message(message) == Some(
                (Status::Expired, rest_of(message, expired)),
            )
            &&& k && !g && !b && !e && !x ==> result_message(message) == Some(
                (Status::ExpiredKey, rest_of(message, expired_key)),
            )
            &&& r && !g && !b && !e && !x && !k ==> result_message(message) == Some(
                (Status::RevokedKey, rest_of(message, revoked)),
            )
            &&& !g && !b && !e && !x && !k && !r ==> result_message(message) is None
        }),
{
}

/// The first result counts: up to the first space it names the key, and behind that the signer; what is empty
/// is not named.
pub proof fn law_first_results_name_key_and_signer(
    lines: Seq<Seq<u8>>,
    line: Seq<u8>,
    status: Status,
    key: Seq<u8>,
    signer: Seq<u8>,
)
    requires
        !report_of(lines).decided,
        !key.contains(32),
        status_message(line) is Some,
        result_message(status_message(line).unwrap()) == Some((status, key.push(32) + signer)),
    ensures
        ({
            let report = report_of(lines.push(line));
            &&& report.decided
            &&& report.status == status
            &&& key.len() > 0 ==> report.key == Some(key)
            &&& key.len() == 0 ==> report.key is None
            &&& signer.len() > 0 ==> report.signer == Some(signer)
            &&& signer.len() == 0 ==> report.signer is None
        }),
{
    let value = key.push(32) + signer;
    assert(lines.push(line).drop_last() =~= lines);
    assert forall|i: int| 0 <= i < key.len() implies value[i] != 32 by {
        assert(key.contains(key[i]));
        assert(value[i] == key[i]);
    }
    assert(value[key.len() as int] == 32);
    lemma_first_index_unique(value, 32, key.len() as int);
    assert(value.take(key.len() as int) =~= key);
    assert(value.skip(key.len() as int + 1) =~= signer);
}

/// A result without a space names the key alone.
pub proof fn law_results_without_space_name_the_key(
    lines: Seq<Seq<u8>>,
    line: Seq<u8>,
    status: Status,
    key: Seq<u8>,
)
    requires
        !report_of(lines).decided,
        !key.contains(32),
        status_message(line) is Some,
        result_message(status_message(line).unwrap()) == Some((status, key)),
    ensures
        ({
            let report = report_of(lines.push(line));
            &&& report.decided
            &&& report.status == status
            &&& key.len() > 0 ==> report.key == Some(key)
            &&& key.len() == 0 ==> report.key is None
            &&& report.signer is None
        }),
{
    assert(lines.push(line).drop_last() =~= lines);
    assert forall|i: int| 0 <= i < key.len() implies key[i] != 32 by {
        assert(key.contains(key[i]));
    }
    lemma_first_index_unique(key, 32, key.len() as int);
    assert(key.take(key.len() as int) =~= key);
}

/// A second result makes the status an error, and takes key and signer back.
pub proof fn law_second_results_are_errors(lines: Seq<Seq<u8>>, line: Seq<u8>)
    requires
        report_of(lines).decided,
        status_message(line) is Some,
        result_message(status_message(line).unwrap()) is Some,
    ensures
        report_of(lines.push(line)).decided,
        report_of(lines.push(line)).status == Status::Error,
        report_of(lines.push(line)).key is None,
        report_of(lines.push(line)).signer is None,
{
    assert(lines.push(line).drop_last() =~= lines);
}

/// A status line that gives no result changes neither the status, nor key, nor signer.
pub proof fn law_other_status_lines_give_no_result(lines: Seq<Seq<u8>>, line: Seq<u8>)
    requires
        status_message(line) is Some,
        result_message(status_message(line).unwrap()) is None,
    ensures
        report_of(lines.push(line)).decided == report_of(lines).decided,
        report_of(lines.push(line)).status == report_of(lines).status,
        report_of(lines.push(line)).key == report_of(lines).key,
        report_of(lines.push(line)).signer == report_of(lines).signer,
{
    assert(lines.push(line).drop_last() =~= lines);
}

/// A status line that speaks of trust gives the level that the word up to the first space names, or an
/// undefined one; no other line changes the level.
pub proof fn law_trust_lines_give_the_level(lines: Seq<Seq<u8>>, line: Seq<u8>, message: Seq<u8>)
    requires
        status_message(line) == Some(message),
    ensures
        !ascii("TRUST_").is_prefix_of(message) ==> report_of(lines.push(line)).trust_level
            == report_of(lines).trust_level,
        ascii("TRUST_").is_prefix_of(message) ==> ({
            let name = fields_of(rest_of(message, ascii("TRUST_")), 32)[0];
            &&& trust_named(name) is None ==> report_of(lines.push(line)).trust_level
                == TrustLevel::Undefined
            &&& trust_named(name) matches Some(level) ==> report_of(lines.push(line)).trust_level
                == level
            &&& report_of(lines.push(line)).fingerprint == report_of(lines).fingerprint
            &&& report_of(lines.push(line)).primary_key_fingerprint == report_of(
                lines,
            ).primary_key_fingerprint
        }),
{
    assert(lines.push(line).drop_last() =~= lines);
    let value = rest_of(message, ascii("TRUST_"));
    let end = crate::bytes::first_index(value, 32);
    crate::bytes::lemma_first_index(value, 32);
    assert(fields_of(value, 32)[0] =~= value.take(end));
}

/// A status line on a valid signature gives the fingerprints: the first field, and the tenth if there are that
/// many, unless they are empty; no other line changes them.
pub proof fn law_validity_lines_give_fingerprints(lines: Seq<Seq<u8>>, line: Seq<u8>, message: Seq<u8>)
    requires
        status_message(line) == Some(message),
        !ascii("TRUST_").is_prefix_of(message),
    ensures
        !ascii("VALIDSIG ").is_prefix_of(message) ==> report_of(lines.push(line)).fingerprint
            == report_of(lines).fingerprint && report_of(lines.push(line)).primary_key_fingerprint
            == report_of(lines).primary_key_fingerprint,
        ascii("VALIDSIG ").is_prefix_of(message) ==> ({
            let fields = fields_of(rest_of(message, ascii("VALIDSIG ")), 32);
            let report = report_of(lines.push(line));
            &&& fields[0].len() > 0 ==> report.fingerprint == Some(fields[0])
            &&& fields[0].len() == 0 ==> report.fingerprint is None
            &&& fields.len() >= 10 && fields[9].len() > 0 ==> report.primary_key_fingerprint == Some(
                fields[9],
            )
            &&& fields.len() < 10 || fields[9].len() == 0 ==> report.primary_key_fingerprint is None
        }),
{
    assert(lines.push(line).drop_last() =~= lines);
}

/// An outcome says what the report says, and keeps both outputs.
pub proof fn law_outcomes_say_what_reports_say(
    format: Format,
    report: GpgReport,
    output: Seq<u8>,
    raw_output: Seq<u8>,
    valid: bool,
)
    ensures
        ({
            let outcome = outcome_of(format, report, output, raw_output, valid);
            &&& outcome.format == format && outcome.status == report.status
            &&& outcome.trust_level == report.trust_level
            &&& outcome.signer == report.signer && outcome.key == report.key
            &&& outcome.fingerprint == report.fingerprint
            &&& outcome.primary_key_fingerprint == report.primary_key_fingerprint
            &&& outcome.output == output && outcome.raw_output == raw_output
            &&& outcome.valid == valid
        }),
{
}

/// The program of a format is the one that is configured for it, and otherwise the usual one; for OpenPGP
/// there is a second place to configure it.
pub proof fn law_configured_programs_are_used(programs: Programs)
    ensures
        programs.openpgp matches Some(program) ==> program_for(programs, Format::OpenPgp) == program@,
        programs.openpgp is None ==> (programs.gpg matches Some(program) ==> program_for(
            programs,
            Format::OpenPgp,
        ) == program@),
        programs.openpgp is None && programs.gpg is None ==> program_for(programs, Format::OpenPgp)
            == ascii("gpg"),
        programs.x509 matches Some(program) ==> program_for(programs, Format::X509) == program@,
        programs.x509 is None ==> program_for(programs, Format::X509) == ascii("gpgsm"),
        programs.ssh matches Some(program) ==> program_for(programs, Format::Ssh) == program@,
        programs.ssh is None ==> program_for(programs, Format::Ssh) == ascii("ssh-keygen"),
{
}

/// What the verifiers are asked.
pub proof fn law_verifiers_are_asked(
    request: SshRequest,
    path: Seq<u8>,
    principal: Seq<u8>,
    seconds: i64,
    offset: i32,
    text: Seq<char>,
)
    ensures
        gpg_arguments(Format::OpenPgp, path) == seq![
            ascii("--keyid-format=long"),
            ascii("--status-fd=1"),
            ascii("--verify"),
            path,
            ascii("-"),
        ],
        gpg_arguments(Format::X509, path) == seq![
            ascii("--status-fd=1"),
            ascii("--verify"),
            path,
            ascii("-"),
        ],
        request.find_arguments() == seq![
            ascii("-Y"),
            ascii("find-principals"),
            ascii("-f"),
            request.allowed_signers@,
            ascii("-s"),
            request.signature_path@,
            request.verify_time@,
        ],
        request.revocations is None ==> request.verify_arguments(principal) == seq![
            ascii("-Y"),
            ascii("verify"),
            ascii("-n"),
            ascii("git"),
            ascii("-f"),
            request.allowed_signers@,
            ascii("-I"),
            principal,
            ascii("-s"),
            request.signature_path@,
            request.verify_time@,
        ],
        request.revocations matches Some(file) ==> request.verify_arguments(principal) == seq![
            ascii("-Y"),
            ascii("verify"),
            ascii("-n"),
            ascii("git"),
            ascii("-f"),
            request.allowed_signers@,
            ascii("-I"),
            principal,
            ascii("-s"),
            request.signature_path@,
            request.verify_time@,
            ascii("-r"),
            file@,
        ],
        request.check_arguments() == seq![
            ascii("-Y"),
            ascii("check-novalidate"),
            ascii("-n"),
            ascii("git"),
            ascii("-s"),
            request.signature_path@,
            request.verify_time@,
        ],
        compact_time(seconds, offset) == formatted_time(seconds, offset, "%Y%m%d%H%M%S"@),
        time_argument(text) == ascii("-Overify-time=") + vstd::utf8::encode_utf8(text),
{
}

/// What the SSH verifier writes is good if it begins with its usual words, and bad otherwise. What follows the
/// word for the key in its first line is the key and its fingerprint.
pub proof fn law_ssh_output_tells_status_and_key(
    output: Seq<u8>,
    signer: Option<Seq<u8>>,
    trust_level: TrustLevel,
    valid: bool,
)
    ensures
        ({
            let outcome = ssh_outcome(output, signer, trust_level, valid);
            &&& outcome.format == Format::Ssh
            &&& ascii("Good \"git\" signature").is_prefix_of(output) ==> outcome.status == Status::Good
            &&& !ascii("Good \"git\" signature").is_prefix_of(output) ==> outcome.status == Status::Bad
            &&& outcome.trust_level == trust_level && outcome.signer == signer && outcome.valid == valid
            &&& outcome.output == output && outcome.raw_output == output
            &&& outcome.primary_key_fingerprint is None
            &&& outcome.key == outcome.fingerprint
            &&& lines_of(output).len() == 0 ==> outcome.key is None
            &&& lines_of(output).len() > 0 ==> outcome.key == after_last(
                lines_of(output)[0],
                ascii(" key "),
                (lines_of(output)[0].len() + 1) as nat,
            )
        }),
{
}

/// An SSH signature is accepted exactly if a principal was tried, the deciding output begins with the words for
/// a good signature, and full trust is enough: for each minimum but the ultimate one.
pub proof fn law_good_ssh_signatures_are_accepted(
    stdout: Seq<u8>,
    stderr: Seq<u8>,
    signer: Option<Seq<u8>>,
    has_principal: bool,
    minimum: TrustLevel,
)
    ensures
        ({
            let outcome = ssh_conclusion(stdout, stderr, signer, has_principal, minimum);
            let good = ascii("Good \"git\" signature").is_prefix_of(stdout + stderr);
            &&& outcome.valid <==> has_principal && good && (minimum == TrustLevel::Undefined
                || minimum == TrustLevel::Never || minimum == TrustLevel::Marginal || minimum
                == TrustLevel::Fully)
            &&& outcome.status == Status::Good <==> good
            &&& has_principal ==> outcome.trust_level == TrustLevel::Fully
            &&& !has_principal ==> outcome.trust_level == TrustLevel::Undefined
            &&& outcome.signer == signer
            &&& outcome.output == stdout + stderr
        }),
{
}

/// What is accepted at one minimum of trust is accepted at each lower one, and nothing else of the outcome
/// depends on the minimum.
pub proof fn law_lower_minimums_accept_more(
    stdout: Seq<u8>,
    stderr: Seq<u8>,
    signer: Option<Seq<u8>>,
    has_principal: bool,
    lower: TrustLevel,
    higher: TrustLevel,
)
    requires
        lower.rank() <= higher.rank(),
    ensures
        ssh_conclusion(stdout, stderr, signer, has_principal, higher).valid ==> ssh_conclusion(
            stdout,
            stderr,
            signer,
            has_principal,
            lower,
        ).valid,
        ssh_conclusion(stdout, stderr, signer, has_principal, higher).status == ssh_conclusion(
            stdout,
            stderr,
            signer,
            has_principal,
            lower,
        ).status,
{
}

/// The principals are the lines of the finding program, without white space around them, apart from empty ones,
/// if it succeeded. The first of them is verified first; without any the signature is checked alone.
pub proof fn law_found_principals_are_verified(request: SshRequest, found: ProcessOutputView)
    ensures
        ({
            let lines = lines_of(found.stdout);
            let trimmed_lines = Seq::new(lines.len(), |i: int| trimmed(lines[i]));
            let principals = non_empty(trimmed_lines);
            let next = ssh_next(request, SshStageView::Finding, found);
            &&& answers_of(found.stdout) == trimmed_lines
            &&& found.success && principals.len() > 0 ==> next == (SshStepView::Run {
                request,
                stage: SshStageView::Verifying { principals, current: 0 },
                arguments: request.verify_arguments(principals[0]),
                with_signed_data: true,
            })
            &&& !found.success || principals.len() == 0 ==> next == (SshStepView::Run {
                request,
                stage: SshStageView::Checking,
                arguments: request.check_arguments(),
                with_signed_data: true,
            })
        }),
{
    let lines = lines_of(found.stdout);
    assert(answers_of(found.stdout) =~= Seq::new(lines.len(), |i: int| trimmed(lines[i])));
}

/// A principal is confirmed by a program that succeeds and says so: it is the signer, and its output decides.
/// Otherwise the next principal is verified, and after the last one its output decides, without a signer.
pub proof fn law_principals_are_tried_in_turn(
    request: SshRequest,
    principals: Seq<Seq<u8>>,
    current: int,
    output: ProcessOutputView,
)
    requires
        0 <= current < principals.len(),
    ensures
        ({
            let stage = SshStageView::Verifying { principals, current };
            let next = ssh_next(request, stage, output);
            let confirmed = output.success && ascii("Good").is_prefix_of(output.stdout);
            &&& confirms(output) == confirmed
            &&& confirmed ==> next == SshStepView::Done(
                ssh_conclusion(
                    output.stdout,
                    output.stderr,
                    Some(principals[current]),
                    true,
                    request.minimum_trust,
                ),
            )
            &&& !confirmed && current + 1 < principals.len() ==> next == (SshStepView::Run {
                request,
                stage: SshStageView::Verifying { principals, current: current + 1 },
                arguments: request.verify_arguments(principals[current + 1]),
                with_signed_data: true,
            })
            &&& !confirmed && current + 1 == principals.len() ==> next == SshStepView::Done(
                ssh_conclusion(output.stdout, output.stderr, None, true, request.minimum_trust),
            )
        }),
        ssh_next(request, SshStageView::Checking, output) == SshStepView::Done(
            ssh_conclusion(output.stdout, output.stderr, None, false, request.minimum_trust),
        ),
{
}

/// What the errors say.
pub proof fn law_errors_on_signatures_say_why(value: Vec<u8>, reason: String)
    ensures
        Error::UnsupportedFormat.text() == "The signature format is unsupported"@,
        Error::InvalidTrustLevel(value).text() == "Invalid value for gpg.minTrustLevel: "@
            + debug_text(value@),
        Error::MissingAllowedSigners.text()
            == "gpg.ssh.allowedSignersFile must be configured for SSH signature verification"@,
        Error::CommitTime(reason).text() == "Commit time could not be formatted for SSH verification"@,
{
}

} // verus!
