//! Signatures of commits.

use gitcore::signature::conclude_gpg;
use gitcore::signature::gpg_command;
use gitcore::signature::minimum_trust;
use gitcore::signature::parse_gpg_output;
use gitcore::signature::parse_ssh_output;
use gitcore::signature::parse_trust;
use gitcore::signature::prepare;
use gitcore::signature::repository_relative;
use gitcore::signature::signature_format;
use gitcore::signature::ssh_inputs;
use gitcore::signature::verifier_program;
use gitcore::signature::verify_time;
use gitcore::signature::Error;
use gitcore::signature::Format;
use gitcore::signature::PathBase;
use gitcore::signature::ProcessOutput;
use gitcore::signature::Programs;
use gitcore::signature::SshRequest;
use gitcore::signature::SshStep;
use gitcore::signature::SshVerification;
use gitcore::signature::Status;
use gitcore::signature::TrustLevel;

fn output(success: bool, stdout: &str, stderr: &str) -> ProcessOutput {
    ProcessOutput {
        success,
        stdout: stdout.as_bytes().to_vec(),
        stderr: stderr.as_bytes().to_vec(),
    }
}

#[test]
fn formats_are_known_by_their_first_line() {
    let format = |text: &str| signature_format(text.as_bytes()).ok();
    assert_eq!(format("-----BEGIN PGP SIGNATURE-----\n"), Some(Format::OpenPgp));
    assert_eq!(format("-----BEGIN PGP MESSAGE-----\n"), Some(Format::OpenPgp));
    assert_eq!(format("-----BEGIN SIGNED MESSAGE-----"), Some(Format::X509));
    assert_eq!(format("-----BEGIN SSH SIGNATURE-----"), Some(Format::Ssh));
    assert_eq!(format(" -----BEGIN SSH SIGNATURE-----"), None);
    assert_eq!(
        signature_format(b"").expect_err("empty").message(),
        "The signature format is unsupported"
    );
}

#[test]
fn trust_levels_are_ordered_and_named() {
    let levels = [
        ("undefined", TrustLevel::Undefined),
        ("Never", TrustLevel::Never),
        ("MARGINAL", TrustLevel::Marginal),
        ("fully", TrustLevel::Fully),
        ("Ultimate", TrustLevel::Ultimate),
    ];
    for (index, (name, level)) in levels.iter().enumerate() {
        assert_eq!(parse_trust(name.as_bytes()), Some(*level));
        for (other_index, (_, other)) in levels.iter().enumerate() {
            assert_eq!(level.at_least(*other), index >= other_index);
            assert_eq!(level >= other, index >= other_index);
        }
    }
    assert_eq!(parse_trust(b"full"), None);
    assert_eq!(TrustLevel::default(), TrustLevel::Undefined);
}

#[test]
fn minimum_trust_is_configured() {
    assert_eq!(minimum_trust(None).ok(), Some(TrustLevel::Undefined));
    assert_eq!(
        minimum_trust(Some(b" \tFully\n".to_vec())).ok(),
        Some(TrustLevel::Fully),
        "white space around the value does not matter"
    );
    let err = minimum_trust(Some(b" some ".to_vec())).expect_err("not a level");
    assert_eq!(err.message(), "Invalid value for gpg.minTrustLevel: \" some \"");
    assert!(matches!(err, Error::InvalidTrustLevel(value) if value == b" some "));

    assert!(matches!(
        prepare(b"?", Some(b"some".to_vec())),
        Err(Error::UnsupportedFormat)
    ));
    assert_eq!(
        prepare(b"-----BEGIN SSH SIGNATURE-----", Some(b"never".to_vec())).ok(),
        Some((Format::Ssh, TrustLevel::Never))
    );
}

#[test]
fn programs_and_arguments_depend_on_the_format() {
    let none = || Programs {
        openpgp: None,
        gpg: None,
        x509: None,
        ssh: None,
    };
    assert_eq!(verifier_program(none(), Format::OpenPgp), b"gpg");
    assert_eq!(verifier_program(none(), Format::X509), b"gpgsm");
    assert_eq!(verifier_program(none(), Format::Ssh), b"ssh-keygen");
    let some = |text: &str| Some(text.as_bytes().to_vec());
    let programs = Programs {
        gpg: some("general"),
        ..none()
    };
    assert_eq!(verifier_program(programs, Format::OpenPgp), b"general");
    let programs = Programs {
        gpg: some("general"),
        openpgp: some("special"),
        x509: some("x"),
        ssh: some("s"),
    };
    assert_eq!(verifier_program(programs, Format::OpenPgp), b"special");
    assert_eq!(
        gpg_command(Format::OpenPgp, b"file"),
        [
            b"--keyid-format=long".to_vec(),
            b"--status-fd=1".to_vec(),
            b"--verify".to_vec(),
            b"file".to_vec(),
            b"-".to_vec()
        ]
    );
    assert_eq!(gpg_command(Format::X509, b"file").len(), 4);
    assert_eq!(repository_relative(true, true), PathBase::Unchanged);
    assert_eq!(repository_relative(false, true), PathBase::Worktree);
    assert_eq!(repository_relative(false, false), PathBase::GitDir);
}

const GOOD: &str = "[GNUPG:] NEWSIG\r\n\
    [GNUPG:] GOODSIG 0123 A U Thor <a@example.com>\r\n\
    [GNUPG:] VALIDSIG F 2 3 4 5 6 7 8 9 P\r\n\
    [GNUPG:] TRUST_FULLY 0 pgp\r\n";

#[test]
fn good_signatures_are_read_in_full() {
    let outcome = parse_gpg_output(Format::OpenPgp, b"human".to_vec(), GOOD.as_bytes().to_vec());
    assert_eq!(outcome.status, Status::Good);
    assert_eq!(outcome.trust_level, TrustLevel::Fully);
    assert_eq!(outcome.key.as_deref(), Some(&b"0123"[..]));
    assert_eq!(outcome.signer.as_deref(), Some(&b"A U Thor <a@example.com>"[..]));
    assert_eq!(outcome.fingerprint.as_deref(), Some(&b"F"[..]));
    assert_eq!(outcome.primary_key_fingerprint.as_deref(), Some(&b"P"[..]));
    assert_eq!(outcome.output, b"human");
    assert_eq!(outcome.raw_output, GOOD.as_bytes());
    assert!(!outcome.is_valid(), "reading is not judging");
}

#[test]
fn each_result_line_has_its_status() {
    let status = |text: &str| parse_gpg_output(Format::X509, Vec::new(), text.as_bytes().to_vec()).status;
    assert_eq!(status("[GNUPG:] BADSIG 1 a"), Status::Bad);
    assert_eq!(status("[GNUPG:] ERRSIG 1 a"), Status::Error);
    assert_eq!(status("[GNUPG:] EXPSIG 1 a"), Status::Expired);
    assert_eq!(status("[GNUPG:] EXPKEYSIG 1 a"), Status::ExpiredKey);
    assert_eq!(status("[GNUPG:] REVKEYSIG 1 a"), Status::RevokedKey);
    assert_eq!(status("GOODSIG 1 a"), Status::Unknown, "only status lines count");
    assert_eq!(status(""), Status::Unknown);

    let outcome = parse_gpg_output(Format::X509, Vec::new(), b"[GNUPG:] GOODSIG \n[GNUPG:] TRUST_odd\n[GNUPG:] VALIDSIG  2".to_vec());
    assert_eq!(outcome.key, None);
    assert_eq!(outcome.signer, None);
    assert_eq!(outcome.trust_level, TrustLevel::Undefined);
    assert_eq!(outcome.fingerprint, None);
    assert_eq!(outcome.primary_key_fingerprint, None);
}

#[test]
fn two_results_are_an_error() {
    let text = format!("{GOOD}[GNUPG:] GOODSIG 4567 B\n");
    let outcome = parse_gpg_output(Format::OpenPgp, Vec::new(), text.into_bytes());
    assert_eq!(outcome.status, Status::Error);
    assert_eq!(outcome.signer, None);
    assert_eq!(outcome.key, None);
    assert_eq!(outcome.fingerprint.as_deref(), Some(&b"F"[..]));
}

#[test]
fn acceptance_needs_success_and_trust() {
    let judge = |success: bool, minimum: TrustLevel| {
        conclude_gpg(Format::OpenPgp, output(success, GOOD, "human"), minimum).is_valid()
    };
    assert!(judge(true, TrustLevel::Fully));
    assert!(!judge(true, TrustLevel::Ultimate));
    assert!(!judge(false, TrustLevel::Undefined));
    assert!(!conclude_gpg(Format::OpenPgp, output(true, "", ""), TrustLevel::Undefined).is_valid());
}

#[test]
fn ssh_output_is_read() {
    let outcome = parse_ssh_output(
        b"Good \"git\" signature for me with ED25519 key key SHA256:abc\nmore".to_vec(),
        Some(b"me".to_vec()),
        TrustLevel::Fully,
    );
    assert_eq!(outcome.format, Format::Ssh);
    assert_eq!(outcome.status, Status::Good);
    assert_eq!(outcome.key.as_deref(), Some(&b"SHA256:abc"[..]), "the last mark counts");
    assert_eq!(outcome.fingerprint, outcome.key);
    assert_eq!(outcome.signer.as_deref(), Some(&b"me"[..]));
    let outcome = parse_ssh_output(b"Could not verify".to_vec(), None, TrustLevel::Undefined);
    assert_eq!(outcome.status, Status::Bad);
    assert_eq!(outcome.key, None);
    assert_eq!(parse_ssh_output(Vec::new(), None, TrustLevel::Undefined).key, None);
}

#[test]
fn verification_time_is_an_argument() {
    assert_eq!(
        verify_time(0, 0).expect("valid time"),
        b"-Overify-time=19700101000000"
    );
    assert_eq!(
        verify_time(1_600_000_000, 7200).expect("valid time"),
        b"-Overify-time=20200913142640"
    );
    let err = verify_time(i64::MAX, 0).expect_err("out of range");
    assert_eq!(
        err.message(),
        "Commit time could not be formatted for SSH verification"
    );
}

fn request(minimum_trust: TrustLevel) -> SshRequest {
    SshRequest {
        allowed_signers: b"allowed".to_vec(),
        revocations: Some(b"revoked".to_vec()),
        signature_path: b"signature".to_vec(),
        verify_time: b"-Overify-time=1".to_vec(),
        minimum_trust,
    }
}

fn run(step: SshStep) -> (SshVerification, Vec<String>, bool) {
    match step {
        SshStep::Run {
            verification,
            arguments,
            with_signed_data,
        } => (
            verification,
            arguments
                .into_iter()
                .map(|argument| String::from_utf8(argument).expect("ASCII"))
                .collect(),
            with_signed_data,
        ),
        SshStep::Done(_) => panic!("there is more to run"),
    }
}

#[test]
fn allowed_signers_are_needed() {
    let err = ssh_inputs(None, i64::MAX, 0).expect_err("nothing is configured");
    assert_eq!(
        err.message(),
        "gpg.ssh.allowedSignersFile must be configured for SSH signature verification"
    );
    assert!(matches!(
        ssh_inputs(Some(b"allowed".to_vec()), i64::MAX, 0),
        Err(Error::CommitTime(_))
    ));
    let inputs = ssh_inputs(Some(b"allowed".to_vec()), 0, 0).expect("everything is there");
    assert_eq!(inputs, (b"allowed".to_vec(), b"-Overify-time=19700101000000".to_vec()));
}

#[test]
fn principals_are_tried_until_one_is_confirmed() {
    let (verification, arguments, with_data) = run(SshVerification::start(request(TrustLevel::Fully)));
    assert_eq!(
        arguments,
        ["-Y", "find-principals", "-f", "allowed", "-s", "signature", "-Overify-time=1"]
    );
    assert!(!with_data);
    let (verification, arguments, with_data) = run(verification.advance(output(true, "one\n\n \ntwo \n", "")));
    assert_eq!(
        arguments,
        [
            "-Y", "verify", "-n", "git", "-f", "allowed", "-I", "one", "-s", "signature",
            "-Overify-time=1", "-r", "revoked"
        ]
    );
    assert!(with_data);
    let (verification, arguments, _) = run(verification.advance(output(false, "Good", "no")));
    assert_eq!(arguments[7], "two");
    match verification.advance(output(true, "Good \"git\" signature with key K", "note")) {
        SshStep::Done(outcome) => {
            assert_eq!(outcome.signer.as_deref(), Some(&b"two"[..]));
            assert_eq!(outcome.trust_level, TrustLevel::Fully);
            assert_eq!(outcome.output, b"Good \"git\" signature with key Knote");
            assert!(outcome.is_valid());
        }
        SshStep::Run { .. } => panic!("the signer is known"),
    }
}

#[test]
fn unconfirmed_principals_leave_no_signer() {
    let (verification, _, _) = run(SshVerification::start(request(TrustLevel::Undefined)));
    let (verification, _, _) = run(verification.advance(output(true, "one", "")));
    match verification.advance(output(false, "", "bad signature")) {
        SshStep::Done(outcome) => {
            assert_eq!(outcome.signer, None);
            assert_eq!(outcome.status, Status::Bad);
            assert_eq!(outcome.output, b"bad signature");
            assert!(!outcome.is_valid());
        }
        SshStep::Run { .. } => panic!("nobody is left"),
    }
}

#[test]
fn signatures_without_principals_are_checked_but_not_accepted() {
    let (verification, _, _) = run(SshVerification::start(request(TrustLevel::Undefined)));
    let (verification, arguments, with_data) = run(verification.advance(output(false, "one", "")));
    assert_eq!(
        arguments,
        ["-Y", "check-novalidate", "-n", "git", "-s", "signature", "-Overify-time=1"]
    );
    assert!(with_data);
    match verification.advance(output(true, "Good \"git\" signature with key K", "")) {
        SshStep::Done(outcome) => {
            assert_eq!(outcome.status, Status::Good);
            assert_eq!(outcome.trust_level, TrustLevel::Undefined);
            assert!(!outcome.is_valid(), "nobody is known to have signed");
        }
        SshStep::Run { .. } => panic!("the check is the last word"),
    }
}
