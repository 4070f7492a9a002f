use base64::engine::general_purpose::STANDARD;
use base64::Engine;
use remagic::system_release::{
    hex_text, SystemArtifactV1, SystemReleaseError, SystemReleaseSignatureV1, SystemReleaseV1,
    SystemTrustedKeyV1, VerifiedSystemReleaseV1,
};
use remagic::DeviceProduct;
use ring::signature::{Ed25519KeyPair, KeyPair};
use sha2::{Digest, Sha256};

fn release() -> SystemReleaseV1 {
    SystemReleaseV1 {
        schema: 1,
        release_id: "remagic-test".into(),
        version: "2026.07.23".into(),
        sequence: 2,
        supported_devices: vec![DeviceProduct::PaperProMove],
        supported_os: vec!["3.27.0".into()],
        required_remagic_api: 6,
        requires_reboot: false,
        archive: SystemArtifactV1 {
            url: "https://github.com/aporicho/remagic/releases/download/v2026.07.23/remagic-system-universal-aarch64.tar.gz".into(),
            sha256: "a".repeat(64),
            size_bytes: 1,
        },
        generated_at_unix: 10,
        expires_at_unix: 20,
    }
}

#[test]
fn validates_device_and_sequence() {
    let value = release();
    assert!(value
        .validate(DeviceProduct::PaperProMove, "3.27.0", 15, 2)
        .is_ok());
    assert_eq!(
        value.validate(DeviceProduct::PaperPro, "3.27.0", 15, 2),
        Err(SystemReleaseError::IncompatibleDevice)
    );
    assert!(value
        .validate(DeviceProduct::PaperProMove, "3.27.0", 15, 3)
        .is_err());
    let mut invalid_api = value;
    invalid_api.required_remagic_api = 0;
    assert!(invalid_api
        .validate(DeviceProduct::PaperProMove, "3.27.0", 15, 2)
        .is_err());
}

#[test]
fn releases_are_refused_on_every_other_os_series() {
    let mut value = release();
    let fits = |value: &SystemReleaseV1, os: &str| {
        value.validate(DeviceProduct::PaperProMove, os, 15, 2)
    };
    for listed in [vec![], vec!["3.270".to_string()], vec!["3.28".to_string()]] {
        value.supported_os = listed;
        for other in ["3.270.0.0", "3.28.0", "3.2", "4.3.27.0", ""] {
            assert_eq!(
                fits(&value, other),
                Err(SystemReleaseError::IncompatibleDevice)
            );
        }
    }
    value.supported_os = vec![];
    assert!(fits(&value, "3.27").is_ok());
    assert!(fits(&value, "3.27.4.1").is_ok());
    value.supported_os = vec!["3.27".into()];
    assert!(fits(&value, "3.27.4.1").is_ok());
    value.supported_os = vec!["3.27.0".into()];
    assert_eq!(
        fits(&value, "3.27.4.1"),
        Err(SystemReleaseError::IncompatibleDevice)
    );
}

struct Signed {
    bytes: Vec<u8>,
    signature: SystemReleaseSignatureV1,
    keys: Vec<SystemTrustedKeyV1>,
}

fn signed() -> Signed {
    let pair = Ed25519KeyPair::from_seed_unchecked(&[7; 32]).unwrap();
    let bytes = b"the release".to_vec();
    let digest = Sha256::digest(&bytes);
    Signed {
        signature: SystemReleaseSignatureV1 {
            schema: 1,
            key_id: "k1".into(),
            algorithm: "ed25519".into(),
            release_sha256: hex_text(&digest),
            signature: STANDARD.encode(pair.sign(&bytes)),
        },
        bytes,
        keys: vec![SystemTrustedKeyV1 {
            key_id: "k1".into(),
            public_key: STANDARD.encode(pair.public_key()),
        }],
    }
}

fn verify(signed: Signed) -> Result<VerifiedSystemReleaseV1, SystemReleaseError> {
    VerifiedSystemReleaseV1::verify(
        &signed.bytes,
        Ok(release()),
        Ok(signed.signature),
        &signed.keys,
        15,
        2,
        DeviceProduct::PaperProMove,
        "3.27.0",
    )
}

fn altered(change: fn(&mut Signed)) -> SystemReleaseError {
    let mut value = signed();
    change(&mut value);
    verify(value).err().unwrap()
}

#[test]
fn signed_releases_are_accepted() {
    let verified = verify(signed()).ok().unwrap();
    assert_eq!(verified.key_id, "k1");
    assert_eq!(verified.digest, hex_text(&Sha256::digest(b"the release")));
    assert_eq!(verified.release.version, "2026.07.23");
}

#[test]
fn each_flaw_of_a_signature_is_named() {
    assert_eq!(
        altered(|s| s.bytes.push(0)),
        SystemReleaseError::DigestMismatch
    );
    assert_eq!(
        altered(|s| s.signature.algorithm = "rsa".into()),
        SystemReleaseError::UnsupportedSignature
    );
    assert_eq!(
        altered(|s| s.signature.key_id = "k2".into()),
        SystemReleaseError::UntrustedKey("k2".into())
    );
    assert_eq!(
        altered(|s| s.keys[0].public_key = "?".into()),
        SystemReleaseError::InvalidKey
    );
    assert_eq!(
        altered(|s| s.signature.signature = "?".into()),
        SystemReleaseError::InvalidSignatureEncoding
    );
    assert_eq!(
        altered(|s| s.signature.signature = STANDARD.encode([0; 64])),
        SystemReleaseError::VerificationFailed
    );
    let unread = VerifiedSystemReleaseV1::verify(
        b"",
        Err("no json".into()),
        Err("no json".into()),
        &[],
        15,
        2,
        DeviceProduct::PaperProMove,
        "3.27.0",
    );
    assert!(matches!(
        unread.err(),
        Some(SystemReleaseError::InvalidRelease(_))
    ));
    assert_eq!(hex_text(&[0, 0x9f, 0xff]), "009fff");
}
