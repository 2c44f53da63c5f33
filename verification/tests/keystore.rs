use rusk::cli::{apk_to_verify, keystore_options, show_entry, verify_note, Level};
use rusk::keystore::{
    default_validity_days, export_certificate, generate, list_args, list_entries, parse_keytool_list_output,
    tool_outcome, verify_apk, verify_args, DistinguishedName, GenerateOptions, KeystoreError,
};
use rusk::path::HostOs;

fn options() -> GenerateOptions {
    GenerateOptions {
        keystore_path: "release.keystore".to_string(),
        alias: "release".to_string(),
        store_password: "secret".to_string(),
        key_password: String::new(),
        validity_days: default_validity_days(),
        key_size: 2048,
        dname: DistinguishedName::default(),
        force: false,
    }
}

#[test]
fn a_key_is_generated() {
    let plan = generate(&options(), false).unwrap();
    assert!(!plan.remove_existing);
    assert_eq!(plan.label, "Generating release keystore (2048 bit RSA, 9125 day validity)");
    assert_eq!(
        plan.args,
        [
            "-genkeypair", "-keystore", "release.keystore", "-alias", "release", "-keyalg", "RSA", "-keysize", "2048",
            "-validity", "9125", "-storepass", "secret", "-keypass", "secret", "-dname",
            "CN=Unknown, OU=Unknown, O=Unknown, L=Unknown, ST=Unknown, C=US", "-storetype", "PKCS12",
        ]
    );
}

#[test]
fn an_existing_keystore_is_kept_unless_forced() {
    let e = generate(&options(), true).unwrap_err();
    assert_eq!(
        e.message(),
        "keystore already exists at release.keystore; pass --force to overwrite, or choose a different path"
    );
    let mut o = options();
    o.force = true;
    assert!(generate(&o, true).unwrap().remove_existing);
    assert!(!generate(&o, false).unwrap().remove_existing);
}

#[test]
fn bad_options_are_refused() {
    let mut o = options();
    o.store_password = "12345".to_string();
    o.key_password = "other".to_string();
    assert!(matches!(o.validate(), Err(KeystoreError::PasswordTooShort)));
    o.store_password = "ééé".to_string();
    assert!(matches!(o.validate(), Err(KeystoreError::PasswordTooShort)));
    let mut o = options();
    o.key_password = "different".to_string();
    o.dname.locality = "a,b".to_string();
    assert!(matches!(o.validate(), Err(KeystoreError::PasswordMismatch)));
    o.key_password = "secret".to_string();
    let e = o.validate().unwrap_err();
    assert_eq!(e.message(), "invalid distinguished-name field \"locality\": must not contain a comma or `=`");
    o.dname.common_name = "x=y".to_string();
    assert!(matches!(generate(&o, true), Err(KeystoreError::InvalidDnField(f)) if f == "common_name"));
    assert_eq!(KeystoreError::PasswordTooShort.message(), "password must be at least 6 characters (keytool's own minimum)");
}

const LISTING: &str = "Keystore type: PKCS12\nCreation date: ignored\n\nYour keystore contains 2 entries\n\nAlias name: release\nCreation date: Jan 1, 2024\nEntry type: PrivateKeyEntry\nOwner: CN=Unknown\nValid from: Mon Jan 01 until: Fri Dec 31\nCertificate fingerprints:\n\t SHA1: 00:11\n\t SHA256: AA:BB\n\nAlias name:  old \nEntry type: trustedCertEntry\nValid from: never\n";

#[test]
fn a_listing_is_read() {
    let e = parse_keytool_list_output(LISTING);
    assert_eq!(e.len(), 2);
    assert_eq!(e[0].alias, "release");
    assert_eq!(e[0].creation_date, "Jan 1, 2024");
    assert_eq!(e[0].entry_type, "PrivateKeyEntry");
    assert_eq!(e[0].sha256_fingerprint.as_deref(), Some("AA:BB"));
    assert_eq!(e[0].valid_from.as_deref(), Some("Mon Jan 01"));
    assert_eq!(e[0].valid_until.as_deref(), Some("Fri Dec 31"));
    assert_eq!(e[1].alias, "old");
    assert!(e[1].valid_from.is_none() && e[1].sha256_fingerprint.is_none());
    assert_eq!(e[1].creation_date, "");
    assert_eq!(
        show_entry(&e[0]),
        ["alias: release  (PrivateKeyEntry)", "  SHA256: AA:BB", "  valid: Mon Jan 01 until Fri Dec 31"]
    );
    assert_eq!(show_entry(&e[1]), ["alias: old  (trustedCertEntry)"]);
    assert!(parse_keytool_list_output("nothing").is_empty());
}

#[test]
fn a_failed_listing_is_an_error() {
    assert_eq!(list_entries(true, Some(0), LISTING).unwrap().len(), 2);
    let e = list_entries(false, Some(1), LISTING).unwrap_err();
    assert_eq!(e.message(), "`keytool` exited with status 1");
    let e = tool_outcome("keytool", false, None).unwrap_err();
    assert!(matches!(e, KeystoreError::ToolFailed { tool: "keytool", status: -1 }));
    assert!(KeystoreError::ToolNotFound { tool: "keytool" }.message().starts_with("`keytool` is not on PATH"));
}

#[test]
fn arguments_of_the_tools() {
    assert_eq!(list_args("k", "p"), ["-list", "-v", "-keystore", "k", "-storepass", "p"]);
    assert_eq!(
        export_certificate("k", "a", "p", "o.pem"),
        ["-exportcert", "-keystore", "k", "-alias", "a", "-storepass", "p", "-rfc", "-file", "o.pem"]
    );
    assert_eq!(verify_args("x.apk"), ["verify", "-v", "x.apk"]);
}

#[test]
fn signatures_are_reported() {
    let r = verify_apk(
        true,
        "Verified using v1 scheme (JAR signing): false\nVerified using v2 scheme (APK Signature Scheme v2): true\n",
        "Verified using v4 scheme (APK Signature Scheme v4): true",
    );
    assert!(r.verified && !r.v1_scheme && r.v2_scheme && !r.v3_scheme && r.v4_scheme);
    let n = verify_note(&r);
    assert_eq!((n.level, n.text.as_str()), (Level::Info, "verified — schemes: v1=false v2=true v3=false v4=true"));
    let r = verify_apk(false, "a", "b");
    assert_eq!(r.raw_output, "ab");
    assert_eq!(verify_note(&r).level, Level::Error);
}

#[test]
fn options_from_what_was_typed() {
    let get = |a: &str, b: &str, cn: &str| {
        keystore_options("p".to_string(), "al".to_string(), a.to_string(), b, cn.to_string(), true)
    };
    assert!(matches!(get("secret", "secret2", ""), Err(KeystoreError::PasswordMismatch)));
    let o = get("secret", "secret", "").unwrap();
    assert_eq!(o.dname.common_name, "Unknown");
    let o = get("secret", "secret", "Acme").unwrap();
    assert_eq!(o.dname.to_dname_string(), "CN=Acme, OU=Unknown, O=Unknown, L=Unknown, ST=Unknown, C=US");
    assert_eq!((o.key_size, o.validity_days, o.force), (2048, 9125, true));
}

#[test]
fn the_newest_apk_is_verified() {
    let files = vec![("my.apk".to_string(), 5), ("my-pro.apk".to_string(), 9), ("my.aab".to_string(), 20)];
    assert_eq!(apk_to_verify(HostOs::Linux, None, "/o", &files, "my"), "/o/my-pro.apk");
    assert_eq!(apk_to_verify(HostOs::Linux, None, "/o", &vec![], "my"), "/o/my.apk");
    assert_eq!(apk_to_verify(HostOs::Linux, Some("x.apk".to_string()), "/o", &files, "my"), "x.apk");
}
