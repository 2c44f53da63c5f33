//! Release signing keys: generating them, reading what a keystore holds, and
//! checking what signed an APK. The work is done by `keytool` and `apksigner`;
//! here is what they are told and how their output is read.
use crate::num::{decimal, decimal_text, push_decimal, push_signed, signed_decimal};
use crate::text::{
    chars_of, concat2, concat3, contains, contains_text, lines, lines_of, occurs_at, opt_view,
    option_is, split_all, split_all_without, split_at_text, split_on, split_once_text, starts_with,
    strip_prefix, tells, tells_behind, tells_more, trim, trim_left, trim_left_text,
    trim_start_text, trimmed, views, white_space,
};
use vstd::prelude::*;

verus! {

/// Why an operation on a keystore failed.
#[derive(Debug)]
pub enum KeystoreError {
    ToolNotFound { tool: &'static str },
    ToolFailed { tool: &'static str, status: i32 },
    AlreadyExists(String),
    PasswordMismatch,
    PasswordTooShort,
    /// The field of the distinguished name that cannot be written.
    InvalidDnField(String),
}

impl KeystoreError {
    /// The text of the message shown for the error.
    pub open spec fn text(&self) -> Seq<char> {
        match *self {
            KeystoreError::ToolNotFound { tool } => "`"@ + tool@
                + "` is not on PATH; install a JDK (17+ recommended) and make sure its `bin/` directory is on PATH"@,
            KeystoreError::ToolFailed { tool, status } => "`"@ + tool@ + "` exited with status "@
                + signed_decimal(status as int),
            KeystoreError::AlreadyExists(path) => "keystore already exists at "@ + path@
                + "; pass --force to overwrite, or choose a different path"@,
            KeystoreError::PasswordMismatch => "passwords did not match"@,
            KeystoreError::PasswordTooShort =>
                "password must be at least 6 characters (keytool's own minimum)"@,
            KeystoreError::InvalidDnField(field) => "invalid distinguished-name field \""@ + field@
                + "\": must not contain a comma or `=`"@,
        }
    }

    /// The message shown for the error.
    pub fn message(&self) -> (r: String)
        ensures
            r@ == self.text(),
    {
        match self {
            KeystoreError::ToolNotFound { tool } => concat3(
                "`",
                tool,
                "` is not on PATH; install a JDK (17+ recommended) and make sure its `bin/` directory is on PATH",
            ),
            KeystoreError::ToolFailed { tool, status } => {
                let mut out = concat3("`", tool, "` exited with status ");
                push_signed(&mut out, *status);
                out
            },
            KeystoreError::AlreadyExists(path) => concat3(
                "keystore already exists at ",
                path,
                "; pass --force to overwrite, or choose a different path",
            ),
            KeystoreError::PasswordMismatch => "passwords did not match".to_owned(),
            KeystoreError::PasswordTooShort =>
                "password must be at least 6 characters (keytool's own minimum)".to_owned(),
            KeystoreError::InvalidDnField(field) => concat3(
                "invalid distinguished-name field \"",
                field,
                "\": must not contain a comma or `=`",
            ),
        }
    }
}

// ---------------------------------------------------------------------------
// Generating

/// The fields of a distinguished name.
#[derive(Debug)]
pub struct DistinguishedName {
    pub common_name: String,
    pub organizational_unit: String,
    pub organization: String,
    pub locality: String,
    pub state: String,
    pub country_code: String,
}

impl Default for DistinguishedName {
    fn default() -> (r: Self)
        ensures
            r.common_name@ == "Unknown"@,
            r.organizational_unit@ == "Unknown"@,
            r.organization@ == "Unknown"@,
            r.locality@ == "Unknown"@,
            r.state@ == "Unknown"@,
            r.country_code@ == "US"@,
    {
        DistinguishedName {
            common_name: "Unknown".to_owned(),
            organizational_unit: "Unknown".to_owned(),
            organization: "Unknown".to_owned(),
            locality: "Unknown".to_owned(),
            state: "Unknown".to_owned(),
            country_code: "US".to_owned(),
        }
    }
}

/// Whether a field can be written in a distinguished name as it stands.
pub open spec fn dn_field_ok(field: Seq<char>) -> bool {
    !field.contains(',') && !field.contains('=')
}

fn is_dn_field_ok(field: &str) -> (r: bool)
    ensures
        r == dn_field_ok(field@),
{
    let v = chars_of(field);
    for i in 0..v.len()
        invariant
            v@ == field@,
            forall|j: int| 0 <= j < i ==> field@[j] != ',' && field@[j] != '=',
    {
        if v[i] == ',' || v[i] == '=' {
            assert(field@[i as int] == ',' || field@[i as int] == '=');
            return false;
        }
    }
    true
}

impl DistinguishedName {
    /// The name of the first field that cannot be written, if there is one.
    pub open spec fn bad_field(&self) -> Option<Seq<char>> {
        if !dn_field_ok(self.common_name@) {
            Some("common_name"@)
        } else if !dn_field_ok(self.organizational_unit@) {
            Some("organizational_unit"@)
        } else if !dn_field_ok(self.organization@) {
            Some("organization"@)
        } else if !dn_field_ok(self.locality@) {
            Some("locality"@)
        } else if !dn_field_ok(self.state@) {
            Some("state"@)
        } else if !dn_field_ok(self.country_code@) {
            Some("country_code"@)
        } else {
            None
        }
    }

    /// The distinguished name as `keytool` reads it.
    pub open spec fn dname(&self) -> Seq<char> {
        "CN="@ + self.common_name@ + ", OU="@ + self.organizational_unit@ + ", O="@
            + self.organization@ + ", L="@ + self.locality@ + ", ST="@ + self.state@ + ", C="@
            + self.country_code@
    }

    /// Checks that every field can be written.
    pub fn validate(&self) -> (r: Result<(), KeystoreError>)
        ensures
            match r {
                Ok(()) => self.bad_field() is None,
                Err(KeystoreError::InvalidDnField(f)) => self.bad_field() == Some(f@),
                Err(_) => false,
            },
    {
        let bad = if !is_dn_field_ok(&self.common_name) {
            "common_name"
        } else if !is_dn_field_ok(&self.organizational_unit) {
            "organizational_unit"
        } else if !is_dn_field_ok(&self.organization) {
            "organization"
        } else if !is_dn_field_ok(&self.locality) {
            "locality"
        } else if !is_dn_field_ok(&self.state) {
            "state"
        } else if !is_dn_field_ok(&self.country_code) {
            "country_code"
        } else {
            return Ok(());
        };
        Err(KeystoreError::InvalidDnField(bad.to_owned()))
    }

    /// The distinguished name as `keytool` reads it.
    pub fn to_dname_string(&self) -> (r: String)
        ensures
            r@ == self.dname(),
    {
        let mut out = "CN=".to_owned();
        out.append(&self.common_name);
        out.append(", OU=");
        out.append(&self.organizational_unit);
        out.append(", O=");
        out.append(&self.organization);
        out.append(", L=");
        out.append(&self.locality);
        out.append(", ST=");
        out.append(&self.state);
        out.append(", C=");
        out.append(&self.country_code);
        out
    }
}

/// What key to generate, and where.
#[derive(Debug)]
pub struct GenerateOptions {
    pub keystore_path: String,
    pub alias: String,
    pub store_password: String,
    /// Empty to use the store's password.
    pub key_password: String,
    pub validity_days: u32,
    pub key_size: u32,
    pub dname: DistinguishedName,
    /// Whether a keystore that exists is replaced.
    pub force: bool,
}

/// How long a release key is valid by default: about 25 years, so that it
/// outlives every update.
pub fn default_validity_days() -> (r: u32)
    ensures
        r == 9125,
{
    9125
}

impl GenerateOptions {
    /// What is wrong with the options, if anything is: first the store's
    /// password, then a different one for the key, then the distinguished name.
    pub open spec fn validity(&self, r: Result<(), KeystoreError>) -> bool {
        let short = self.store_password@.len() < 6;
        let mismatch = self.key_password@.len() > 0 && self.key_password@ != self.store_password@;
        match r {
            Ok(()) => !short && !mismatch && self.dname.bad_field() is None,
            Err(KeystoreError::PasswordTooShort) => short,
            Err(KeystoreError::PasswordMismatch) => !short && mismatch,
            Err(KeystoreError::InvalidDnField(f)) => !short && !mismatch && self.dname.bad_field()
                == Some(f@),
            Err(_) => false,
        }
    }

    /// The password of the key.
    pub open spec fn key_pass(&self) -> Seq<char> {
        if self.key_password@.len() == 0 {
            self.store_password@
        } else {
            self.key_password@
        }
    }

    /// Checks the options.
    pub fn validate(&self) -> (r: Result<(), KeystoreError>)
        ensures
            self.validity(r),
    {
        if self.store_password.unicode_len() < 6 {
            return Err(KeystoreError::PasswordTooShort);
        }
        if self.key_password.unicode_len() > 0 && self.key_password != self.store_password {
            return Err(KeystoreError::PasswordMismatch);
        }
        self.dname.validate()
    }
}

/// How to generate a keystore.
#[derive(Debug)]
pub struct GeneratePlan {
    /// Whether the keystore that exists has to be removed first.
    pub remove_existing: bool,
    pub label: String,
    pub args: Vec<String>,
}

/// The arguments that make `keytool` generate a key.
pub open spec fn genkeypair_args(opts: GenerateOptions) -> Seq<Seq<char>> {
    seq![
        "-genkeypair"@,
        "-keystore"@,
        opts.keystore_path@,
        "-alias"@,
        opts.alias@,
        "-keyalg"@,
        "RSA"@,
        "-keysize"@,
        decimal(opts.key_size as nat),
        "-validity"@,
        decimal(opts.validity_days as nat),
        "-storepass"@,
        opts.store_password@,
        "-keypass"@,
        opts.key_pass(),
        "-dname"@,
        opts.dname.dname(),
        "-storetype"@,
        "PKCS12"@,
    ]
}

/// How to generate a keystore, where one already exists or not. One that exists
/// is never touched unless the options force it.
pub fn generate(opts: &GenerateOptions, exists: bool) -> (r: Result<GeneratePlan, KeystoreError>)
    ensures
        match r {
            Ok(plan) => {
                &&& opts.validity(Ok(()))
                &&& plan.remove_existing == exists
                &&& exists ==> opts.force
                &&& plan.label@ == "Generating release keystore ("@ + decimal(opts.key_size as nat)
                    + " bit RSA, "@ + decimal(opts.validity_days as nat) + " day validity)"@
                &&& views(plan.args@) == genkeypair_args(*opts)
            },
            Err(KeystoreError::AlreadyExists(path)) => {
                &&& opts.validity(Ok(()))
                &&& exists
                &&& !opts.force
                &&& path@ == opts.keystore_path@
            },
            Err(e) => opts.validity(Err(e)),
        },
{
    match opts.validate() {
        Ok(()) => {},
        Err(e) => {
            return Err(e);
        },
    }
    if exists && !opts.force {
        return Err(KeystoreError::AlreadyExists(opts.keystore_path.clone()));
    }
    let key_password = if opts.key_password.unicode_len() == 0 {
        opts.store_password.clone()
    } else {
        opts.key_password.clone()
    };
    let mut label = "Generating release keystore (".to_owned();
    push_decimal(&mut label, opts.key_size as u64);
    label.append(" bit RSA, ");
    push_decimal(&mut label, opts.validity_days as u64);
    label.append(" day validity)");
    let args = vec![
        "-genkeypair".to_owned(),
        "-keystore".to_owned(),
        opts.keystore_path.clone(),
        "-alias".to_owned(),
        opts.alias.clone(),
        "-keyalg".to_owned(),
        "RSA".to_owned(),
        "-keysize".to_owned(),
        decimal_text(opts.key_size as u64),
        "-validity".to_owned(),
        decimal_text(opts.validity_days as u64),
        "-storepass".to_owned(),
        opts.store_password.clone(),
        "-keypass".to_owned(),
        key_password,
        "-dname".to_owned(),
        opts.dname.to_dname_string(),
        "-storetype".to_owned(),
        "PKCS12".to_owned(),
    ];
    assert(views(args@) =~= genkeypair_args(*opts));
    Ok(GeneratePlan { remove_existing: exists, label, args })
}

/// The result of a tool that ran: a failure names the tool and its code, -1
/// where a signal ended it.
pub fn tool_outcome(tool: &'static str, success: bool, code: Option<i32>) -> (r: Result<
    (),
    KeystoreError,
>)
    ensures
        match r {
            Ok(()) => success,
            Err(KeystoreError::ToolFailed { tool: t, status }) => {
                &&& !success
                &&& t@ == tool@
                &&& status == (match code {
                    Some(c) => c,
                    None => -1i32,
                })
            },
            Err(_) => false,
        },
{
    if success {
        Ok(())
    } else {
        Err(
            KeystoreError::ToolFailed {
                tool,
                status: match code {
                    Some(c) => c,
                    None => -1,
                },
            },
        )
    }
}

// ---------------------------------------------------------------------------
// Listing

/// One entry of a keystore.
#[derive(Debug)]
pub struct KeystoreEntry {
    pub alias: String,
    pub entry_type: String,
    pub creation_date: String,
    pub sha256_fingerprint: Option<String>,
    pub valid_from: Option<String>,
    pub valid_until: Option<String>,
}

/// The texts of an entry.
pub struct EntryView {
    pub alias: Seq<char>,
    pub entry_type: Seq<char>,
    pub creation_date: Seq<char>,
    pub sha256_fingerprint: Option<Seq<char>>,
    pub valid_from: Option<Seq<char>>,
    pub valid_until: Option<Seq<char>>,
}

impl View for KeystoreEntry {
    type V = EntryView;

    open spec fn view(&self) -> EntryView {
        EntryView {
            alias: self.alias@,
            entry_type: self.entry_type@,
            creation_date: self.creation_date@,
            sha256_fingerprint: opt_view(self.sha256_fingerprint),
            valid_from: opt_view(self.valid_from),
            valid_until: opt_view(self.valid_until),
        }
    }
}

/// The texts of a list of entries.
pub open spec fn entry_views(v: Seq<KeystoreEntry>) -> Seq<EntryView> {
    v.map_values(|e: KeystoreEntry| e@)
}

/// A fresh entry, of which only the alias is known.
pub open spec fn fresh_entry(alias: Seq<char>) -> EntryView {
    EntryView {
        alias,
        entry_type: seq![],
        creation_date: seq![],
        sha256_fingerprint: None,
        valid_from: None,
        valid_until: None,
    }
}

/// What a line of the listing says, after its label.
pub enum ListingLine {
    Alias(Seq<char>),
    CreationDate(Seq<char>),
    EntryType(Seq<char>),
    Sha256(Seq<char>),
    /// From when until when the certificate is valid.
    Validity(Seq<char>, Seq<char>),
    Other,
}

/// What follows `label` at the beginning of a line.
pub open spec fn after_label(line: Seq<char>, label: Seq<char>) -> Seq<char> {
    line.skip(label.len() as int)
}

/// What a trimmed line says.
pub open spec fn read_line(line: Seq<char>) -> ListingLine {
    if "Alias name: "@.is_prefix_of(line) {
        ListingLine::Alias(trimmed(after_label(line, "Alias name: "@)))
    } else if "Creation date: "@.is_prefix_of(line) {
        ListingLine::CreationDate(trimmed(after_label(line, "Creation date: "@)))
    } else if "Entry type: "@.is_prefix_of(line) {
        ListingLine::EntryType(trimmed(after_label(line, "Entry type: "@)))
    } else if "SHA256:"@.is_prefix_of(line) {
        ListingLine::Sha256(trimmed(trim_left_text(line, "SHA256:"@)))
    } else if "Valid from:"@.is_prefix_of(line) {
        match split_at_text(trim_left_text(line, "Valid from:"@), "until:"@) {
            Some((from, until)) => ListingLine::Validity(trimmed(from), trimmed(until)),
            None => ListingLine::Other,
        }
    } else {
        ListingLine::Other
    }
}

/// What is known of an entry after one more line about it.
pub open spec fn with_line(e: EntryView, line: ListingLine) -> EntryView {
    match line {
        ListingLine::CreationDate(d) => EntryView { creation_date: d, ..e },
        ListingLine::EntryType(t) => EntryView { entry_type: t, ..e },
        ListingLine::Sha256(f) => EntryView { sha256_fingerprint: Some(f), ..e },
        ListingLine::Validity(from, until) => EntryView {
            valid_from: Some(from),
            valid_until: Some(until),
            ..e
        },
        _ => e,
    }
}

/// The entries that lines list. Each alias begins an entry, and the lines up to
/// the next alias are about it; lines before the first alias are passed over.
pub open spec fn entries_in(lines: Seq<Seq<char>>) -> Seq<EntryView>
    decreases lines.len(),
{
    if lines.len() == 0 {
        seq![]
    } else {
        let so_far = entries_in(lines.drop_last());
        let line = read_line(trimmed(lines.last()));
        match line {
            ListingLine::Alias(alias) => so_far.push(fresh_entry(alias)),
            _ => if so_far.len() == 0 {
                so_far
            } else {
                so_far.drop_last().push(with_line(so_far.last(), line))
            },
        }
    }
}

/// Reads one line about an entry that is not an alias.
fn note_line(e: &mut KeystoreEntry, line: &str)
    requires
        !(read_line(line@) is Alias),
    ensures
        final(e)@ == with_line(old(e)@, read_line(line@)),
{
    if let Some(rest) = strip_prefix(line, "Creation date: ") {
        assert(after_label(line@, "Creation date: "@) =~= rest@);
        assert("Creation date: "@.is_prefix_of(line@)) by {
            assert(line@.subrange(0, "Creation date: "@.len() as int) =~= "Creation date: "@);
        }
        e.creation_date = trim(&rest);
    } else if let Some(rest) = strip_prefix(line, "Entry type: ") {
        assert(after_label(line@, "Entry type: "@) =~= rest@);
        assert("Entry type: "@.is_prefix_of(line@)) by {
            assert(line@.subrange(0, "Entry type: "@.len() as int) =~= "Entry type: "@);
        }
        e.entry_type = trim(&rest);
    } else if starts_with(line, "SHA256:") {
        e.sha256_fingerprint = Some(trim(&trim_start_text(line, "SHA256:")));
    } else if starts_with(line, "Valid from:") {
        if let Some((from, until)) = split_once_text(
            &trim_start_text(line, "Valid from:"),
            "until:",
        ) {
            e.valid_from = Some(trim(&from));
            e.valid_until = Some(trim(&until));
        }
    }
}

/// The entries that `keytool -list -v` lists.
pub fn parse_keytool_list_output(text: &str) -> (r: Vec<KeystoreEntry>)
    ensures
        entry_views(r@) == entries_in(lines_of(text@)),
{
    let all_lines = lines(text);
    let ghost all = lines_of(text@);
    let mut entries: Vec<KeystoreEntry> = Vec::new();
    assert(entry_views(entries@) =~= seq![]);
    for i in 0..all_lines.len()
        invariant
            all == views(all_lines@),
            entry_views(entries@) == entries_in(all.take(i as int)),
    {
        let line = trim(&all_lines[i]);
        proof {
            assert(all[i as int] == all_lines@[i as int]@);
            assert(all.take(i + 1).drop_last() =~= all.take(i as int));
            assert(all.take(i + 1).last() == all[i as int]);
        }
        let ghost so_far = entries@;
        if let Some(rest) = strip_prefix(&line, "Alias name: ") {
            assert(after_label(line@, "Alias name: "@) =~= rest@);
            assert("Alias name: "@.is_prefix_of(line@)) by {
                assert(line@.subrange(0, "Alias name: "@.len() as int) =~= "Alias name: "@);
            }
            let entry = KeystoreEntry {
                alias: trim(&rest),
                entry_type: String::new(),
                creation_date: String::new(),
                sha256_fingerprint: None,
                valid_from: None,
                valid_until: None,
            };
            entries.push(entry);
            assert(entry_views(entries@) =~= entry_views(so_far).push(entry@));
        } else {
            match entries.pop() {
                Some(mut e) => {
                    note_line(&mut e, &line);
                    entries.push(e);
                    proof {
                        assert(entry_views(so_far).last() == so_far.last()@);
                        assert(entry_views(entries@) =~= entry_views(so_far).drop_last().push(e@));
                    }
                },
                None => {
                    assert(entry_views(so_far).len() == 0);
                },
            }
        }
    }
    assert(all.take(all.len() as int) =~= all);
    entries
}

/// The aliases that lines name, in order.
pub open spec fn aliases_in(lines: Seq<Seq<char>>) -> Seq<Seq<char>>
    decreases lines.len(),
{
    if lines.len() == 0 {
        seq![]
    } else {
        match read_line(trimmed(lines.last())) {
            ListingLine::Alias(alias) => aliases_in(lines.drop_last()).push(alias),
            _ => aliases_in(lines.drop_last()),
        }
    }
}

/// Every alias of a listing is an entry, in the order of the listing, and there
/// are no other entries.
pub proof fn every_alias_is_an_entry(lines: Seq<Seq<char>>)
    ensures
        entries_in(lines).map_values(|e: EntryView| e.alias) == aliases_in(lines),
    decreases lines.len(),
{
    let f = |e: EntryView| e.alias;
    if lines.len() == 0 {
        assert(entries_in(lines).map_values(f) =~= aliases_in(lines));
    } else {
        every_alias_is_an_entry(lines.drop_last());
        let so_far = entries_in(lines.drop_last());
        let line = read_line(trimmed(lines.last()));
        match line {
            ListingLine::Alias(alias) => {
                assert(entries_in(lines).map_values(f) =~= so_far.map_values(f).push(alias));
            },
            _ => {
                if so_far.len() > 0 {
                    assert(so_far.map_values(f) =~= so_far.drop_last().map_values(f).push(
                        so_far.last().alias,
                    ));
                    assert(entries_in(lines).map_values(f) =~= so_far.drop_last().map_values(
                        f,
                    ).push(with_line(so_far.last(), line).alias));
                }
            },
        }
    }
}

/// The arguments of keytool that list a keystore.
pub open spec fn listing_args(keystore_path: Seq<char>, store_password: Seq<char>) -> Seq<Seq<char>> {
    seq!["-list"@, "-v"@, "-keystore"@, keystore_path, "-storepass"@, store_password]
}

/// The arguments that make `keytool` list a keystore.
pub fn list_args(keystore_path: &str, store_password: &str) -> (r: Vec<String>)
    ensures
        views(r@) == listing_args(keystore_path@, store_password@),
{
    let r = vec![
        "-list".to_owned(),
        "-v".to_owned(),
        "-keystore".to_owned(),
        keystore_path.to_owned(),
        "-storepass".to_owned(),
        store_password.to_owned(),
    ];
    assert(views(r@) =~= seq![
        "-list"@,
        "-v"@,
        "-keystore"@,
        keystore_path@,
        "-storepass"@,
        store_password@,
    ]);
    r
}

/// The entries of a keystore, from how `keytool -list -v` ended and what it
/// printed.
pub fn list_entries(success: bool, code: Option<i32>, stdout: &str) -> (r: Result<
    Vec<KeystoreEntry>,
    KeystoreError,
>)
    ensures
        match r {
            Ok(entries) => success && entry_views(entries@) == entries_in(lines_of(stdout@)),
            Err(KeystoreError::ToolFailed { tool, status }) => {
                &&& !success
                &&& tool@ == "keytool"@
                &&& status == (match code {
                    Some(c) => c,
                    None => -1i32,
                })
            },
            Err(_) => false,
        },
{
    match tool_outcome("keytool", success, code) {
        Ok(()) => Ok(parse_keytool_list_output(stdout)),
        Err(e) => Err(e),
    }
}

/// The arguments of keytool that export a certificate.
pub open spec fn export_args(
    keystore_path: Seq<char>,
    alias: Seq<char>,
    store_password: Seq<char>,
    out_pem: Seq<char>,
) -> Seq<Seq<char>> {
    seq![
        "-exportcert"@,
        "-keystore"@,
        keystore_path,
        "-alias"@,
        alias,
        "-storepass"@,
        store_password,
        "-rfc"@,
        "-file"@,
        out_pem,
    ]
}

/// The arguments that make `keytool` export a certificate as PEM.
pub fn export_certificate(
    keystore_path: &str,
    alias: &str,
    store_password: &str,
    out_pem: &str,
) -> (r: Vec<String>)
    ensures
        views(r@) == export_args(keystore_path@, alias@, store_password@, out_pem@),
{
    let r = vec![
        "-exportcert".to_owned(),
        "-keystore".to_owned(),
        keystore_path.to_owned(),
        "-alias".to_owned(),
        alias.to_owned(),
        "-storepass".to_owned(),
        store_password.to_owned(),
        "-rfc".to_owned(),
        "-file".to_owned(),
        out_pem.to_owned(),
    ];
    assert(views(r@) =~= seq![
        "-exportcert"@,
        "-keystore"@,
        keystore_path@,
        "-alias"@,
        alias@,
        "-storepass"@,
        store_password@,
        "-rfc"@,
        "-file"@,
        out_pem@,
    ]);
    r
}

// ---------------------------------------------------------------------------
// Verifying

/// What `apksigner verify` says of an APK.
#[derive(Debug)]
pub struct VerifyResult {
    pub verified: bool,
    pub v1_scheme: bool,
    pub v2_scheme: bool,
    pub v3_scheme: bool,
    pub v4_scheme: bool,
    pub raw_output: String,
}

/// The arguments that make `apksigner` verify an APK.
pub fn verify_args(apk_path: &str) -> (r: Vec<String>)
    ensures
        views(r@) == seq!["verify"@, "-v"@, apk_path@],
{
    let r = vec!["verify".to_owned(), "-v".to_owned(), apk_path.to_owned()];
    assert(views(r@) =~= seq!["verify"@, "-v"@, apk_path@]);
    r
}

/// What `apksigner verify` says of an APK, from how it ended and what it
/// printed on its two outputs.
pub fn verify_apk(success: bool, stdout: &str, stderr: &str) -> (r: VerifyResult)
    ensures
        r.verified == success,
        r.raw_output@ == stdout@ + stderr@,
        r.v1_scheme == contains_text(
            stdout@ + stderr@,
            "Verified using v1 scheme (JAR signing): true"@,
        ),
        r.v2_scheme == contains_text(
            stdout@ + stderr@,
            "Verified using v2 scheme (APK Signature Scheme v2): true"@,
        ),
        r.v3_scheme == contains_text(
            stdout@ + stderr@,
            "Verified using v3 scheme (APK Signature Scheme v3): true"@,
        ),
        r.v4_scheme == contains_text(
            stdout@ + stderr@,
            "Verified using v4 scheme (APK Signature Scheme v4): true"@,
        ),
{
    let text = concat2(stdout, stderr);
    VerifyResult {
        verified: success,
        v1_scheme: contains(&text, "Verified using v1 scheme (JAR signing): true"),
        v2_scheme: contains(&text, "Verified using v2 scheme (APK Signature Scheme v2): true"),
        v3_scheme: contains(&text, "Verified using v3 scheme (APK Signature Scheme v3): true"),
        v4_scheme: contains(&text, "Verified using v4 scheme (APK Signature Scheme v4): true"),
        raw_output: text,
    }
}

/// A key is generated as it is asked for. Its own password is the store's where it has
/// none.
pub proof fn key_is_what_was_asked(opts: GenerateOptions)
    ensures
        ({
            let args = genkeypair_args(opts);
            &&& args[0] == "-genkeypair"@
            &&& option_is(args, "-keystore"@, opts.keystore_path@)
            &&& option_is(args, "-alias"@, opts.alias@)
            &&& option_is(args, "-keyalg"@, "RSA"@)
            &&& option_is(args, "-keysize"@, decimal(opts.key_size as nat))
            &&& option_is(args, "-validity"@, decimal(opts.validity_days as nat))
            &&& option_is(args, "-storepass"@, opts.store_password@)
            &&& opts.key_password@.len() == 0 ==> option_is(
                args,
                "-keypass"@,
                opts.store_password@,
            )
            &&& opts.key_password@.len() > 0 ==> option_is(args, "-keypass"@, opts.key_password@)
            &&& option_is(args, "-dname"@, opts.dname.dname())
            &&& option_is(args, "-storetype"@, "PKCS12"@)
            &&& args.len() == 19
        }),
{
    let args = genkeypair_args(opts);
    assert(args[1] == "-keystore"@ && args[2] == opts.keystore_path@);
    assert(args[3] == "-alias"@ && args[4] == opts.alias@);
    assert(args[5] == "-keyalg"@ && args[6] == "RSA"@);
    assert(args[7] == "-keysize"@ && args[8] == decimal(opts.key_size as nat));
    assert(args[9] == "-validity"@ && args[10] == decimal(opts.validity_days as nat));
    assert(args[11] == "-storepass"@ && args[12] == opts.store_password@);
    assert(args[13] == "-keypass"@ && args[14] == opts.key_pass());
    assert(args[15] == "-dname"@ && args[16] == opts.dname.dname());
    assert(args[17] == "-storetype"@ && args[18] == "PKCS12"@);
}

/// A keystore is listed and a certificate exported from the store that is named, with
/// its password.
pub proof fn store_is_the_named_one(
    keystore_path: Seq<char>,
    alias: Seq<char>,
    store_password: Seq<char>,
    out_pem: Seq<char>,
)
    ensures
        ({
            let list = listing_args(keystore_path, store_password);
            let export = export_args(keystore_path, alias, store_password, out_pem);
            &&& list[0] == "-list"@ && list.contains("-v"@)
            &&& option_is(list, "-keystore"@, keystore_path)
            &&& option_is(list, "-storepass"@, store_password)
            &&& export[0] == "-exportcert"@ && export.contains("-rfc"@)
            &&& option_is(export, "-keystore"@, keystore_path)
            &&& option_is(export, "-alias"@, alias)
            &&& option_is(export, "-storepass"@, store_password)
            &&& option_is(export, "-file"@, out_pem)
        }),
{
    let list = listing_args(keystore_path, store_password);
    let export = export_args(keystore_path, alias, store_password, out_pem);
    assert(list[1] == "-v"@);
    assert(list[2] == "-keystore"@ && list[3] == keystore_path);
    assert(list[4] == "-storepass"@ && list[5] == store_password);
    assert(export[1] == "-keystore"@ && export[2] == keystore_path);
    assert(export[3] == "-alias"@ && export[4] == alias);
    assert(export[5] == "-storepass"@ && export[6] == store_password);
    assert(export[7] == "-rfc"@);
    assert(export[8] == "-file"@ && export[9] == out_pem);
}

/// A name whose fields are in order reads back as those fields, each behind its letters.
#[verifier::rlimit(40)]
pub proof fn name_reads_back(d: DistinguishedName)
    requires
        d.bad_field() is None,
    ensures
        split_all(d.dname(), ',') == seq![
            "CN="@ + d.common_name@,
            " OU="@ + d.organizational_unit@,
            " O="@ + d.organization@,
            " L="@ + d.locality@,
            " ST="@ + d.state@,
            " C="@ + d.country_code@,
        ],
{
    let p0 = "CN="@ + d.common_name@;
    assert(!p0.contains(',')) by {
        reveal_strlit("CN=");
        no_comma("CN="@, d.common_name@);
    }
    let p1 = " OU="@ + d.organizational_unit@;
    assert(!p1.contains(',')) by {
        reveal_strlit(" OU=");
        no_comma(" OU="@, d.organizational_unit@);
    }
    let p2 = " O="@ + d.organization@;
    assert(!p2.contains(',')) by {
        reveal_strlit(" O=");
        no_comma(" O="@, d.organization@);
    }
    let p3 = " L="@ + d.locality@;
    assert(!p3.contains(',')) by {
        reveal_strlit(" L=");
        no_comma(" L="@, d.locality@);
    }
    let p4 = " ST="@ + d.state@;
    assert(!p4.contains(',')) by {
        reveal_strlit(" ST=");
        no_comma(" ST="@, d.state@);
    }
    let p5 = " C="@ + d.country_code@;
    assert(!p5.contains(',')) by {
        reveal_strlit(" C=");
        no_comma(" C="@, d.country_code@);
    }
    split_all_without(p0, ',');
    let s1 = p0 + seq![','] + p1;
    split_on(p0, p1, ',');
    assert(", OU="@ =~= seq![','] + " OU="@) by {
        reveal_strlit(", OU=");
        reveal_strlit(" OU=");
    }
    let s2 = s1 + seq![','] + p2;
    split_on(s1, p2, ',');
    assert(", O="@ =~= seq![','] + " O="@) by {
        reveal_strlit(", O=");
        reveal_strlit(" O=");
    }
    let s3 = s2 + seq![','] + p3;
    split_on(s2, p3, ',');
    assert(", L="@ =~= seq![','] + " L="@) by {
        reveal_strlit(", L=");
        reveal_strlit(" L=");
    }
    let s4 = s3 + seq![','] + p4;
    split_on(s3, p4, ',');
    assert(", ST="@ =~= seq![','] + " ST="@) by {
        reveal_strlit(", ST=");
        reveal_strlit(" ST=");
    }
    let s5 = s4 + seq![','] + p5;
    split_on(s4, p5, ',');
    assert(", C="@ =~= seq![','] + " C="@) by {
        reveal_strlit(", C=");
        reveal_strlit(" C=");
    }
    let t1 = p0 + ", OU="@ + d.organizational_unit@;
    assert(t1 =~= s1);
    let t2 = t1 + ", O="@ + d.organization@;
    assert(t2 =~= s2);
    let t3 = t2 + ", L="@ + d.locality@;
    assert(t3 =~= s3);
    let t4 = t3 + ", ST="@ + d.state@;
    assert(t4 =~= s4);
    let t5 = t4 + ", C="@ + d.country_code@;
    assert(t5 =~= s5);
    assert(d.dname() == t5);
    assert(split_all(s5, ',') =~= seq![p0, p1, p2, p3, p4, p5]);
}

proof fn no_comma(a: Seq<char>, b: Seq<char>)
    requires
        !a.contains(','),
        !b.contains(','),
    ensures
        !(a + b).contains(','),
{
    if (a + b).contains(',') {
        let i = choose|i: int| 0 <= i < (a + b).len() && (a + b)[i] == ',';
        if i < a.len() {
            assert(a[i] == ',');
        } else {
            assert(b[i - a.len()] == ',');
        }
    }
}

/// The field that is refused is the first with a comma or an equals sign; none is where
/// no field has one.
pub proof fn first_bad_field_is_named(d: DistinguishedName)
    ensures
        d.bad_field() is None <==> !d.common_name@.contains(',') && !d.common_name@.contains('=')
            && !d.organizational_unit@.contains(',') && !d.organizational_unit@.contains('=')
            && !d.organization@.contains(',') && !d.organization@.contains('=')
            && !d.locality@.contains(',') && !d.locality@.contains('=') && !d.state@.contains(',')
            && !d.state@.contains('=') && !d.country_code@.contains(',')
            && !d.country_code@.contains('='),
        d.common_name@.contains('=') ==> d.bad_field() == Some("common_name"@),
        d.common_name@.contains(',') ==> d.bad_field() == Some("common_name"@),
{
}

proof fn begins_otherwise(label: Seq<char>, line: Seq<char>)
    requires
        label.len() > 0,
        line.len() > 0,
        label[0] != line[0],
    ensures
        !label.is_prefix_of(line),
{
    if label.is_prefix_of(line) {
        assert(line.subrange(0, label.len() as int)[0] == line[0]);
    }
}

proof fn line_behind_label(label: Seq<char>, value: Seq<char>)
    requires
        label.len() > 0,
        value.len() > 0,
        !white_space(value[0]),
        !white_space(value.last()),
    ensures
        label.is_prefix_of(label + value),
        (label + value)[0] == label[0],
        trimmed(after_label(label + value, label)) == value,
{
    let line = label + value;
    assert(line.subrange(0, label.len() as int) =~= label);
    assert(line.skip(label.len() as int) =~= value);
    assert(trimmed(value) == value);
}

proof fn labels_begin_differently()
    ensures
        "Alias name: "@.len() > 0 && "Alias name: "@[0] == 'A',
        "Creation date: "@.len() > 0 && "Creation date: "@[0] == 'C',
        "Entry type: "@.len() > 0 && "Entry type: "@[0] == 'E',
        "SHA256:"@.len() == 7 && "SHA256:"@[0] == 'S',
{
    assert("Alias name: "@.len() > 0 && "Alias name: "@[0] == 'A') by {
        reveal_strlit("Alias name: ");
    }
    assert("Creation date: "@.len() > 0 && "Creation date: "@[0] == 'C') by {
        reveal_strlit("Creation date: ");
    }
    assert("Entry type: "@.len() > 0 && "Entry type: "@[0] == 'E') by {
        reveal_strlit("Entry type: ");
    }
    assert("SHA256:"@.len() == 7 && "SHA256:"@[0] == 'S') by {
        reveal_strlit("SHA256:");
    }
}

/// The lines of a listing read back: each label with what stands behind it.
pub proof fn listing_lines_read_back(value: Seq<char>)
    requires
        value.len() > 0,
        !white_space(value[0]),
        !white_space(value.last()),
    ensures
        read_line("Alias name: "@ + value) == ListingLine::Alias(value),
        read_line("Creation date: "@ + value) == ListingLine::CreationDate(value),
        read_line("Entry type: "@ + value) == ListingLine::EntryType(value),
        read_line("SHA256:"@ + seq![' '] + value) == ListingLine::Sha256(value),
{
    labels_begin_differently();
    line_behind_label("Alias name: "@, value);
    line_behind_label("Creation date: "@, value);
    line_behind_label("Entry type: "@, value);
    begins_otherwise("Alias name: "@, "Creation date: "@ + value);
    begins_otherwise("Alias name: "@, "Entry type: "@ + value);
    begins_otherwise("Creation date: "@, "Entry type: "@ + value);
    let line = "SHA256:"@ + seq![' '] + value;
    assert(line[0] == 'S');
    begins_otherwise("Alias name: "@, line);
    begins_otherwise("Creation date: "@, line);
    begins_otherwise("Entry type: "@, line);
    assert(line.subrange(0, 7) =~= "SHA256:"@);
    let rest = seq![' '] + value;
    assert(line.skip(7) =~= rest);
    assert(rest[0] == ' ');
    assert(!occurs_at(rest, "SHA256:"@, 0)) by {
        if occurs_at(rest, "SHA256:"@, 0) {
            assert(rest.subrange(0, 7)[0] == rest[0]);
        }
    }
    assert(trim_left_text(rest, "SHA256:"@) == rest);
    assert(occurs_at(line, "SHA256:"@, 0));
    assert(trim_left_text(line, "SHA256:"@) == rest);
    assert(rest.drop_first() =~= value);
    assert(trim_left(rest) == trim_left(value));
    assert(trimmed(rest) == value);
}

/// A password has at least six characters, and a key's own, where it has one, is the
/// store's: what is asked for is in order exactly where both hold and every field of
/// the name is; else the first of them that fails is told.
pub proof fn passwords_are_checked(opts: GenerateOptions, field: String)
    requires
        opts.dname.bad_field() is Some ==> field@ == opts.dname.bad_field()->0,
    ensures
        ({
            let own = opts.key_password@.len() == 0 || opts.key_password@ == opts.store_password@;
            let long = opts.store_password@.len() >= 6;
            &&& opts.validity(Ok(())) <==> long && own && opts.dname.bad_field() is None
            &&& opts.validity(Err(KeystoreError::PasswordTooShort)) <==> !long
            &&& opts.validity(Err(KeystoreError::PasswordMismatch)) <==> long && !own
            &&& opts.validity(Err(KeystoreError::InvalidDnField(field))) <==> long && own
                && opts.dname.bad_field() is Some
        }),
{
}

/// What a line says of an entry goes into its own field, and changes no other.
pub proof fn line_changes_its_field(e: EntryView, a: Seq<char>, b: Seq<char>)
    ensures
        with_line(e, ListingLine::CreationDate(a)) == (EntryView { creation_date: a, ..e }),
        with_line(e, ListingLine::EntryType(a)) == (EntryView { entry_type: a, ..e }),
        with_line(e, ListingLine::Sha256(a)) == (EntryView { sha256_fingerprint: Some(a), ..e }),
        with_line(e, ListingLine::Validity(a, b)).valid_from == Some(a),
        with_line(e, ListingLine::Validity(a, b)).valid_until == Some(b),
        with_line(e, ListingLine::Other) == e,
{
}

/// The message of an error tells what it is about.
#[verifier::rlimit(40)]
pub proof fn message_tells_all(e: KeystoreError)
    ensures
        match e {
            KeystoreError::ToolNotFound { tool } => contains_text(e.text(), tool@),
            KeystoreError::ToolFailed { tool, status } => contains_text(e.text(), tool@) && contains_text(e.text(), "status "@ + signed_decimal(status as int)),
            KeystoreError::AlreadyExists(path) => contains_text(e.text(), path@),
            KeystoreError::InvalidDnField(field) => contains_text(e.text(), field@),
            _ => e.text().len() > 0,
        },
{
    match e {
        KeystoreError::ToolNotFound { tool } => {
            tells("`"@, tool@);
            tells_more("`"@ + tool@, "` is not on PATH; install a JDK (17+ recommended) and make sure its `bin/` directory is on PATH"@, tool@);
        },
        KeystoreError::ToolFailed { tool, status } => {
            tells("`"@, tool@);
            tells_more("`"@ + tool@, "` exited with status "@, tool@);
            tells_more("`"@ + tool@ + "` exited with status "@, signed_decimal(status as int), tool@);
            assert("` exited with status "@ =~= "` exited with "@ + "status "@) by {
                reveal_strlit("` exited with status ");
                reveal_strlit("` exited with ");
                reveal_strlit("status ");
            }
            tells_behind("`"@ + tool@, "` exited with "@, "status "@, signed_decimal(status as int));
        },
        KeystoreError::AlreadyExists(path) => {
            tells("keystore already exists at "@, path@);
            tells_more("keystore already exists at "@ + path@, "; pass --force to overwrite, or choose a different path"@, path@);
        },
        KeystoreError::InvalidDnField(field) => {
            tells("invalid distinguished-name field \""@, field@);
            tells_more("invalid distinguished-name field \""@ + field@, "\": must not contain a comma or `=`"@, field@);
        },
        _ => {
            reveal_lens();
        },
    }
}

proof fn reveal_lens()
    ensures
        "passwords did not match"@.len() > 0,
        "password must be at least 6 characters (keytool's own minimum)"@.len() > 0,
{
    reveal_strlit("passwords did not match");
    reveal_strlit("password must be at least 6 characters (keytool's own minimum)");
}

} // verus!
