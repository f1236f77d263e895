//! Resolution of the optional OIDC settings, merged from command-line
//! flags and the config file's `[oidc]` section: either all required
//! fields are present, or none is.

use vstd::prelude::*;
use crate::text::{owned, concat_str};
use crate::config::ValidationError;

verus! {

/// File-side representation of the optional `[oidc]` section.
#[derive(Debug, Clone, PartialEq, Eq)]
pub struct OidcSectionRaw {
    pub base_url: Option<String>,
    pub issuer: Option<String>,
    pub client_id: Option<String>,
    pub client_secret_file: Option<String>,
}

/// Fully resolved OIDC configuration.
#[derive(Debug, Clone, PartialEq, Eq)]
pub struct OidcConfig {
    pub base_url: String,
    pub issuer: String,
    pub client_id: String,
    pub client_secret: String,
}

/// A complete set of OIDC fields; the client secret is still to be
/// read from `secret_file`.
#[derive(Debug, Clone, PartialEq, Eq)]
pub struct OidcRequest {
    pub base_url: Option<String>,
    pub issuer: String,
    pub client_id: String,
    pub secret_file: String,
}

impl OidcRequest {
    /// The resolved configuration, given the secret read from
    /// `secret_file` and the base URL to use when the request has none.
    pub fn into_config(self, client_secret: String, default_base_url: String) -> (r: OidcConfig)
        ensures
            r.issuer == self.issuer,
            r.client_id == self.client_id,
            r.client_secret == client_secret,
            r.base_url == match self.base_url {
                Some(b) => b,
                None => default_base_url,
            },
    {
        let base_url = match self.base_url {
            Some(b) => b,
            None => default_base_url,
        };
        OidcConfig { base_url, issuer: self.issuer, client_id: self.client_id, client_secret }
    }
}

/// The view of an optional string.
pub open spec fn opt_view(o: Option<String>) -> Option<Seq<char>> {
    match o {
        Some(s) => Some(s@),
        None => None,
    }
}

/// The names whose flag equals `want`, in order.
pub open spec fn names_where(names: Seq<Seq<char>>, flags: Seq<bool>, want: bool) -> Seq<Seq<char>>
    decreases names.len(),
{
    if names.len() == 0 {
        Seq::empty()
    } else {
        let prev = names_where(names.drop_last(), flags.drop_last(), want);
        if flags.last() == want {
            prev.push(names.last())
        } else {
            prev
        }
    }
}

/// The names joined by `", "`.
pub open spec fn comma_joined(names: Seq<Seq<char>>) -> Seq<char>
    decreases names.len(),
{
    if names.len() == 0 {
        Seq::empty()
    } else if names.len() == 1 {
        names[0]
    } else {
        comma_joined(names.drop_last()) + ", "@ + names.last()
    }
}

/// The diagnostic for a partial OIDC configuration.
pub open spec fn partial_message(count: Seq<char>, names: Seq<Seq<char>>, flags: Seq<bool>) -> Seq<char> {
    "partial OIDC configuration: set all "@ + count + " fields or none. present: ["@ + comma_joined(
        names_where(names, flags, true),
    ) + "], missing: ["@ + comma_joined(names_where(names, flags, false)) + "]"@
}

/// The diagnostic for a configuration that names a client but no secret.
pub open spec fn secret_required_message() -> Seq<char> {
    "oidc_client_secret_file is required when oidc_issuer and oidc_client_id are set (set it explicitly or run under systemd with LoadCredential)"@
}

fn join_present(names: &Vec<&'static str>, flags: &Vec<bool>, want: bool) -> (r: String)
    requires
        names.len() == flags.len(),
    ensures
        r@ == comma_joined(names_where(names@.map_values(|n: &str| n@), flags@, want)),
{
    let ghost nv = names@.map_values(|n: &str| n@);
    let mut out = String::new();
    let mut count: usize = 0;
    let mut i: usize = 0;
    while i < names.len()
        invariant
            names.len() == flags.len(),
            i <= names.len(),
            nv == names@.map_values(|n: &str| n@),
            out@ == comma_joined(names_where(nv.take(i as int), flags@.take(i as int), want)),
            count == names_where(nv.take(i as int), flags@.take(i as int), want).len(),
            count <= i,
        decreases names.len() - i,
    {
        proof {
            assert(nv.take(i + 1).drop_last() =~= nv.take(i as int));
            assert(flags@.take(i + 1).drop_last() =~= flags@.take(i as int));
        }
        let ghost prev = names_where(nv.take(i as int), flags@.take(i as int), want);
        if flags[i] == want {
            if count > 0 {
                out = concat_str(out.as_str(), ", ");
            }
            out = concat_str(out.as_str(), names[i]);
            count = count + 1;
            proof {
                let next = prev.push(nv[i as int]);
                assert(names_where(nv.take(i + 1), flags@.take(i + 1), want) == next);
                assert(next.drop_last() =~= prev);
                if prev.len() == 0 {
                    assert(comma_joined(next) == nv[i as int]);
                    assert(out@ =~= nv[i as int]);
                } else {
                    assert(comma_joined(next) == comma_joined(prev) + ", "@ + nv[i as int]);
                }
            }
        }
        i = i + 1;
    }
    proof {
        assert(nv.take(i as int) =~= nv);
        assert(flags@.take(i as int) =~= flags@);
    }
    out
}

fn partial_error(count: &str, names: &Vec<&'static str>, flags: &Vec<bool>) -> (r: ValidationError)
    requires
        names.len() == flags.len(),
    ensures
        r.message@ == partial_message(count@, names@.map_values(|n: &str| n@), flags@),
{
    let present = join_present(names, flags, true);
    let missing = join_present(names, flags, false);
    let m = concat_str("partial OIDC configuration: set all ", count);
    let m = concat_str(m.as_str(), " fields or none. present: [");
    let m = concat_str(m.as_str(), present.as_str());
    let m = concat_str(m.as_str(), "], missing: [");
    let m = concat_str(m.as_str(), missing.as_str());
    ValidationError { message: concat_str(m.as_str(), "]") }
}

fn either(first: Option<String>, second: Option<String>) -> (r: Option<String>)
    ensures
        r == match first {
            Some(v) => Some(v),
            None => second,
        },
{
    match first {
        Some(v) => Some(v),
        None => second,
    }
}

/// The server's OIDC settings: issuer, client id and secret file, each
/// taken from the command line or else from the file section.  With
/// none of them set OIDC is off; with issuer and client id set the
/// secret file (or, failing it, the systemd credential) must exist;
/// any other combination is a partial configuration.
pub open spec fn oidc_outcome(
    issuer: Option<Seq<char>>,
    client_id: Option<Seq<char>>,
    secret_file: Option<Seq<char>>,
    credential: Option<Seq<char>>,
) -> Result<Option<(Seq<char>, Seq<char>, Seq<char>)>, Seq<char>> {
    if issuer.is_none() && client_id.is_none() && secret_file.is_none() {
        Ok(None)
    } else if issuer.is_some() && client_id.is_some() {
        match (if secret_file.is_some() { secret_file } else { credential }) {
            Some(f) => Ok(Some((issuer->Some_0, client_id->Some_0, f))),
            None => Err(secret_required_message()),
        }
    } else {
        Err(partial_message(
            "three"@,
            seq!["oidc_issuer"@, "oidc_client_id"@, "oidc_client_secret_file"@],
            seq![issuer.is_some(), client_id.is_some(), secret_file.is_some() || credential.is_some()],
        ))
    }
}

/// Resolve the server's OIDC settings (see `oidc_outcome`).  Command-
/// line values win over the file section; `credential` is the systemd
/// credential file to fall back on for the secret, if one exists.
pub fn resolve_oidc(
    cli_issuer: Option<String>,
    cli_client_id: Option<String>,
    cli_secret_file: Option<String>,
    file: Option<OidcSectionRaw>,
    credential: Option<String>,
) -> (r: Result<Option<OidcRequest>, ValidationError>)
    ensures
        ({
            let (fi, fc, fs) = match file {
                Some(f) => (f.issuer, f.client_id, f.client_secret_file),
                None => (None, None, None),
            };
            let issuer = opt_view(if cli_issuer.is_some() { cli_issuer } else { fi });
            let client_id = opt_view(if cli_client_id.is_some() { cli_client_id } else { fc });
            let secret = opt_view(if cli_secret_file.is_some() { cli_secret_file } else { fs });
            match oidc_outcome(issuer, client_id, secret, opt_view(credential)) {
                Ok(None) => r matches Ok(None),
                Ok(Some((i, c, f))) => r matches Ok(Some(q)) && q.issuer@ == i && q.client_id@ == c
                    && q.secret_file@ == f && q.base_url.is_none(),
                Err(m) => r matches Err(e) && e.message@ == m,
            }
        }),
{
    let (fi, fc, fs) = match file {
        Some(f) => (f.issuer, f.client_id, f.client_secret_file),
        None => (None, None, None),
    };
    let issuer = either(cli_issuer, fi);
    let client_id = either(cli_client_id, fc);
    let secret_file = either(cli_secret_file, fs);
    if issuer.is_none() && client_id.is_none() && secret_file.is_none() {
        return Ok(None);
    }
    if issuer.is_some() && client_id.is_some() {
        let secret = either(secret_file, credential);
        match secret {
            None => {
                return Err(ValidationError { message: owned(
                    "oidc_client_secret_file is required when oidc_issuer and oidc_client_id are set (set it explicitly or run under systemd with LoadCredential)",
                ) });
            },
            Some(f) => {
                return Ok(Some(OidcRequest {
                    base_url: None,
                    issuer: issuer.unwrap(),
                    client_id: client_id.unwrap(),
                    secret_file: f,
                }));
            },
        }
    }
    let names: Vec<&'static str> = vec!["oidc_issuer", "oidc_client_id", "oidc_client_secret_file"];
    let flags: Vec<bool> = vec![issuer.is_some(), client_id.is_some(), secret_file.is_some() || credential.is_some()];
    proof {
        assert(names@.map_values(|n: &str| n@) =~= seq!["oidc_issuer"@, "oidc_client_id"@, "oidc_client_secret_file"@]);
    }
    Err(partial_error("three", &names, &flags))
}

/// The command-line tool's OIDC settings: like `oidc_outcome`, with the
/// service's base URL as a fourth required field.
pub open spec fn oidc_outcome_with_base(
    base_url: Option<Seq<char>>,
    issuer: Option<Seq<char>>,
    client_id: Option<Seq<char>>,
    secret_file: Option<Seq<char>>,
    credential: Option<Seq<char>>,
) -> Result<Option<(Seq<char>, Seq<char>, Seq<char>, Seq<char>)>, Seq<char>> {
    if base_url.is_none() && issuer.is_none() && client_id.is_none() && secret_file.is_none() {
        Ok(None)
    } else if base_url.is_some() && issuer.is_some() && client_id.is_some() {
        match (if secret_file.is_some() { secret_file } else { credential }) {
            Some(f) => Ok(Some((base_url->Some_0, issuer->Some_0, client_id->Some_0, f))),
            None => Err(secret_required_message()),
        }
    } else {
        Err(partial_message(
            "four"@,
            seq!["base_url"@, "oidc_issuer"@, "oidc_client_id"@, "oidc_client_secret_file"@],
            seq![
                base_url.is_some(),
                issuer.is_some(),
                client_id.is_some(),
                secret_file.is_some() || credential.is_some(),
            ],
        ))
    }
}

/// Resolve the command-line tool's OIDC settings (see
/// `oidc_outcome_with_base`); command-line values win over the file.
pub fn resolve_oidc_with_base_url(
    cli_base_url: Option<String>,
    cli_issuer: Option<String>,
    cli_client_id: Option<String>,
    cli_secret_file: Option<String>,
    file: Option<OidcSectionRaw>,
    credential: Option<String>,
) -> (r: Result<Option<OidcRequest>, ValidationError>)
    ensures
        ({
            let (fb, fi, fc, fs) = match file {
                Some(f) => (f.base_url, f.issuer, f.client_id, f.client_secret_file),
                None => (None, None, None, None),
            };
            let base = opt_view(if cli_base_url.is_some() { cli_base_url } else { fb });
            let issuer = opt_view(if cli_issuer.is_some() { cli_issuer } else { fi });
            let client_id = opt_view(if cli_client_id.is_some() { cli_client_id } else { fc });
            let secret = opt_view(if cli_secret_file.is_some() { cli_secret_file } else { fs });
            match oidc_outcome_with_base(base, issuer, client_id, secret, opt_view(credential)) {
                Ok(None) => r matches Ok(None),
                Ok(Some((b, i, c, f))) => r matches Ok(Some(q)) && q.base_url matches Some(qb) && qb@ == b
                    && q.issuer@ == i && q.client_id@ == c && q.secret_file@ == f,
                Err(m) => r matches Err(e) && e.message@ == m,
            }
        }),
{
    let (fb, fi, fc, fs) = match file {
        Some(f) => (f.base_url, f.issuer, f.client_id, f.client_secret_file),
        None => (None, None, None, None),
    };
    let base = either(cli_base_url, fb);
    let issuer = either(cli_issuer, fi);
    let client_id = either(cli_client_id, fc);
    let secret_file = either(cli_secret_file, fs);
    if base.is_none() && issuer.is_none() && client_id.is_none() && secret_file.is_none() {
        return Ok(None);
    }
    if base.is_some() && issuer.is_some() && client_id.is_some() {
        let secret = either(secret_file, credential);
        match secret {
            None => {
                return Err(ValidationError { message: owned(
                    "oidc_client_secret_file is required when oidc_issuer and oidc_client_id are set (set it explicitly or run under systemd with LoadCredential)",
                ) });
            },
            Some(f) => {
                return Ok(Some(OidcRequest {
                    base_url: base,
                    issuer: issuer.unwrap(),
                    client_id: client_id.unwrap(),
                    secret_file: f,
                }));
            },
        }
    }
    let names: Vec<&'static str> = vec!["base_url", "oidc_issuer", "oidc_client_id", "oidc_client_secret_file"];
    let flags: Vec<bool> = vec![
        base.is_some(),
        issuer.is_some(),
        client_id.is_some(),
        secret_file.is_some() || credential.is_some(),
    ];
    proof {
        assert(names@.map_values(|n: &str| n@) =~= seq![
            "base_url"@,
            "oidc_issuer"@,
            "oidc_client_id"@,
            "oidc_client_secret_file"@,
        ]);
    }
    Err(partial_error("four", &names, &flags))
}

/// How the secret file is chosen: with issuer and client id set, an
/// explicitly configured secret file is the one used, whatever systemd
/// credential exists; the credential is used only when no secret file is
/// configured; with neither the settings are rejected.  The credential
/// alone never turns OIDC on.
pub proof fn lemma_configured_secret_file_wins(
    issuer: Option<Seq<char>>,
    client_id: Option<Seq<char>>,
    secret_file: Option<Seq<char>>,
    credential: Option<Seq<char>>,
)
    ensures
        issuer is Some && client_id is Some && secret_file is Some ==> oidc_outcome(
            issuer,
            client_id,
            secret_file,
            credential,
        ) == Ok::<Option<(Seq<char>, Seq<char>, Seq<char>)>, Seq<char>>(
            Some((issuer->Some_0, client_id->Some_0, secret_file->Some_0)),
        ),
        issuer is Some && client_id is Some && secret_file is None && credential is Some ==> oidc_outcome(
            issuer,
            client_id,
            secret_file,
            credential,
        ) == Ok::<Option<(Seq<char>, Seq<char>, Seq<char>)>, Seq<char>>(
            Some((issuer->Some_0, client_id->Some_0, credential->Some_0)),
        ),
        issuer is Some && client_id is Some && secret_file is None && credential is None ==> oidc_outcome(
            issuer,
            client_id,
            secret_file,
            credential,
        ) is Err,
        issuer is None && client_id is None && secret_file is None ==> oidc_outcome(
            issuer,
            client_id,
            secret_file,
            credential,
        ) == Ok::<Option<(Seq<char>, Seq<char>, Seq<char>)>, Seq<char>>(None),
        match oidc_outcome(issuer, client_id, secret_file, credential) {
            Ok(Some(t)) => issuer == Some(t.0) && client_id == Some(t.1) && (secret_file == Some(t.2) || (
            secret_file is None && credential == Some(t.2))),
            _ => true,
        },
{
}

/// The same choice of secret file for the command-line tool, whose
/// settings also need the service's base URL.
pub proof fn lemma_configured_secret_file_wins_with_base(
    base_url: Option<Seq<char>>,
    issuer: Option<Seq<char>>,
    client_id: Option<Seq<char>>,
    secret_file: Option<Seq<char>>,
    credential: Option<Seq<char>>,
)
    ensures
        base_url is Some && issuer is Some && client_id is Some && secret_file is Some ==> oidc_outcome_with_base(
            base_url,
            issuer,
            client_id,
            secret_file,
            credential,
        ) == Ok::<Option<(Seq<char>, Seq<char>, Seq<char>, Seq<char>)>, Seq<char>>(
            Some((base_url->Some_0, issuer->Some_0, client_id->Some_0, secret_file->Some_0)),
        ),
        base_url is Some && issuer is Some && client_id is Some && secret_file is None && credential is Some
            ==> oidc_outcome_with_base(base_url, issuer, client_id, secret_file, credential) == Ok::<
            Option<(Seq<char>, Seq<char>, Seq<char>, Seq<char>)>,
            Seq<char>,
        >(Some((base_url->Some_0, issuer->Some_0, client_id->Some_0, credential->Some_0))),
        match oidc_outcome_with_base(base_url, issuer, client_id, secret_file, credential) {
            Ok(Some(t)) => base_url == Some(t.0) && issuer == Some(t.1) && client_id == Some(t.2) && (secret_file
                == Some(t.3) || (secret_file is None && credential == Some(t.3))),
            _ => true,
        },
{
}

} // verus!
