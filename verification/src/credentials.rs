//! Credentials and the chain that resolves them for a named profile.
//!
//! Sources are tried in order, short-circuiting on the first success:
//! environment variables (default profile only), the credentials file, the
//! config file, and last the instance metadata service (default profile
//! only). The surrounding program reads the environment and the two files
//! and hands their contents in as plain values; when the chain ends in
//! `TryInstanceMetadata` it performs the metadata fetch.

use vstd::prelude::*;
use crate::ini::{
    ini_lookup, parse_ini_file, spec_ini_lookup, spec_parse_ini, IniDoc,
};
use crate::textutil::{chars_to_string, str_to_chars};

verus! {

/// A static credential triple. Immutable once resolved; consumed by value at
/// the point of use.
#[derive(Debug)]
pub struct Credentials {
    pub access_key_id: String,
    pub secret_access_key: String,
    pub session_token: Option<String>,
}

impl Clone for Credentials {
    /// An exact copy of the triple.
    fn clone(&self) -> (r: Credentials)
        ensures
            r == *self,
    {
        Credentials {
            access_key_id: self.access_key_id.clone(),
            secret_access_key: self.secret_access_key.clone(),
            session_token: match &self.session_token {
                Some(t) => Some(t.clone()),
                None => None,
            },
        }
    }
}

/// The credential environment variables, as read by the surrounding program.
pub struct EnvCredentials {
    pub access_key_id: Option<String>,
    pub secret_access_key: Option<String>,
    pub session_token: Option<String>,
}

/// What the chain concludes from the environment and the two files alone.
pub enum ChainOutcome {
    /// A source produced a triple.
    Resolved(Credentials),
    /// No local source succeeded and the profile is `default`: the caller
    /// should query the instance metadata service.
    TryInstanceMetadata,
    /// No source can produce credentials for this profile.
    NotFound,
}

/// Which source the chain settles on.
pub enum ChainSource {
    FromEnvironment,
    FromCredentialsFile,
    FromConfigFile,
    InstanceMetadata,
    Nothing,
}

/// The environment resolves only when both required variables are present.
pub open spec fn spec_env_resolves(env: EnvCredentials) -> bool {
    env.access_key_id is Some && env.secret_access_key is Some
}

/// The credential triple a parsed file's section yields for a profile:
/// present exactly when both required keys are assigned there.
pub open spec fn spec_section_credentials(
    entries: Seq<(Seq<char>, Seq<char>, Seq<char>)>,
    profile: Seq<char>,
) -> Option<(Seq<char>, Seq<char>, Option<Seq<char>>)> {
    let ak = spec_ini_lookup(entries, profile, "aws_access_key_id"@);
    let sk = spec_ini_lookup(entries, profile, "aws_secret_access_key"@);
    if ak is Some && sk is Some {
        Some((ak->Some_0, sk->Some_0, spec_ini_lookup(entries, profile, "aws_session_token"@)))
    } else {
        None
    }
}

/// The triple a whole file yields: none when the file is absent.
pub open spec fn spec_file_credentials(content: Option<Seq<char>>, profile: Seq<char>) -> Option<
    (Seq<char>, Seq<char>, Option<Seq<char>>),
> {
    match content {
        Some(text) => spec_section_credentials(spec_parse_ini(text).entries, profile),
        None => None,
    }
}

/// The source the chain settles on, given the profile and every input.
/// Source one wins whenever it resolves at all.
pub open spec fn spec_chain_source(
    profile: Seq<char>,
    env: EnvCredentials,
    credentials_file: Option<Seq<char>>,
    config_file: Option<Seq<char>>,
) -> ChainSource {
    if profile == "default"@ && spec_env_resolves(env) {
        ChainSource::FromEnvironment
    } else if spec_file_credentials(credentials_file, profile) is Some {
        ChainSource::FromCredentialsFile
    } else if spec_file_credentials(config_file, profile) is Some {
        ChainSource::FromConfigFile
    } else if profile == "default"@ {
        ChainSource::InstanceMetadata
    } else {
        ChainSource::Nothing
    }
}

/// A resolved triple equals the given sequence triple.
pub open spec fn creds_match(c: Credentials, t: (Seq<char>, Seq<char>, Option<Seq<char>>)) -> bool {
    &&& c.access_key_id@ == t.0
    &&& c.secret_access_key@ == t.1
    &&& match t.2 {
        Some(tok) => c.session_token is Some && c.session_token->Some_0@ == tok,
        None => c.session_token is None,
    }
}

/// Extracts the credential triple a parsed file holds for a profile.
fn section_credentials(doc: &IniDoc, profile: &Vec<char>) -> (r: Option<Credentials>)
    ensures
        match spec_section_credentials(doc.view_model().entries, profile@) {
            Some(t) => r is Some && creds_match(r->Some_0, t),
            None => r is None,
        },
{
    let ak_key = str_to_chars("aws_access_key_id");
    let sk_key = str_to_chars("aws_secret_access_key");
    let st_key = str_to_chars("aws_session_token");
    let ak = ini_lookup(doc, profile, &ak_key);
    let sk = ini_lookup(doc, profile, &sk_key);
    match (ak, sk) {
        (Some(a), Some(s)) => {
            let token = match ini_lookup(doc, profile, &st_key) {
                Some(t) => Some(chars_to_string(&t)),
                None => None,
            };
            Some(
                Credentials {
                    access_key_id: chars_to_string(&a),
                    secret_access_key: chars_to_string(&s),
                    session_token: token,
                },
            )
        },
        _ => None,
    }
}

/// Resolves credentials for a profile from the local sources, in order:
/// the environment (default profile only), the credentials file, then the
/// config file. When none succeeds and the profile is `default`, asks the
/// caller to query the instance metadata service; otherwise nothing is
/// found.
pub fn load_credentials(
    profile: &str,
    env: &EnvCredentials,
    credentials_file: Option<&str>,
    config_file: Option<&str>,
) -> (r: ChainOutcome)
    ensures
        ({
            let cred_view = match credentials_file {
                Some(text) => Some(text@),
                None => None,
            };
            let conf_view = match config_file {
                Some(text) => Some(text@),
                None => None,
            };
            match spec_chain_source(profile@, *env, cred_view, conf_view) {
                ChainSource::FromEnvironment => r is Resolved && creds_match(
                    r->Resolved_0,
                    (
                        env.access_key_id->Some_0@,
                        env.secret_access_key->Some_0@,
                        match env.session_token {
                            Some(t) => Some(t@),
                            None => None,
                        },
                    ),
                ),
                ChainSource::FromCredentialsFile => r is Resolved && creds_match(
                    r->Resolved_0,
                    spec_file_credentials(cred_view, profile@)->Some_0,
                ),
                ChainSource::FromConfigFile => r is Resolved && creds_match(
                    r->Resolved_0,
                    spec_file_credentials(conf_view, profile@)->Some_0,
                ),
                ChainSource::InstanceMetadata => r is TryInstanceMetadata,
                ChainSource::Nothing => r is NotFound,
            }
        }),
{
    let pchars = str_to_chars(profile);
    let dchars = str_to_chars("default");
    let is_default = crate::ini::chars_eq(&pchars, &dchars);

    if is_default {
        match (&env.access_key_id, &env.secret_access_key) {
            (Some(ak), Some(sk)) => {
                let token = match &env.session_token {
                    Some(t) => Some(t.clone()),
                    None => None,
                };
                return ChainOutcome::Resolved(
                    Credentials {
                        access_key_id: ak.clone(),
                        secret_access_key: sk.clone(),
                        session_token: token,
                    },
                );
            },
            _ => {},
        }
    }

    if let Some(text) = credentials_file {
        let doc = parse_ini_file(text);
        if let Some(creds) = section_credentials(&doc, &pchars) {
            return ChainOutcome::Resolved(creds);
        }
    }

    if let Some(text) = config_file {
        let doc = parse_ini_file(text);
        if let Some(creds) = section_credentials(&doc, &pchars) {
            return ChainOutcome::Resolved(creds);
        }
    }

    if is_default {
        ChainOutcome::TryInstanceMetadata
    } else {
        ChainOutcome::NotFound
    }
}

/// With the default profile and both environment variables set, the
/// environment wins: no file section, however complete, is consulted.
pub proof fn lemma_environment_wins(
    profile: Seq<char>,
    env: EnvCredentials,
    credentials_file: Option<Seq<char>>,
    config_file: Option<Seq<char>>,
)
    requires
        profile == "default"@,
        spec_env_resolves(env),
    ensures
        spec_chain_source(profile, env, credentials_file, config_file)
            == ChainSource::FromEnvironment,
{
}


/// The region a parsed config file assigns to a profile, if any. The
/// surrounding program consults the region environment variables first, then
/// hands the parsed config file here.
pub fn get_profile_region(doc: &IniDoc, profile: &str) -> (r: Option<String>)
    ensures
        match spec_ini_lookup(doc.view_model().entries, profile@, "region"@) {
            Some(v) => r is Some && r->Some_0@ == v,
            None => r is None,
        },
{
    let pchars = str_to_chars(profile);
    let key = str_to_chars("region");
    match ini_lookup(doc, &pchars, &key) {
        Some(v) => Some(chars_to_string(&v)),
        None => None,
    }
}

/// The section names of two parsed files, merged: the first file's names in
/// their order, then the second's that the first does not hold.
pub open spec fn spec_merged_profiles(a: Seq<Seq<char>>, b: Seq<Seq<char>>) -> Seq<Seq<char>>
    decreases b.len(),
{
    if b.len() == 0 {
        a
    } else if a.contains(b.first()) {
        spec_merged_profiles(a, b.drop_first())
    } else {
        spec_merged_profiles(a.push(b.first()), b.drop_first())
    }
}

/// Lists the profile names the two files declare, without duplicates and in
/// code-point order.
pub fn list_profiles(credentials_doc: &IniDoc, config_doc: &IniDoc) -> (r: Vec<String>)
    ensures
        r@.map_values(|s: String| s@) == spec_merged_profiles(
            credentials_doc.view_model().sections,
            config_doc.view_model().sections,
        ).sort_by(crate::textutil::lex_le_chars_fn()),
{
    let mut names: Vec<Vec<char>> = Vec::new();
    let n = credentials_doc.sections.len();
    for i in 0..n
        invariant
            n == credentials_doc.sections@.len(),
            names@.map_values(|v: Vec<char>| v@) =~= credentials_doc.view_model().sections.take(
                i as int,
            ),
    {
        let ghost before = names@;
        let copied = crate::ini::copy_range(
            &credentials_doc.sections[i],
            0,
            credentials_doc.sections[i].len(),
        );
        proof {
            assert(copied@ =~= credentials_doc.sections@[i as int]@);
        }
        names.push(copied);
        proof {
            assert(names@.map_values(|v: Vec<char>| v@) =~= before.map_values(
                |v: Vec<char>| v@,
            ).push(credentials_doc.view_model().sections[i as int]));
            assert(credentials_doc.view_model().sections.take(i + 1)
                =~= credentials_doc.view_model().sections.take(i as int).push(
                credentials_doc.view_model().sections[i as int],
            ));
        }
    }
    proof {
        assert(credentials_doc.view_model().sections.take(n as int)
            =~= credentials_doc.view_model().sections);
    }
    let m = config_doc.sections.len();
    let mut j: usize = 0;
    proof {
        assert(config_doc.view_model().sections.skip(0) == config_doc.view_model().sections);
    }
    while j < m
        invariant
            j <= m,
            m == config_doc.sections@.len(),
            spec_merged_profiles(
                credentials_doc.view_model().sections,
                config_doc.view_model().sections,
            ) == spec_merged_profiles(
                names@.map_values(|v: Vec<char>| v@),
                config_doc.view_model().sections.skip(j as int),
            ),
        decreases m - j,
    {
        let ghost acc = names@.map_values(|v: Vec<char>| v@);
        let ghost rest = config_doc.view_model().sections.skip(j as int);
        let candidate = crate::ini::copy_range(
            &config_doc.sections[j],
            0,
            config_doc.sections[j].len(),
        );
        proof {
            assert(candidate@ =~= config_doc.sections@[j as int]@);
            assert(rest.first() == candidate@);
            assert(rest.drop_first() =~= config_doc.view_model().sections.skip(j + 1));
        }
        let mut present = false;
        let k_count = names.len();
        let mut k: usize = 0;
        while k < k_count
            invariant
                k <= k_count,
                k_count == names@.len(),
                acc == names@.map_values(|v: Vec<char>| v@),
                present == exists|t: int| 0 <= t < k && acc[t] == candidate@,
            decreases k_count - k,
        {
            if crate::ini::chars_eq(&names[k], &candidate) {
                proof {
                    assert(acc[k as int] == candidate@);
                }
                present = true;
            }
            proof {
                if present && !(exists|t: int| 0 <= t < k + 1 && acc[t] == candidate@) {
                    assert(false);
                }
            }
            k = k + 1;
        }
        proof {
            assert(present == acc.contains(candidate@)) by {
                if present {
                    let t = choose|t: int| 0 <= t < names@.len() && acc[t] == candidate@;
                    assert(acc[t] == candidate@);
                }
                if acc.contains(candidate@) {
                    let t = choose|t: int| 0 <= t < acc.len() && acc[t] == candidate@;
                }
            }
        }
        if !present {
            let ghost before = names@;
            names.push(candidate);
            proof {
                assert(names@.map_values(|v: Vec<char>| v@) =~= acc.push(rest.first()));
            }
        }
        j = j + 1;
    }
    proof {
        assert(config_doc.view_model().sections.skip(m as int) =~= Seq::<Seq<char>>::empty());
        assert(spec_merged_profiles(names@.map_values(|v: Vec<char>| v@), Seq::empty())
            == names@.map_values(|v: Vec<char>| v@));
    }
    let names = crate::textutil::sort_char_vecs(names);
    let mut out: Vec<String> = Vec::new();
    let total = names.len();
    for t in 0..total
        invariant
            total == names@.len(),
            out@.map_values(|s: String| s@) =~= names@.map_values(|v: Vec<char>| v@).take(
                t as int,
            ),
    {
        let ghost before = out@;
        out.push(chars_to_string(&names[t]));
        proof {
            assert(out@.map_values(|s: String| s@) =~= before.map_values(|s: String| s@).push(
                names@[t as int]@,
            ));
            assert(names@.map_values(|v: Vec<char>| v@).take(t + 1) =~= names@.map_values(
                |v: Vec<char>| v@,
            ).take(t as int).push(names@[t as int]@));
        }
    }
    proof {
        assert(names@.map_values(|v: Vec<char>| v@).take(total as int) =~= names@.map_values(
            |v: Vec<char>| v@,
        ));
    }
    out
}

} // verus!
