//! The credential chain and the INI parser, on concrete files.

use awscore::credentials::{
    get_profile_region, list_profiles, load_credentials, ChainOutcome, EnvCredentials,
};
use awscore::ini::{ini_has_section, ini_lookup, parse_ini_file};

fn chars(s: &str) -> Vec<char> {
    s.chars().collect()
}

fn no_env() -> EnvCredentials {
    EnvCredentials { access_key_id: None, secret_access_key: None, session_token: None }
}

#[test]
fn profile_prefix_is_stripped_from_config_sections() {
    // A config file names its sections "profile <name>"; the parse stores
    // them under the bare name.
    let doc = parse_ini_file(
        "[profile dev]\nregion = us-west-2\naws_access_key_id = X\naws_secret_access_key = Y\n",
    );
    assert!(ini_has_section(&doc, &chars("dev")));
    assert!(!ini_has_section(&doc, &chars("profile dev")));
    assert_eq!(ini_lookup(&doc, &chars("dev"), &chars("region")), Some(chars("us-west-2")));
}

#[test]
fn config_file_resolves_profile_dev() {
    let config =
        "[profile dev]\nregion = us-west-2\naws_access_key_id = X\naws_secret_access_key = Y\n";
    match load_credentials("dev", &no_env(), None, Some(config)) {
        ChainOutcome::Resolved(creds) => {
            assert_eq!(creds.access_key_id, "X");
            assert_eq!(creds.secret_access_key, "Y");
            assert!(creds.session_token.is_none());
        },
        _ => panic!("profile dev must resolve from the config file"),
    }
}

#[test]
fn environment_wins_over_credentials_file() {
    // Both environment variables set and a matching credentials-file section
    // present: source one wins.
    let env = EnvCredentials {
        access_key_id: Some("ENVKEY".to_string()),
        secret_access_key: Some("ENVSECRET".to_string()),
        session_token: None,
    };
    let creds_file = "[default]\naws_access_key_id = FILEKEY\naws_secret_access_key = FILESECRET\n";
    match load_credentials("default", &env, Some(creds_file), None) {
        ChainOutcome::Resolved(creds) => {
            assert_eq!(creds.access_key_id, "ENVKEY");
            assert_eq!(creds.secret_access_key, "ENVSECRET");
        },
        _ => panic!("the environment must resolve the default profile"),
    }
}

#[test]
fn environment_is_ignored_for_named_profiles() {
    let env = EnvCredentials {
        access_key_id: Some("ENVKEY".to_string()),
        secret_access_key: Some("ENVSECRET".to_string()),
        session_token: None,
    };
    let creds_file = "[dev]\naws_access_key_id = FILEKEY\naws_secret_access_key = FILESECRET\n";
    match load_credentials("dev", &env, Some(creds_file), None) {
        ChainOutcome::Resolved(creds) => assert_eq!(creds.access_key_id, "FILEKEY"),
        _ => panic!("profile dev must resolve from the credentials file"),
    }
}

#[test]
fn default_profile_falls_through_to_instance_metadata() {
    match load_credentials("default", &no_env(), None, None) {
        ChainOutcome::TryInstanceMetadata => {},
        _ => panic!("an unresolved default profile asks for the metadata service"),
    }
}

#[test]
fn named_profile_without_sources_is_not_found() {
    match load_credentials("dev", &no_env(), None, None) {
        ChainOutcome::NotFound => {},
        _ => panic!("an unresolved named profile is not found"),
    }
}

#[test]
fn credentials_file_wins_over_config_file() {
    let creds_file = "[dev]\naws_access_key_id = A1\naws_secret_access_key = S1\n";
    let config = "[profile dev]\naws_access_key_id = A2\naws_secret_access_key = S2\n";
    match load_credentials("dev", &no_env(), Some(creds_file), Some(config)) {
        ChainOutcome::Resolved(creds) => assert_eq!(creds.access_key_id, "A1"),
        _ => panic!("the credentials file must win over the config file"),
    }
}

#[test]
fn session_token_is_optional_and_read_when_present() {
    let creds_file = "[dev]\naws_access_key_id = A\naws_secret_access_key = S\naws_session_token = T\n";
    match load_credentials("dev", &no_env(), Some(creds_file), None) {
        ChainOutcome::Resolved(creds) => {
            assert_eq!(creds.session_token, Some("T".to_string()));
        },
        _ => panic!("profile dev must resolve"),
    }
}

#[test]
fn ini_skips_comments_blank_lines_and_preamble() {
    let doc = parse_ini_file(
        "stray = discarded\n\n# comment\n; also comment\n[s]\nk = v\nno_equals_line\nk2= spaced \n",
    );
    assert!(ini_has_section(&doc, &chars("s")));
    assert_eq!(ini_lookup(&doc, &chars("s"), &chars("k")), Some(chars("v")));
    assert_eq!(ini_lookup(&doc, &chars("s"), &chars("k2")), Some(chars("spaced")));
    assert_eq!(ini_lookup(&doc, &chars(""), &chars("stray")), None);
}

#[test]
fn ini_splits_at_first_equals_and_later_assignment_wins() {
    let doc = parse_ini_file("[s]\nk = a=b\nk = c\n");
    assert_eq!(ini_lookup(&doc, &chars("s"), &chars("k")), Some(chars("c")));
    let doc2 = parse_ini_file("[s]\nk = a=b\n");
    assert_eq!(ini_lookup(&doc2, &chars("s"), &chars("k")), Some(chars("a=b")));
}

#[test]
fn profile_region_comes_from_the_config_section() {
    let doc = parse_ini_file("[profile dev]\nregion = eu-central-1\n");
    assert_eq!(get_profile_region(&doc, "dev"), Some("eu-central-1".to_string()));
    assert_eq!(get_profile_region(&doc, "prod"), None);
}

#[test]
fn profile_names_merge_without_duplicates_and_sort() {
    let creds = parse_ini_file("[zeta]\n[default]\n");
    let config = parse_ini_file("[profile default]\n[profile alpha]\n");
    let names = list_profiles(&creds, &config);
    assert_eq!(
        names,
        vec!["alpha".to_string(), "default".to_string(), "zeta".to_string()]
    );
}
