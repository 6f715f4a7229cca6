use procmanlib::{
    InvalidPathReason, ListedEntry, LoadEvent, LoadRequest, ProcmanConfig, ProcmanConfigError,
    ProcmanConfigFile, ProcmanConfigFileError, ProcmanConfigFormat, ProcmanConfigLoad,
    ProcmanConfigParseErrorKind, ProgramConfig, ProgramName, ProgramNameErrorKind,
};

fn entry(dir: &str, name: &str) -> ListedEntry {
    ListedEntry { name: Some(name.to_string()), path: format!("{}/{}", dir, name) }
}

fn web_config() -> ProcmanConfig {
    let mut c = ProcmanConfig::new();
    let name = ProgramName::try_new("web").unwrap();
    let cmd = vec!["nginx".to_string(), "-g".to_string(), "daemon off;".to_string()];
    c.insert(name, ProgramConfig::new(cmd));
    c
}

fn search_to_listing(cwd: &str, cfg: &str) -> ProcmanConfigLoad {
    let load = ProcmanConfig::load_from_file(None);
    assert!(matches!(load.request(), LoadRequest::CurrentDir));
    let load = load.advance(LoadEvent::CurrentDir(Ok(cwd.to_string())));
    assert!(matches!(load.request(), LoadRequest::ConfigDir));
    let load = load.advance(LoadEvent::ConfigDir(Some(cfg.to_string())));
    match load.request() {
        LoadRequest::ListDirectory(d) => assert_eq!(d, cwd),
        other => panic!("unexpected request {:?}", other),
    }
    load
}

#[test]
fn program_name_reports_space_and_bang() {
    let err = ProgramName::try_new("my prog!").unwrap_err();
    assert_eq!(err.name, "my prog!");
    assert_eq!(err.invalid_characters(), &vec![' ', '!']);
    let ProgramNameErrorKind::InvalidCharacters(v) = &err.kind;
    assert_eq!(v, &vec![' ', '!']);
}

#[test]
fn program_name_repeats_each_occurrence() {
    let err = ProgramName::try_new("a.b.c.").unwrap_err();
    assert_eq!(err.invalid_characters(), &vec!['.', '.', '.']);
}

#[test]
fn program_name_accepts_allowed_characters() {
    let n = ProgramName::try_new("Web_server-2").unwrap();
    assert_eq!(n.as_str(), "Web_server-2");
    assert!(ProgramName::try_new("").is_ok());
    assert!(ProgramName::try_new("caf\u{e9}").is_err());
    assert!(procmanlib::program_name::is_valid_char(&'-'));
    assert!(!procmanlib::program_name::is_valid_char(&'/'));
}

#[test]
fn formats_in_registry_order() {
    let all = ProcmanConfigFormat::all();
    assert_eq!(all, vec![ProcmanConfigFormat::Toml, ProcmanConfigFormat::Json, ProcmanConfigFormat::Yaml]);
    let names: Vec<&str> = all.iter().map(|f| f.name()).collect();
    assert_eq!(names, vec!["toml", "json", "yaml"]);
}

#[test]
fn extension_lookup() {
    assert_eq!(ProcmanConfigFormat::from_extension("toml"), Some(ProcmanConfigFormat::Toml));
    assert_eq!(ProcmanConfigFormat::from_extension("json"), Some(ProcmanConfigFormat::Json));
    assert_eq!(ProcmanConfigFormat::from_extension("yaml"), Some(ProcmanConfigFormat::Yaml));
    assert_eq!(ProcmanConfigFormat::from_extension("yml"), Some(ProcmanConfigFormat::Yaml));
    assert_eq!(ProcmanConfigFormat::from_extension("TOML"), None);
    assert_eq!(ProcmanConfigFormat::from_extension("conf"), None);
    assert_eq!(ProcmanConfigFormat::from_extension(""), None);
}

#[test]
fn candidate_names() {
    assert_eq!(ProcmanConfigFile::candidate_hint_of("procman"), Some(None));
    assert_eq!(ProcmanConfigFile::candidate_hint_of("procman.toml"), Some(Some(ProcmanConfigFormat::Toml)));
    assert_eq!(ProcmanConfigFile::candidate_hint_of("procman.yml"), Some(Some(ProcmanConfigFormat::Yaml)));
    assert_eq!(ProcmanConfigFile::candidate_hint_of("procman.txt"), None);
    assert_eq!(ProcmanConfigFile::candidate_hint_of("procman.conf"), None);
    assert_eq!(ProcmanConfigFile::candidate_hint_of("other.toml"), None);
    assert_eq!(ProcmanConfigFile::candidate_hint_of("procman.x.toml"), None);
}

#[test]
fn explicit_path_hints() {
    let f = ProcmanConfigFile::try_from_path("/etc/procman.yml").unwrap();
    assert_eq!(f.path, "/etc/procman.yml");
    assert_eq!(f.format, Some(ProcmanConfigFormat::Yaml));
    let f = ProcmanConfigFile::try_from_path("conf/settings.json").unwrap();
    assert_eq!(f.format, Some(ProcmanConfigFormat::Json));
    let f = ProcmanConfigFile::try_from_path("conf/settings").unwrap();
    assert_eq!(f.format, None);
    let f = ProcmanConfigFile::try_from_path("conf/settings.ini").unwrap();
    assert_eq!(f.format, None);
}

#[test]
fn explicit_path_hint_comes_from_file_name() {
    let f = ProcmanConfigFile::try_from_path("conf/procman.toml/").unwrap();
    assert_eq!(f.path, "conf/procman.toml/");
    assert_eq!(f.format, Some(ProcmanConfigFormat::Toml));
    let f = ProcmanConfigFile::try_from_path("conf.json/settings").unwrap();
    assert_eq!(f.format, None);
}

#[test]
fn explicit_path_without_basename() {
    let load = ProcmanConfig::load_from_file(Some("/"));
    assert!(load.is_finished());
    match load.finish() {
        Some(Err(ProcmanConfigError::FindFile(ProcmanConfigFileError::InvalidPath(p, r)))) => {
            assert_eq!(p, "/");
            assert_eq!(r, InvalidPathReason::NoBasename);
        }
        other => panic!("unexpected outcome {:?}", other),
    }
    let load = ProcmanConfig::load_from_file(Some("conf/.."));
    assert!(matches!(
        load.finish(),
        Some(Err(ProcmanConfigError::FindFile(ProcmanConfigFileError::InvalidPath(_, _))))
    ));
}

#[test]
fn hinted_format_failure_is_final() {
    let load = ProcmanConfig::load_from_file(Some("/cfg/procman.yaml"));
    match load.request() {
        LoadRequest::ReadFile(p) => assert_eq!(p, "/cfg/procman.yaml"),
        other => panic!("unexpected request {:?}", other),
    }
    let load = load.advance(LoadEvent::Contents(Ok(b"{\"programs\": {}}".to_vec())));
    assert_eq!(load.contents(), Some(&b"{\"programs\": {}}".to_vec()));
    assert!(matches!(load.request(), LoadRequest::Parse(ProcmanConfigFormat::Yaml)));
    let load = load.advance(LoadEvent::Parsed(Err(ProcmanConfigParseErrorKind::InvalidYaml("bad".to_string()))));
    assert!(load.is_finished());
    match load.finish() {
        Some(Err(ProcmanConfigError::ParseFile(e))) => {
            assert_eq!(e.path, "/cfg/procman.yaml");
            assert!(matches!(e.kind, ProcmanConfigParseErrorKind::InvalidYaml(_)));
        }
        other => panic!("unexpected outcome {:?}", other),
    }
}

#[test]
fn fallback_tries_formats_in_order() {
    let load = ProcmanConfig::load_from_file(Some("/cfg/procman"));
    let load = load.advance(LoadEvent::Contents(Ok(b"{}".to_vec())));
    assert!(matches!(load.request(), LoadRequest::Parse(ProcmanConfigFormat::Toml)));
    let load = load.advance(LoadEvent::Parsed(Err(ProcmanConfigParseErrorKind::InvalidToml("x".to_string()))));
    assert!(matches!(load.request(), LoadRequest::Parse(ProcmanConfigFormat::Json)));
    let load = load.advance(LoadEvent::Parsed(Ok(web_config())));
    let conf = load.finish().unwrap().unwrap();
    assert_eq!(conf.len(), 1);
}

#[test]
fn fallback_exhausted_reports_undetermined_format() {
    let mut load = ProcmanConfig::load_from_file(Some("/cfg/procman"));
    load = load.advance(LoadEvent::Contents(Ok(vec![0xff, 0xfe])));
    load = load.advance(LoadEvent::Parsed(Err(ProcmanConfigParseErrorKind::InvalidUtf8("u".to_string()))));
    load = load.advance(LoadEvent::Parsed(Err(ProcmanConfigParseErrorKind::InvalidJson("j".to_string()))));
    assert!(matches!(load.request(), LoadRequest::Parse(ProcmanConfigFormat::Yaml)));
    load = load.advance(LoadEvent::Parsed(Err(ProcmanConfigParseErrorKind::InvalidYaml("y".to_string()))));
    match load.finish() {
        Some(Err(ProcmanConfigError::ParseFile(e))) => {
            assert_eq!(e.path, "/cfg/procman");
            assert!(matches!(e.kind, ProcmanConfigParseErrorKind::CouldNotDetermineFormat));
        }
        other => panic!("unexpected outcome {:?}", other),
    }
}

#[test]
fn unreadable_file_is_reported_with_path() {
    let load = ProcmanConfig::load_from_file(Some("/cfg/procman.toml"));
    let load = load.advance(LoadEvent::Contents(Err("permission denied".to_string())));
    match load.finish() {
        Some(Err(ProcmanConfigError::ParseFile(e))) => {
            assert_eq!(e.path, "/cfg/procman.toml");
            assert!(matches!(e.kind, ProcmanConfigParseErrorKind::CouldNotReadFile(ref m) if m == "permission denied"));
        }
        other => panic!("unexpected outcome {:?}", other),
    }
}

#[test]
fn multiple_candidates_stop_the_search() {
    let load = search_to_listing("/work", "/home/u/.config/procman");
    let listing = vec![entry("/work", "procman.toml"), entry("/work", "README.md"), entry("/work", "procman.json")];
    let load = load.advance(LoadEvent::Listing(Ok(listing)));
    assert!(load.is_finished());
    match load.finish() {
        Some(Err(ProcmanConfigError::FindFile(ProcmanConfigFileError::MultipleCandidates(d, ps)))) => {
            assert_eq!(d, "/work");
            assert_eq!(ps, vec!["/work/procman.toml".to_string(), "/work/procman.json".to_string()]);
        }
        other => panic!("unexpected outcome {:?}", other),
    }
}

#[test]
fn not_found_names_every_directory() {
    let load = search_to_listing("/work", "/home/u/.config/procman");
    let load = load.advance(LoadEvent::Listing(Ok(vec![entry("/work", "Cargo.toml"), ListedEntry { name: None, path: "/work/?".to_string() }])));
    match load.request() {
        LoadRequest::ListDirectory(d) => assert_eq!(d, "/home/u/.config/procman"),
        other => panic!("unexpected request {:?}", other),
    }
    let load = load.advance(LoadEvent::Listing(Ok(vec![])));
    match load.finish() {
        Some(Err(ProcmanConfigError::FindFile(ProcmanConfigFileError::NotFoundInSearch(ds)))) => {
            assert_eq!(ds, vec!["/work".to_string(), "/home/u/.config/procman".to_string()]);
        }
        other => panic!("unexpected outcome {:?}", other),
    }
}

#[test]
fn single_candidate_in_first_directory_wins() {
    let load = search_to_listing("/work", "/cfg");
    let load = load.advance(LoadEvent::Listing(Ok(vec![entry("/work", "procman")])));
    match load.request() {
        LoadRequest::ReadFile(p) => assert_eq!(p, "/work/procman"),
        other => panic!("unexpected request {:?}", other),
    }
    let load = load.advance(LoadEvent::Contents(Ok(vec![])));
    assert!(matches!(load.request(), LoadRequest::Parse(ProcmanConfigFormat::Toml)));
}

#[test]
fn search_environment_failures() {
    let load = ProcmanConfig::load_from_file(None).advance(LoadEvent::CurrentDir(Err("gone".to_string())));
    assert!(matches!(
        load.finish(),
        Some(Err(ProcmanConfigError::FindFile(ProcmanConfigFileError::CouldNotDetermineCwd(ref m)))) if m == "gone"
    ));
    let load = ProcmanConfig::load_from_file(None)
        .advance(LoadEvent::CurrentDir(Ok("/w".to_string())))
        .advance(LoadEvent::ConfigDir(None));
    assert!(matches!(
        load.finish(),
        Some(Err(ProcmanConfigError::FindFile(ProcmanConfigFileError::CouldNotDetermineDirectory)))
    ));
    let load = search_to_listing("/w", "/c").advance(LoadEvent::Listing(Err("denied".to_string())));
    match load.finish() {
        Some(Err(ProcmanConfigError::FindFile(ProcmanConfigFileError::CouldNotReadDirectory(d, m)))) => {
            assert_eq!(d, "/w");
            assert_eq!(m, "denied");
        }
        other => panic!("unexpected outcome {:?}", other),
    }
}

#[test]
fn unexpected_event_changes_nothing() {
    let load = ProcmanConfig::load_from_file(None);
    let load = load.advance(LoadEvent::ConfigDir(Some("/c".to_string())));
    assert!(matches!(load.request(), LoadRequest::CurrentDir));
    assert!(load.contents().is_none());
}

#[test]
fn toml_file_in_directory_end_to_end() {
    let load = search_to_listing("/srv", "/cfg");
    let load = load.advance(LoadEvent::Listing(Ok(vec![entry("/srv", "procman.toml")])));
    match load.request() {
        LoadRequest::ReadFile(p) => assert_eq!(p, "/srv/procman.toml"),
        other => panic!("unexpected request {:?}", other),
    }
    let text = "[programs.web]\ncommand = [\"nginx\", \"-g\", \"daemon off;\"]\n";
    let load = load.advance(LoadEvent::Contents(Ok(text.as_bytes().to_vec())));
    assert!(matches!(load.request(), LoadRequest::Parse(ProcmanConfigFormat::Toml)));
    let load = load.advance(LoadEvent::Parsed(Ok(web_config())));
    let conf = load.finish().unwrap().unwrap();
    assert_eq!(conf.len(), 1);
    assert_eq!(conf.program_names(), vec!["web".to_string()]);
    let web = conf.get("web").unwrap();
    assert_eq!(web.command(), &vec!["nginx".to_string(), "-g".to_string(), "daemon off;".to_string()]);
    assert!(conf.get("db").is_none());
}

#[test]
fn insert_replaces_existing_program() {
    let mut c = web_config();
    c.insert(ProgramName::try_new("db").unwrap(), ProgramConfig::new(vec!["postgres".to_string()]));
    assert_eq!(c.len(), 2);
    c.insert(ProgramName::try_new("web").unwrap(), ProgramConfig::new(vec![]));
    assert_eq!(c.len(), 2);
    assert!(c.get("web").unwrap().command().is_empty());
    assert_eq!(c.get("db").unwrap().command(), &vec!["postgres".to_string()]);
}
