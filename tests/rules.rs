use edr_lite::models::Severity;
use edr_lite::models::Flag;
use edr_lite::rules::{escalates_on, RuleEngine};

const TEMP_PATH: &str = "C:\\Users\\bob\\AppData\\Local\\Temp\\x.exe";
const DOWNLOADS_PATH: &str = "C:\\Users\\bob\\Downloads\\x.exe";

fn engine_with(text: &str) -> RuleEngine {
    RuleEngine::from_allowlist_text(text)
}

#[test]
fn allowlisted_name_short_circuits_in_any_case() {
    let e = engine_with("cmd.exe\n");
    for name in ["cmd.exe", "CMD.EXE", "Cmd.Exe"] {
        for path in [None, Some(TEMP_PATH), Some(DOWNLOADS_PATH)] {
            for digest in [None, Some("abc")] {
                let r = e.detect(name, path, digest);
                assert_eq!(r.flags, vec!["allowlisted_name".to_string()]);
                assert_eq!(r.severity, Severity::Low);
            }
        }
    }
}

#[test]
fn lolbin_in_temp_is_high() {
    let e = RuleEngine::new();
    let r = e.detect("cmd.exe", Some(TEMP_PATH), None);
    assert!(r.flags.contains(&"exec_from_temp".to_string()));
    assert!(r.flags.contains(&"lolbin_process".to_string()));
    assert_eq!(
        r.flags,
        vec!["no_hash", "exec_from_temp", "exec_from_appdata", "lolbin_process"]
    );
    assert_eq!(r.severity, Severity::High);
}

#[test]
fn downloads_path_alone_is_medium() {
    let e = RuleEngine::new();
    let r = e.detect("notepad.exe", Some(DOWNLOADS_PATH), Some("deadbeef"));
    assert!(r.flags.contains(&"exec_from_downloads".to_string()));
    assert!(!r.flags.contains(&"no_hash".to_string()));
    assert_eq!(r.flags, vec!["exec_from_downloads".to_string()]);
    assert_eq!(r.severity, Severity::Medium);
}

#[test]
fn missing_path_and_digest_is_low() {
    let e = RuleEngine::new();
    let r = e.detect("explorer.exe", None, None);
    assert_eq!(r.flags, vec!["no_exe_path".to_string(), "no_hash".to_string()]);
    assert_eq!(r.severity, Severity::Low);
}

#[test]
fn no_signal_gives_no_flags() {
    let e = RuleEngine::new();
    let r = e.detect("svchost.exe", Some("C:\\Windows\\System32\\svchost.exe"), Some("abc123"));
    assert!(r.flags.is_empty());
    assert_eq!(r.severity, Severity::Low);
}

#[test]
fn lolbin_alone_is_medium() {
    let e = RuleEngine::new();
    let r = e.detect("PowerShell.exe", Some("C:\\Windows\\System32\\powershell.exe"), Some("ab"));
    assert_eq!(r.flags, vec!["lolbin_process".to_string()]);
    assert_eq!(r.severity, Severity::Medium);
}

#[test]
fn windows_temp_and_roaming_paths() {
    let e = RuleEngine::new();
    let r = e.detect("a.exe", Some("C:\\Windows\\Temp\\a.exe"), Some("ab"));
    assert_eq!(r.flags, vec!["exec_from_temp".to_string()]);
    assert_eq!(r.severity, Severity::Medium);
    let r = e.detect("a.exe", Some("C:\\Users\\x\\AppData\\Roaming\\a.exe"), Some("ab"));
    assert_eq!(r.flags, vec!["exec_from_appdata".to_string()]);
    assert_eq!(r.severity, Severity::Medium);
}

#[test]
fn temp_without_lolbin_is_medium() {
    let e = RuleEngine::new();
    let r = e.detect("setup.exe", Some(TEMP_PATH), None);
    assert_eq!(r.flags, vec!["no_hash", "exec_from_temp", "exec_from_appdata"]);
    assert_eq!(r.severity, Severity::Medium);
}

#[test]
fn quick_screen_appends_allowlist_flag() {
    let e = engine_with("PowerShell.exe\n");
    let q = e.quick_flags("powershell.exe", Some(TEMP_PATH));
    assert_eq!(
        q,
        vec!["exec_from_temp", "exec_from_appdata", "lolbin_process", "allowlisted_name"]
    );
}

#[test]
fn quick_screen_without_path() {
    let e = RuleEngine::new();
    assert_eq!(e.quick_flags("explorer.exe", None), vec!["no_exe_path".to_string()]);
    assert_eq!(e.quick_flags("explorer.exe", Some("")), vec!["no_exe_path".to_string()]);
    assert!(e.quick_flags("svchost.exe", Some("C:\\Windows\\System32\\svchost.exe")).is_empty());
}

#[test]
fn quick_screen_is_repeatable() {
    let e = engine_with("notepad.exe\n");
    for (name, path) in [
        ("cmd.exe", Some(TEMP_PATH)),
        ("notepad.exe", Some(DOWNLOADS_PATH)),
        ("explorer.exe", None),
    ] {
        assert_eq!(e.quick_flags(name, path), e.quick_flags(name, path));
        assert_eq!(e.digest_wanted(name, path), e.digest_wanted(name, path));
    }
}

#[test]
fn digest_wanted_follows_escalation_flags() {
    let e = RuleEngine::new();
    assert!(e.digest_wanted("cmd.exe", Some("C:\\Windows\\System32\\cmd.exe")));
    assert!(e.digest_wanted("notepad.exe", Some(DOWNLOADS_PATH)));
    assert!(e.digest_wanted("a.exe", Some(TEMP_PATH)));
    assert!(!e.digest_wanted("svchost.exe", Some("C:\\Windows\\System32\\svchost.exe")));
    assert!(!e.digest_wanted("cmd.exe", None));
    assert!(!e.digest_wanted("explorer.exe", None));
}

#[test]
fn allowlisted_name_still_escalates() {
    let e = engine_with("cmd.exe");
    assert!(e.digest_wanted("cmd.exe", Some(TEMP_PATH)));
    let r = e.detect("cmd.exe", Some(TEMP_PATH), Some("abc"));
    assert_eq!(r.flags, vec!["allowlisted_name".to_string()]);
}

#[test]
fn loader_skips_blank_and_comment_lines() {
    let e = engine_with("  \n# comment\nPowerShell.exe\n");
    assert!(e.is_allowlisted("powershell.exe"));
    assert!(e.is_allowlisted("POWERSHELL.EXE"));
    assert!(!e.is_allowlisted("# comment"));
    assert!(!e.is_allowlisted("comment"));
    assert!(!e.is_allowlisted(""));
}

#[test]
fn loader_trims_entries_and_handles_crlf() {
    let e = engine_with("  Foo.exe  \r\n\t#bar.exe\r\nbaz.exe");
    assert!(e.is_allowlisted("foo.exe"));
    assert!(e.is_allowlisted("baz.exe"));
    assert!(!e.is_allowlisted("bar.exe"));
    assert!(!e.is_allowlisted("#bar.exe"));
}

#[test]
fn empty_allowlist_holds_nothing() {
    let e = engine_with("");
    assert!(!e.is_allowlisted("cmd.exe"));
    let e = RuleEngine::new();
    assert!(!e.is_allowlisted("cmd.exe"));
}

#[test]
fn escalation_predicate_on_tokens() {
    let s = |v: &[&str]| v.iter().map(|x| x.to_string()).collect::<Vec<String>>();
    assert!(!escalates_on(&s(&[])));
    assert!(!escalates_on(&s(&["no_exe_path", "no_hash", "allowlisted_name"])));
    assert!(escalates_on(&s(&["exec_from_temp"])));
    assert!(escalates_on(&s(&["no_hash", "exec_from_downloads"])));
    assert!(escalates_on(&s(&["exec_from_appdata"])));
    assert!(escalates_on(&s(&["allowlisted_name", "lolbin_process"])));
    assert!(!escalates_on(&s(&["exec_from_", "lolbin"])));
}

#[test]
fn quick_screen_tokens_decide_escalation() {
    let e = RuleEngine::new();
    for (name, path) in [
        ("cmd.exe", Some("C:\\Windows\\System32\\cmd.exe")),
        ("a.exe", Some(DOWNLOADS_PATH)),
        ("svchost.exe", Some("C:\\Windows\\System32\\svchost.exe")),
    ] {
        assert_eq!(e.digest_wanted(name, path), escalates_on(&e.quick_flags(name, path)));
    }
}

#[test]
fn flag_tokens() {
    assert_eq!(Flag::NoExePath.as_str(), "no_exe_path");
    assert_eq!(Flag::NoHash.as_str(), "no_hash");
    assert_eq!(Flag::ExecFromTemp.as_str(), "exec_from_temp");
    assert_eq!(Flag::ExecFromDownloads.as_str(), "exec_from_downloads");
    assert_eq!(Flag::ExecFromAppdata.as_str(), "exec_from_appdata");
    assert_eq!(Flag::LolbinProcess.as_str(), "lolbin_process");
    assert_eq!(Flag::AllowlistedName.as_str(), "allowlisted_name");
}
