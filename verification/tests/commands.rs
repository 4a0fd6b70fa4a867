use skipuac::adding::{
    check_selection, extension_is, location_candidate, new_entry, program_name,
    removal_needs_elevation, select_from_link, select_plain, shortcut_needed, unquoted,
    LocationCandidate,
};
use skipuac::autostart::{
    autostart_refusal, delete_outcome, open_key_outcome, query_outcome, quoted_command,
    set_outcome, wide_to_le_bytes,
};
use skipuac::cli::{parse_cli, CliAction};
use skipuac::model::{ProgramEntry, ResolvedShortcut};
use skipuac::shortcut::{
    elevated_display_name, fallback_candidate, run_task_arguments, shortcut_base_name,
    shortcut_candidate, shortcut_description,
};
use skipuac::tasks::{task_arguments, win_error_text};

fn args(xs: &[&str]) -> Vec<String> {
    xs.iter().map(|s| s.to_string()).collect()
}

fn describe(a: CliAction) -> String {
    match a {
        CliAction::RunTask(t) => format!("run:{t}"),
        CliAction::InstallPending(p) => format!("install:{p}"),
        CliAction::CleanupPending(p) => format!("cleanup:{p}"),
        CliAction::Stop => "stop".to_string(),
        CliAction::OpenWindow => "window".to_string(),
    }
}

fn sample(installed: bool, shortcut: Option<&str>) -> ProgramEntry {
    ProgramEntry {
        id: "id1".to_string(),
        name: "Tool".to_string(),
        source_path: "C:\\Tool.lnk".to_string(),
        target_path: "\"C:\\Tools\\tool.exe\"".to_string(),
        arguments: None,
        icon_path: "C:\\icons\\t.png".to_string(),
        icon_data_url: None,
        desktop_shortcut_path: shortcut.map(|s| s.to_string()),
        installed,
        task_name: "elevated_Tool_0000000000".to_string(),
        created_at_unix_ms: 0,
    }
}

#[test]
fn command_line_flags() {
    assert_eq!(describe(parse_cli(&args(&["--run-task", "elevated_x"]))), "run:elevated_x");
    assert_eq!(describe(parse_cli(&args(&["--run-task=  elevated_y "]))), "run:elevated_y");
    assert_eq!(describe(parse_cli(&args(&["--run-task"]))), "stop");
    assert_eq!(describe(parse_cli(&args(&["--run-task=   "]))), "stop");
    assert_eq!(describe(parse_cli(&args(&["junk", "--install-pending", "p.json"]))), "install:p.json");
    assert_eq!(describe(parse_cli(&args(&["--cleanup-pending=c.json", "--run-task", "t"]))), "cleanup:c.json");
    assert_eq!(describe(parse_cli(&args(&[]))), "window");
    assert_eq!(describe(parse_cli(&args(&["--other", "x"]))), "window");
    assert_eq!(describe(parse_cli(&args(&["--run-task", "--install-pending"]))), "run:--install-pending");
}

#[test]
fn shortcut_names_and_texts() {
    assert_eq!(shortcut_base_name("a:b?c (elevated) "), "a_b_c (elevated)");
    assert_eq!(shortcut_base_name("  "), "Elevated");
    assert_eq!(shortcut_base_name("x/y\\z*\"<>|"), "x_y_z_____");
    assert_eq!(elevated_display_name("Tool"), "Tool (elevated)");
    assert_eq!(
        shortcut_description("Tool"),
        "Run Tool with highest privileges via Task Scheduler"
    );
    assert_eq!(run_task_arguments("elevated_T_1"), "--run-task \"elevated_T_1\"");
}

#[test]
fn shortcut_candidates_are_distinct() {
    assert_eq!(shortcut_candidate("Tool", 1), "Tool.lnk");
    assert_eq!(shortcut_candidate("Tool", 2), "Tool (2).lnk");
    assert_eq!(shortcut_candidate("Tool", 999), "Tool (999).lnk");
    assert_eq!(fallback_candidate("Tool", 1700000000123), "Tool-1700000000123.lnk");
    let names: Vec<String> = (1..1000).map(|i| shortcut_candidate("T", i)).collect();
    let mut sorted = names.clone();
    sorted.sort();
    sorted.dedup();
    assert_eq!(sorted.len(), names.len());
}

#[test]
fn registry_outcomes() {
    assert_eq!(query_outcome(2, 0, 0), Ok(false));
    assert_eq!(query_outcome(0, 1, 4), Ok(true));
    assert_eq!(query_outcome(0, 1, 1), Ok(false));
    assert_eq!(query_outcome(0, 3, 40), Ok(false));
    assert_eq!(query_outcome(5, 1, 40), Err("RegQueryValueExW failed: 0x00000005".to_string()));
    assert_eq!(open_key_outcome(0), Ok(()));
    assert_eq!(open_key_outcome(0xabc), Err("RegOpenKeyExW failed: 0x00000abc".to_string()));
    assert_eq!(set_outcome(5), Err("RegSetValueExW failed: 0x00000005".to_string()));
    assert_eq!(delete_outcome(2), Ok(()));
    assert_eq!(delete_outcome(5), Err("RegDeleteValueW failed: 0x00000005".to_string()));
}

#[test]
fn autostart_command_and_refusal() {
    assert_eq!(quoted_command("C:\\Program Files\\SkipUAC.exe"), "\"C:\\Program Files\\SkipUAC.exe\"");
    assert!(autostart_refusal(true, true).unwrap().starts_with("Autostart is disabled for dev/debug builds."));
    assert_eq!(autostart_refusal(false, true), None);
    assert_eq!(autostart_refusal(true, false), None);
    assert_eq!(wide_to_le_bytes(&vec![0x0041, 0x1234, 0]), vec![0x41u8, 0, 0x34, 0x12, 0, 0]);
}

#[test]
fn task_texts() {
    assert_eq!(
        win_error_text("GetTask failed", 0x80070002u32 as i32, "The system cannot find the file specified."),
        "GetTask failed (0x80070002): The system cannot find the file specified."
    );
    assert_eq!(task_arguments(Some("  --flag  ")), Some("--flag".to_string()));
    assert_eq!(task_arguments(Some("   ")), None);
    assert_eq!(task_arguments(None), None);
}

#[test]
fn dropped_file_selection() {
    assert!(extension_is(Some("LNK"), "lnk"));
    assert!(!extension_is(None, "lnk"));
    assert!(!extension_is(Some("exe"), "lnk"));
    let plain = select_plain("C:\\a.exe");
    assert_eq!(plain.target_path, "C:\\a.exe");
    assert_eq!(plain.icon_source, "C:\\a.exe");
    assert_eq!(plain.arguments, None);

    let link = ResolvedShortcut {
        target_path: "C:\\b.exe".to_string(),
        arguments: Some("-x".to_string()),
        icon_path: None,
    };
    let sel = select_from_link(link).ok().unwrap();
    assert_eq!(sel.icon_source, "C:\\b.exe");
    assert_eq!(sel.arguments.as_deref(), Some("-x"));

    let ours = ResolvedShortcut {
        target_path: "C:\\SkipUAC.exe".to_string(),
        arguments: Some("--RUN-TASK \"Elevated_X\"".to_string()),
        icon_path: None,
    };
    assert_eq!(
        select_from_link(ours).err().unwrap(),
        "You dropped an (elevated).lnk. Please drop the original shortcut (.lnk) that points to the target app."
    );
}

#[test]
fn selection_checks() {
    let sel = select_plain("C:\\a.exe");
    let ok = check_selection(sel, false, true, Some("EXE")).ok().unwrap();
    assert_eq!(ok.icon_source, "C:\\a.exe");
    let e = check_selection(select_plain("C:\\a.exe"), true, false, Some("exe")).err().unwrap();
    assert_eq!(e, "target path does not exist");
    let e2 = check_selection(select_plain("C:\\a.bat"), true, true, Some("bat")).err().unwrap();
    assert_eq!(e2, "only .exe targets are supported");
    assert_eq!(program_name(Some("Tool")), "Tool");
    assert_eq!(program_name(None), "App");
}

#[test]
fn new_entries_get_fresh_ids() {
    let a = new_entry("n".into(), "s".into(), "t".into(), None, "i".into(), None, false, "task".into(), 5);
    let b = new_entry("n".into(), "s".into(), "t".into(), None, "i".into(), None, false, "task".into(), 5);
    assert_eq!(a.id.len(), 36);
    assert_ne!(a.id, b.id);
    for id in [&a.id, &b.id] {
        let cs: Vec<char> = id.chars().collect();
        for (i, c) in cs.iter().enumerate() {
            if i == 8 || i == 13 || i == 18 || i == 23 {
                assert_eq!(*c, '-');
            } else {
                assert!(c.is_ascii_digit() || ('a'..='f').contains(c));
            }
        }
        assert_eq!(cs[14], '4');
        assert!(['8', '9', 'a', 'b'].contains(&cs[19]));
    }
    assert_eq!(a.desktop_shortcut_path, None);
    assert_eq!(a.created_at_unix_ms, 5);
}

#[test]
fn existing_program_shortcut_and_location() {
    assert!(shortcut_needed(&sample(true, None), false));
    assert!(shortcut_needed(&sample(true, Some("C:\\D\\t.lnk")), false));
    assert!(!shortcut_needed(&sample(true, Some("C:\\D\\t.lnk")), true));
    assert_eq!(unquoted("\"C:\\x\""), "C:\\x");
    match location_candidate(&sample(true, Some("\"C:\\D\\t.lnk\"")), true).ok().unwrap() {
        LocationCandidate::Target(t) => assert_eq!(t, "C:\\Tools\\tool.exe"),
        LocationCandidate::Shortcut(_) => panic!("expected the target"),
    }
    let c = location_candidate(&sample(true, Some("\"C:\\D\\t.lnk\"")), false).ok().unwrap();
    assert_eq!(c.no_parent_message(), "shortcut has no parent directory");
    match c {
        LocationCandidate::Shortcut(p) => assert_eq!(p, "C:\\D\\t.lnk"),
        LocationCandidate::Target(_) => panic!("expected the shortcut"),
    }
    assert_eq!(location_candidate(&sample(true, None), false).err().unwrap(), "path does not exist");
}

#[test]
fn removal_kind() {
    let ps = vec![sample(false, None)];
    assert_eq!(removal_needs_elevation(&ps, "id1"), Ok(false));
    assert_eq!(removal_needs_elevation(&ps, "nope"), Err("program not found".to_string()));
    let qs = vec![sample(true, None)];
    assert_eq!(removal_needs_elevation(&qs, "id1"), Ok(true));
}
