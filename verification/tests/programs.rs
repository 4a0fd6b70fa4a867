use skipuac::catalog::{
    count_installed_among, find_by_id, find_by_task_name, program_to_run, refresh_installed,
    remove_all_with_id, reorder,
};
use skipuac::elevate::{
    cleanup_pending_args, install_pending_args, mark_installed, next_install, take_for_cleanup,
    to_wide_null, CLEANER_TASK_NAME, INSTALLER_TASK_NAME,
};
use skipuac::model::{ProgramEntry, ResolvedShortcut};
use skipuac::storage::{paths_from_programs_json, paths_in_data_dir, programs_for_saving};

fn entry(id: &str, installed: bool) -> ProgramEntry {
    ProgramEntry {
        id: id.to_string(),
        name: format!("name-{id}"),
        source_path: format!("C:\\src\\{id}.lnk"),
        target_path: format!("C:\\bin\\{id}.exe"),
        arguments: None,
        icon_path: format!("C:\\icons\\{id}.png"),
        icon_data_url: Some("data:x".to_string()),
        desktop_shortcut_path: None,
        installed,
        task_name: format!("elevated_{id}_0123456789"),
        created_at_unix_ms: 7,
    }
}

fn ids(xs: &[&str]) -> Vec<String> {
    xs.iter().map(|s| s.to_string()).collect()
}

fn id_list(ps: &[ProgramEntry]) -> Vec<String> {
    ps.iter().map(|p| p.id.clone()).collect()
}

#[test]
fn lookups_find_first_match() {
    let ps = vec![entry("a", false), entry("b", true), entry("b", false)];
    assert_eq!(find_by_id(&ps, "b"), Some(1));
    assert_eq!(find_by_id(&ps, "z"), None);
    assert_eq!(find_by_task_name(&ps, "elevated_a_0123456789"), Some(0));
    assert_eq!(find_by_task_name(&ps, "elevated_q"), None);
}

#[test]
fn running_needs_an_installed_program() {
    let ps = vec![entry("a", false), entry("b", true)];
    assert_eq!(program_to_run(&ps, "b"), Ok("elevated_b_0123456789".to_string()));
    assert_eq!(program_to_run(&ps, "a"), Err("not installed yet".to_string()));
    assert_eq!(program_to_run(&ps, "c"), Err("program not found".to_string()));
}

#[test]
fn refresh_marks_entries_whose_shortcut_exists() {
    let mut a = entry("a", false);
    a.desktop_shortcut_path = Some("C:\\Desktop\\a (elevated).lnk".to_string());
    let b = entry("b", false);
    let mut c = entry("c", false);
    c.desktop_shortcut_path = Some("C:\\Desktop\\c.lnk".to_string());
    let mut ps = vec![a, b, c];
    let changed = refresh_installed(&mut ps, &vec![true, true, false]);
    assert!(changed);
    assert!(ps[0].installed);
    assert!(!ps[1].installed);
    assert!(!ps[2].installed);
    let changed_again = refresh_installed(&mut ps, &vec![true, true, false]);
    assert!(!changed_again);
    assert!(!refresh_installed(&mut ps, &vec![]));
}

#[test]
fn install_count_counts_installed_selected() {
    let ps = vec![entry("a", true), entry("b", false), entry("c", true)];
    assert_eq!(count_installed_among(&ps, &ids(&["a", "b"])), 1);
    assert_eq!(count_installed_among(&ps, &ids(&["a", "c", "x"])), 2);
    assert_eq!(count_installed_among(&ps, &ids(&[])), 0);
}

#[test]
fn draft_removal_drops_every_entry_with_the_id() {
    let mut ps = vec![entry("a", false), entry("b", false), entry("a", true)];
    remove_all_with_id(&mut ps, "a");
    assert_eq!(id_list(&ps), ids(&["b"]));
}

#[test]
fn reorder_follows_ids_then_keeps_the_rest() {
    let ps = vec![entry("a", false), entry("b", false), entry("c", false), entry("d", false)];
    let out = reorder(&ps, &ids(&["c", "x", "a", "c"]));
    assert_eq!(id_list(&out), ids(&["c", "a", "b", "d"]));
}

#[test]
fn reorder_keeps_every_entry_sharing_an_id() {
    let mut first = entry("a", false);
    first.name = "first".to_string();
    let mut last = entry("a", true);
    last.name = "last".to_string();
    let ps = vec![first, entry("b", false), last];
    let out = reorder(&ps, &ids(&["b", "a"]));
    assert_eq!(out.len(), 3);
    assert_eq!(out[0].id, "b");
    assert_eq!(out[1].name, "first");
    assert_eq!(out[2].name, "last");
    let out2 = reorder(&ps, &ids(&["a", "a", "b"]));
    let names: Vec<&str> = out2.iter().map(|p| p.name.as_str()).collect();
    assert_eq!(names, vec!["first", "last", "name-b"]);
}

#[test]
fn reorder_permutation_law_on_example() {
    let ps = vec![entry("a", false), entry("b", true), entry("c", false)];
    let out = reorder(&ps, &ids(&["b", "zz"]));
    let mut before = id_list(&ps);
    let mut after = id_list(&out);
    before.sort();
    after.sort();
    assert_eq!(before, after);
}

#[test]
fn install_steps_skip_installed_and_unknown_ids() {
    let mut ps = vec![entry("a", true), entry("b", false), entry("c", false)];
    let want = ids(&["a", "x", "b", "c", "b"]);
    let mut done = Vec::new();
    let mut from = 0usize;
    while let Some((k, j)) = next_install(&ps, &want, from) {
        let link = format!("C:\\Desktop\\{}.lnk", ps[j].id);
        mark_installed(&mut ps, j, link);
        done.push(ps[j].id.clone());
        from = k + 1;
    }
    assert_eq!(done, ids(&["b", "c"]));
    assert!(ps.iter().all(|p| p.installed));
    assert_eq!(ps[1].desktop_shortcut_path.as_deref(), Some("C:\\Desktop\\b.lnk"));
    assert_eq!(next_install(&ps, &want, 0), None);
}

#[test]
fn cleanup_takes_listed_entries_out_in_order() {
    let mut ps = vec![entry("a", true), entry("b", true), entry("c", false)];
    let removed = take_for_cleanup(&mut ps, &ids(&["c", "q", "a", "c"]));
    assert_eq!(id_list(&removed), ids(&["c", "a"]));
    assert_eq!(id_list(&ps), ids(&["b"]));
}

#[test]
fn cleanup_partition_law_on_example() {
    let before_call = vec![entry("a", true), entry("b", true), entry("a", false)];
    let mut ps = before_call.iter().map(|p| p.duplicate()).collect::<Vec<_>>();
    let removed = take_for_cleanup(&mut ps, &ids(&["a", "b"]));
    let mut all = id_list(&ps);
    all.extend(id_list(&removed));
    all.sort();
    let mut before = id_list(&before_call);
    before.sort();
    assert_eq!(all, before);
    assert!(removed.len() <= 2);
}

#[test]
fn pending_file_arguments_quote_the_path() {
    assert_eq!(
        install_pending_args("C:\\Data\\pending_install.json"),
        "--install-pending \"C:\\Data\\pending_install.json\""
    );
    assert_eq!(cleanup_pending_args("p q.json"), "--cleanup-pending \"p q.json\"");
    assert_eq!(INSTALLER_TASK_NAME, "elevated_SkipUAC_Installer");
    assert_eq!(CLEANER_TASK_NAME, "elevated_SkipUAC_Cleaner");
    assert_eq!(to_wide_null("runas"), vec![114u16, 117, 110, 97, 115, 0]);
}

#[test]
fn saving_drops_icon_data_urls_only() {
    let ps = vec![entry("a", true), entry("b", false)];
    let cleaned = programs_for_saving(&ps);
    assert_eq!(cleaned.len(), 2);
    assert!(cleaned.iter().all(|p| p.icon_data_url.is_none()));
    assert_eq!(cleaned[1].name, "name-b");
    assert_eq!(cleaned[0].installed, true);
}

#[test]
fn data_directory_layout() {
    let p = paths_from_programs_json("/data/app/programs.json".to_string());
    assert_eq!(p.data_dir, "/data/app");
    assert_eq!(p.icons_dir, "/data/app/icons");
    assert_eq!(p.programs_json, "/data/app/programs.json");
    let q = paths_from_programs_json(String::new());
    assert_eq!(q.data_dir, ".");
    assert_eq!(q.icons_dir, "./icons");
    let r = paths_in_data_dir("/data/app".to_string());
    assert_eq!(r.programs_json, "/data/app/programs.json");
    assert_eq!(r.icons_dir, "/data/app/icons");
}

#[test]
fn list_file_without_directory() {
    let p = paths_from_programs_json("programs.json".to_string());
    assert_eq!(p.data_dir, "");
    assert_eq!(p.icons_dir, "icons");
    assert_eq!(p.programs_json, "programs.json");
}

#[test]
fn paths_round_trip_through_the_list_file() {
    let r = paths_in_data_dir("/data/app".to_string());
    let q = paths_from_programs_json(r.programs_json.clone());
    assert_eq!(q.data_dir, r.data_dir);
    assert_eq!(q.programs_json, r.programs_json);
    assert_eq!(q.icons_dir, r.icons_dir);
}

#[test]
fn blank_link_texts_count_as_absent() {
    let r = ResolvedShortcut::from_link_texts("C:\\a.exe".into(), "  ".into(), "C:\\a.ico".into());
    assert_eq!(r.target_path, "C:\\a.exe");
    assert_eq!(r.arguments, None);
    assert_eq!(r.icon_path.as_deref(), Some("C:\\a.ico"));
    let s = ResolvedShortcut::from_link_texts("t".into(), " -x ".into(), "".into());
    assert_eq!(s.arguments.as_deref(), Some(" -x "));
    assert_eq!(s.icon_path, None);
}
