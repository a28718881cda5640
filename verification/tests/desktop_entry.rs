//! Resolving and relaunching apps by their desktop entries.
use driftwm::desktop_entry::{
    default_application_dirs, field_code, offer_entry, parse_exec_line, tokenize, CachedEntry,
    DesktopEntryCache, EntryFields, ScannedDir, ScannedFile,
};

/// An application directory held in memory.
struct Dir {
    path: String,
    mtime: Option<i128>,
    files: Vec<(String, String)>,
}

impl Dir {
    fn new(name: &str) -> Self {
        Dir { path: format!("/{name}"), mtime: Some(42), files: vec![] }
    }
}

fn write_entry(dir: &mut Dir, filename: &str, contents: &str) {
    dir.files.push((filename.to_string(), contents.to_string()));
}

fn desktop(fields: &str) -> String {
    format!("[Desktop Entry]\nType=Application\n{fields}\n")
}

fn scan(dirs: &[&Dir]) -> Vec<ScannedDir> {
    dirs.iter()
        .map(|d| ScannedDir {
            mtime: d.mtime,
            files: d
                .files
                .iter()
                .map(|(n, c)| ScannedFile { file_name: n.clone(), contents: Some(c.clone()) })
                .collect(),
        })
        .collect()
}

fn mtimes(dirs: &[&Dir]) -> Vec<Option<i128>> {
    dirs.iter().map(|d| d.mtime).collect()
}

fn build(dirs: &[&Dir]) -> DesktopEntryCache {
    DesktopEntryCache::new(dirs.iter().map(|d| d.path.clone()).collect(), scan(dirs))
}

/// foot ships three sibling entries (`foot`, `footclient`, `foot-server`),
/// all `Terminal=false` (foot *is* a terminal; it is not launched inside
/// one) and none carrying `StartupWMClass`. foot's window app-id defaults to
/// `foot` (normal) / `footclient` (server mode), which match the stems
/// directly. All three must resolve to launchable entries: a real-world
/// shape check so a scan/dedup regression that drops foot is caught here.
#[test]
fn foot_family_resolves_from_real_world_shapes() {
    let mut home = Dir::new("home");
    let mut system = Dir::new("system");
    // System entries (as shipped by the foot package).
    write_entry(&mut system,
        "foot.desktop",
        &desktop("Name=Foot\nExec=foot\nTerminal=false\nCategories=System;TerminalEmulator;"),
    );
    write_entry(&mut system,
        "footclient.desktop",
        &desktop(
            "Name=Foot Client\nExec=footclient\nTerminal=false\nCategories=System;TerminalEmulator;",
        ),
    );
    write_entry(&mut system,
        "foot-server.desktop",
        &desktop(
            "Name=Foot Server\nExec=foot --server\nTerminal=false\nCategories=System;TerminalEmulator;",
        ),
    );
    // A user copy of foot/footclient shadows the system ones (data-home wins).
    write_entry(&mut home,
        "foot.desktop",
        &desktop("Name=Foot\nExec=foot\nTerminal=false"),
    );
    write_entry(&mut home,
        "footclient.desktop",
        &desktop("Name=Foot Client\nExec=footclient\nTerminal=false"),
    );

    let cache = build(&[&home, &system]);

    let foot = cache.resolve("foot").expect("foot resolves");
    assert_eq!(foot.desktop_id, "foot");
    assert_eq!(cache.launch_command("foot").unwrap(), vec!["foot"]);

    let client = cache.resolve("footclient").expect("footclient resolves");
    assert_eq!(client.desktop_id, "footclient");
    assert_eq!(
        cache.launch_command("footclient").unwrap(),
        vec!["footclient"]
    );

    // foot-server lives only in the system dir; its Exec keeps the argument.
    assert_eq!(
        cache.launch_command("foot-server").unwrap(),
        vec!["foot", "--server"]
    );
}

#[test]
fn resolves_by_exact_filename_stem() {
    let mut dir = Dir::new("applications");
    write_entry(&mut dir,
        "firefox.desktop",
        &desktop("Name=Firefox\nExec=firefox %u"),
    );

    let cache = build(&[&dir]);
    let identity = cache.resolve("firefox").unwrap();
    assert_eq!(identity.app_id, "firefox");
    assert_eq!(identity.desktop_id, "firefox");
    assert_eq!(identity.display_name, "Firefox");
}

#[test]
fn resolves_by_startup_wm_class() {
    let mut dir = Dir::new("applications");
    write_entry(&mut dir,
        "org.gimp.GIMP.desktop",
        &desktop("Name=GIMP\nStartupWMClass=gimp\nExec=gimp"),
    );

    let cache = build(&[&dir]);
    let identity = cache.resolve("gimp").unwrap();
    assert_eq!(identity.desktop_id, "org.gimp.GIMP");
    assert_eq!(identity.display_name, "GIMP");
}

#[test]
fn resolves_by_case_insensitive_stem() {
    let mut dir = Dir::new("applications");
    write_entry(&mut dir, "Gimp-2.10.desktop", &desktop("Name=GIMP\nExec=gimp"));

    let cache = build(&[&dir]);
    assert_eq!(cache.resolve("gimp-2.10").unwrap().desktop_id, "Gimp-2.10");
}

#[test]
fn does_not_match_by_substring() {
    let mut dir = Dir::new("applications");
    write_entry(&mut dir,
        "firefox.desktop",
        &desktop("Name=Firefox\nExec=firefox"),
    );

    let cache = build(&[&dir]);
    assert!(cache.resolve("fire").is_none());
    assert!(cache.resolve("firefox-esr").is_none());
}

#[test]
fn unresolvable_app_id_returns_none() {
    let mut dir = Dir::new("applications");
    write_entry(&mut dir,
        "firefox.desktop",
        &desktop("Name=Firefox\nExec=firefox"),
    );

    let cache = build(&[&dir]);
    assert!(cache.resolve("nonexistent").is_none());
}

#[test]
fn data_home_wins_over_data_dirs() {
    let mut home = Dir::new("home");
    let mut system = Dir::new("system");
    write_entry(&mut home,
        "editor.desktop",
        &desktop("Name=Home Editor\nExec=home-editor"),
    );
    write_entry(&mut system,
        "editor.desktop",
        &desktop("Name=System Editor\nExec=system-editor"),
    );

    let cache = build(&[&home, &system]);
    assert_eq!(cache.resolve("editor").unwrap().display_name, "Home Editor");
    assert_eq!(cache.launch_command("editor").unwrap(), vec!["home-editor"]);
}

#[test]
fn earlier_data_dir_wins_over_later() {
    let mut first = Dir::new("first");
    let mut second = Dir::new("second");
    write_entry(&mut first, "editor.desktop", &desktop("Name=First\nExec=first"));
    write_entry(&mut second,
        "editor.desktop",
        &desktop("Name=Second\nExec=second"),
    );

    let cache = build(&[&first, &second]);
    assert_eq!(cache.resolve("editor").unwrap().display_name, "First");
}

#[test]
fn terminal_entries_are_not_resolvable() {
    let mut dir = Dir::new("applications");
    write_entry(&mut dir,
        "htop.desktop",
        &desktop("Name=htop\nExec=htop\nTerminal=true"),
    );

    let cache = build(&[&dir]);
    assert!(cache.resolve("htop").is_none());
    assert!(cache.launch_command("htop").is_none());
}

#[test]
fn hidden_entries_are_not_resolvable() {
    let mut dir = Dir::new("applications");
    write_entry(&mut dir,
        "ghost.desktop",
        &desktop("Name=Ghost\nExec=ghost\nHidden=true"),
    );

    let cache = build(&[&dir]);
    assert!(cache.resolve("ghost").is_none());
}

#[test]
fn hidden_high_precedence_shadows_lower_copy() {
    let mut home = Dir::new("home");
    let mut system = Dir::new("system");
    write_entry(&mut home,
        "app.desktop",
        &desktop("Name=Hidden\nExec=app\nHidden=true"),
    );
    write_entry(&mut system, "app.desktop", &desktop("Name=Visible\nExec=app"));

    let cache = build(&[&home, &system]);
    // The higher-precedence Hidden entry removes the id entirely.
    assert!(cache.resolve("app").is_none());
}

#[test]
fn no_display_entries_are_resolvable() {
    let mut dir = Dir::new("applications");
    write_entry(&mut dir,
        "helper.desktop",
        &desktop("Name=Helper\nExec=helper\nNoDisplay=true"),
    );

    let cache = build(&[&dir]);
    // NoDisplay hides from menus but stays launchable.
    assert_eq!(cache.resolve("helper").unwrap().display_name, "Helper");
}

#[test]
fn entry_without_exec_is_not_resolvable() {
    let mut dir = Dir::new("applications");
    write_entry(&mut dir, "link.desktop", &desktop("Name=Link"));

    let cache = build(&[&dir]);
    assert!(cache.resolve("link").is_none());
}

#[test]
fn display_name_falls_back_to_desktop_id() {
    let mut dir = Dir::new("applications");
    write_entry(&mut dir, "nameless.desktop", &desktop("Exec=nameless"));

    let cache = build(&[&dir]);
    assert_eq!(cache.resolve("nameless").unwrap().display_name, "nameless");
}

#[test]
fn launch_command_returns_stripped_argv() {
    let mut dir = Dir::new("applications");
    write_entry(&mut dir,
        "viewer.desktop",
        &desktop("Name=Viewer\nExec=viewer --new %F"),
    );

    let cache = build(&[&dir]);
    assert_eq!(
        cache.launch_command("viewer").unwrap(),
        vec!["viewer", "--new"]
    );
}

#[test]
fn exec_strips_application_field_codes() {
    assert_eq!(parse_exec_line("firefox %u"), vec!["firefox"]);
    assert_eq!(parse_exec_line("app %f %F %u %U %i %c %k"), vec!["app"]);
    assert_eq!(
        parse_exec_line("app --flag %F --other"),
        vec!["app", "--flag", "--other"]
    );
}

#[test]
fn exec_converts_double_percent_to_literal() {
    assert_eq!(parse_exec_line("prog 100%%done"), vec!["prog", "100%done"]);
    assert_eq!(parse_exec_line("prog %%"), vec!["prog", "%"]);
    assert_eq!(parse_exec_line("prog %%f"), vec!["prog", "%f"]);
}

#[test]
fn exec_substitutes_embedded_field_codes_as_empty() {
    assert_eq!(parse_exec_line("app --open=%u"), vec!["app", "--open="]);
    assert_eq!(parse_exec_line("app pre%Fpost"), vec!["app", "prepost"]);
    assert_eq!(parse_exec_line("prog 100%%f%u"), vec!["prog", "100%f"]);
    assert_eq!(parse_exec_line("prog 50%off"), vec!["prog", "50%off"]);
}

#[test]
fn exec_honors_double_quoted_arguments() {
    assert_eq!(
        parse_exec_line(r#"prog "hello world" tail"#),
        vec!["prog", "hello world", "tail"]
    );
    assert_eq!(
        parse_exec_line(r#"prog "a \"quoted\" b""#),
        vec!["prog", r#"a "quoted" b"#]
    );
}

#[test]
fn exec_empty_yields_no_args() {
    assert!(parse_exec_line("").is_empty());
    assert!(parse_exec_line("   ").is_empty());
}

#[test]
fn cache_is_fresh_after_build() {
    let mut dir = Dir::new("applications");
    write_entry(&mut dir, "a.desktop", &desktop("Name=A\nExec=a"));

    let cache = build(&[&dir]);
    assert!(!cache.is_stale(&mtimes(&[&dir])));
}

#[test]
fn cache_refreshes_when_directory_changes() {
    let mut dir = Dir::new("applications");
    write_entry(&mut dir, "a.desktop", &desktop("Name=A\nExec=a"));

    let mut cache = build(&[&dir]);
    assert!(cache.resolve("a").is_some());
    assert!(cache.resolve("b").is_none());
    assert!(!cache.is_stale(&mtimes(&[&dir])));

    write_entry(&mut dir, "b.desktop", &desktop("Name=B\nExec=b"));
    dir.mtime = Some(1_000_000_000);
    assert!(cache.is_stale(&mtimes(&[&dir])));

    assert!(cache.refresh(scan(&[&dir])));
    assert!(cache.resolve("b").is_some());
    assert!(!cache.is_stale(&mtimes(&[&dir])));
    assert!(!cache.refresh(scan(&[&dir])));
}

#[test]
fn cache_goes_stale_when_missing_directory_appears() {
    let mut dir = Dir { path: "/applications".to_string(), mtime: None, files: vec![] };

    let mut cache = build(&[&dir]);
    assert!(!cache.is_stale(&mtimes(&[&dir])));

    dir.mtime = Some(7);
    write_entry(&mut dir, "a.desktop", &desktop("Name=A\nExec=a"));
    assert!(cache.is_stale(&mtimes(&[&dir])));

    assert!(cache.refresh(scan(&[&dir])));
    assert!(cache.resolve("a").is_some());
}

#[test]
fn unmatched_exec_quote_makes_entry_unlaunchable() {
    let mut dir = Dir::new("applications");
    write_entry(&mut dir,
        "broken.desktop",
        &desktop("Name=Broken\nExec=broken \"unterminated"),
    );

    let cache = build(&[&dir]);
    assert!(cache.resolve("broken").is_none());
    assert!(cache.launch_command("broken").is_none());
}

#[test]
fn only_desktop_files_count() {
    let mut dir = Dir::new("applications");
    write_entry(&mut dir, "notes.txt", &desktop("Name=Notes\nExec=notes"));
    write_entry(&mut dir, ".desktop", &desktop("Name=Bare\nExec=bare"));
    write_entry(&mut dir, "a.b.desktop", &desktop("Name=AB\nExec=ab"));
    let cache = build(&[&dir]);
    assert_eq!(cache.entries.len(), 1);
    assert_eq!(cache.resolve("a.b").unwrap().display_name, "AB");
}

#[test]
fn ties_on_window_class_go_by_file_name() {
    let mut dir = Dir::new("applications");
    write_entry(&mut dir, "z.desktop", &desktop("Name=Z\nStartupWMClass=k\nExec=z"));
    write_entry(&mut dir, "b.desktop", &desktop("Name=B\nStartupWMClass=k\nExec=b"));
    write_entry(&mut dir, "m.desktop", &desktop("Name=M\nStartupWMClass=k\nExec=m"));
    let cache = build(&[&dir]);
    assert_eq!(cache.resolve("k").unwrap().desktop_id, "b");
    let order: Vec<&str> = cache.entries.iter().map(|e| e.stem.as_str()).collect();
    assert_eq!(order, vec!["b", "m", "z"]);
}

#[test]
fn malformed_and_unreadable_files_claim_their_id() {
    let mut home = Dir::new("home");
    write_entry(&mut home, "app.desktop", "no group here\n");
    let mut system = Dir::new("system");
    write_entry(&mut system, "app.desktop", &desktop("Name=App\nExec=app"));
    write_entry(&mut system, "other.desktop", &desktop("Name=Other\nExec=other"));
    let mut found = scan(&[&home, &system]);
    found[0].files.push(ScannedFile { file_name: "other.desktop".to_string(), contents: None });
    let cache = DesktopEntryCache::new(vec!["/home".to_string(), "/system".to_string()], found);
    assert!(cache.resolve("other").is_none());
}

#[test]
fn exact_class_beats_another_case_of_the_id() {
    let mut dir = Dir::new("applications");
    write_entry(&mut dir, "GIMP.desktop", &desktop("Name=Loud\nExec=loud"));
    write_entry(&mut dir, "org.gimp.desktop", &desktop("Name=Quiet\nStartupWMClass=gimp\nExec=quiet"));
    let cache = build(&[&dir]);
    assert_eq!(cache.resolve("gimp").unwrap().display_name, "Quiet");
    assert_eq!(cache.resolve("GIMP").unwrap().display_name, "Loud");
    assert_eq!(cache.resolve("Gimp").unwrap().display_name, "Loud");
}

#[test]
fn application_dirs_follow_the_environment() {
    assert_eq!(
        default_application_dirs(Some("/data"), Some("/home/me"), Some("/a:rel:/b/:")),
        vec!["/data/applications", "/a/applications", "/b/applications"]
    );
    assert_eq!(
        default_application_dirs(Some("relative"), Some("/home/me"), Some("")),
        vec![
            "/home/me/.local/share/applications",
            "/usr/local/share/applications",
            "/usr/share/applications"
        ]
    );
    assert_eq!(
        default_application_dirs(None, None, None),
        vec!["/usr/local/share/applications", "/usr/share/applications"]
    );
}

#[test]
fn cache_from_env_scans_the_environment_dirs() {
    let mut dir = Dir::new("data");
    write_entry(&mut dir, "a.desktop", &desktop("Name=A\nExec=a"));
    let cache = DesktopEntryCache::from_env(Some("/data"), None, Some("rel"), scan(&[&dir]));
    assert_eq!(cache.dirs, vec!["/data/applications"]);
    assert!(cache.resolve("a").is_some());
}

#[test]
fn names_are_not_localized() {
    let mut dir = Dir::new("applications");
    write_entry(
        &mut dir,
        "files.desktop",
        &desktop("Name=Files\nName[de]=Dateien\nExec=files"),
    );
    assert_eq!(build(&[&dir]).resolve("files").unwrap().display_name, "Files");
}

#[test]
fn hidden_and_malformed_entries_are_not_offered() {
    let fields = |hidden: bool| EntryFields {
        hidden,
        name: None,
        startup_wm_class: Some("Foo".to_string()),
        exec_line: Some("foo %U --flag".to_string()),
        terminal: false,
    };
    let mut entries: Vec<CachedEntry> = Vec::new();
    offer_entry("foo", None, &mut entries);
    offer_entry("foo", Some(fields(true)), &mut entries);
    assert!(entries.is_empty());
    offer_entry("foo", Some(fields(false)), &mut entries);
    assert_eq!(entries[0].display_name, "foo");
    assert_eq!(entries[0].command, vec!["foo", "--flag"]);
    assert!(entries[0].launchable());
}

/// Arguments between double quotes, with what has to be escaped escaped.
fn quoted_line(args: &[&str]) -> String {
    let quote = |a: &&str| {
        let mut out = String::from("\"");
        for c in a.chars() {
            if matches!(c, '"' | '`' | '$' | '\\') {
                out.push('\\');
            }
            out.push(c);
        }
        out.push('"');
        out
    };
    args.iter().map(quote).collect::<Vec<_>>().join(" ")
}

#[test]
fn quoted_arguments_read_back() {
    let args = ["", "a b", "say \"hi\"", "\\", "`$HOME`", "\\n", "plain"];
    assert_eq!(tokenize(&quoted_line(&args)).unwrap(), args);
    assert_eq!(tokenize("").unwrap(), Vec::<String>::new());
}

#[test]
fn only_open_quotes_give_no_tokens() {
    assert!(tokenize("a \"b").is_none());
    assert!(tokenize("a \"b\\\"").is_none());
    assert!(tokenize("a \"b\\\\\"").is_some());
    assert_eq!(tokenize(" a\\ \tb\\\\c ").unwrap(), vec!["a\\", "b\\\\c"]);
}

#[test]
fn doubled_percent_signs_read_back() {
    for t in ["", "100%", "%", "%%", "%f", "a%Ub", "%%f%", "plain"] {
        assert_eq!(field_code(&t.replace('%', "%%")).as_deref(), Some(t));
    }
    assert_eq!(field_code("%f"), None);
    let args = ["env", "A=%f", "100%", "a b"];
    let doubled: Vec<String> = args.iter().map(|a| a.replace('%', "%%")).collect();
    let texts: Vec<&str> = doubled.iter().map(String::as_str).collect();
    assert_eq!(parse_exec_line(&quoted_line(&texts)), args);
}

/// The entry of an id comes from the first file that holds it, also where that
/// one is no use.
#[test]
fn the_first_file_of_an_id_decides() {
    let mut home = Dir::new("home");
    write_entry(&mut home, "a.desktop", &desktop("Name=Home\nExec=home"));
    write_entry(&mut home, "b.desktop", &desktop("Name=Home\nExec=home\nHidden=true"));
    let mut system = Dir::new("system");
    for id in ["a", "b", "c"] {
        write_entry(
            &mut system,
            &format!("{id}.desktop"),
            &desktop("Name=System\nExec=system"),
        );
    }
    let mut found = scan(&[&home, &system]);
    found[0].files.push(ScannedFile { file_name: "c.desktop".to_string(), contents: None });
    let dirs = vec!["/home".to_string(), "/system".to_string()];
    let cache = DesktopEntryCache::new(dirs, found);
    let ids: Vec<(&str, &str)> =
        cache.entries.iter().map(|e| (e.stem.as_str(), e.display_name.as_str())).collect();
    assert_eq!(ids, vec![("a", "Home")]);
}
