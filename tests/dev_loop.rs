use hornyloader::convert::{dds_file_name, DDSParser};
use hornyloader::menu::{choose_entry, in_variant, variant_action, variant_id, variant_menu, ModConfig, VariantAction, VariantOption};
use hornyloader::schedule::{DevScheduler, Phase, DEBOUNCE_MS};
use hornyloader::settings::{settings_action, BoolOption, DevConfig, SettingsAction, StringOption};
use hornyloader::text::decimal;
use hornyloader::watch::{classify, FileUpdateMessage, FileWatcher, PathClass, WatchAction};

fn p(s: &str) -> Vec<String> {
    s.split('/').map(|x| x.to_string()).collect()
}

#[test]
fn paths_are_classified_by_folder() {
    let root = p("mod");
    assert_eq!(classify(&root, &p("mod/assets/a.dds")), PathClass::Rebuild);
    assert_eq!(classify(&root, &p("mod/temp/x.vb")), PathClass::Rebuild);
    assert_eq!(classify(&root, &p("mod/textures/t.png")), PathClass::ConvertTexture);
    assert_eq!(classify(&root, &p("mod/texturesx/t.png")), PathClass::Ignore);
    assert_eq!(classify(&root, &p("mod/output/a")), PathClass::Ignore);
    assert_eq!(classify(&root, &p("mod")), PathClass::Ignore);
}

#[test]
fn watcher_coalesces_events() {
    let mut w = FileWatcher::new();
    w.record(p("mod/assets/a"));
    assert!(w.get().is_empty());
    assert!(matches!(w.watch(p("mod")), WatchAction::Switch { unwatch: None }));
    assert!(matches!(w.watch(p("mod")), WatchAction::Keep));
    w.record(p("mod/textures/t.png"));
    w.record(p("mod/assets/a"));
    w.record(p("mod/textures/t.png"));
    w.record(p("mod/temp/b"));
    let ev = w.get();
    assert_eq!(ev.len(), 2);
    assert!(matches!(ev[0], FileUpdateMessage::Rebuild));
    assert!(matches!(&ev[1], FileUpdateMessage::ParseDDS(x) if *x == p("mod/textures/t.png")));
    assert!(w.get().is_empty());
    w.record(p("mod/assets/a"));
    match w.watch(p("other")) {
        WatchAction::Switch { unwatch } => assert_eq!(unwatch, Some(p("mod"))),
        WatchAction::Keep => panic!("expected a switch"),
    }
    assert!(w.get().is_empty());
    assert_eq!(w.close(), Some(p("other")));
}

#[test]
fn same_path_converts_once_while_in_flight() {
    let mut c = DDSParser::new("mod".to_string());
    assert!(c.finished());
    assert!(!c.parse(p("mod/textures"), false));
    assert!(c.finished());
    assert!(c.parse(p("mod/textures/a.png"), true));
    assert!(!c.parse(p("mod/textures/a.png"), true));
    assert!(c.parse(p("mod/textures/b.png"), true));
    assert!(!c.finished());
    c.finish(&p("mod/textures/a.png"));
    assert!(!c.finished());
    c.finish(&p("mod/textures/b.png"));
    assert!(c.finished());
    assert!(c.parse(p("mod/textures/a.png"), true));
    c.reload("other".to_string());
    assert_eq!(c.output_path(), "other");
}

#[test]
fn converted_file_names() {
    assert_eq!(dds_file_name("a.png"), "a.dds");
    assert_eq!(dds_file_name("a.b.png"), "a.b.dds");
    assert_eq!(dds_file_name("noext"), "noext.dds");
    assert_eq!(dds_file_name(".hidden"), ".hidden.dds");
}

#[test]
fn burst_of_triggers_builds_once_after_quiet_window() {
    let mut s = DevScheduler::new();
    let mut builds = 0;
    let mut now = 1000;
    for _ in 0..10 {
        s.on_rebuild_trigger(now);
        now += 500;
        if s.poll(now, true) {
            builds += 1;
        }
    }
    assert_eq!(builds, 0);
    assert_eq!(s.phase(now), Phase::CountingDown(DEBOUNCE_MS - 500));
    let last = now - 500;
    assert!(!s.poll(last + DEBOUNCE_MS - 1, true));
    assert!(!s.poll(last + DEBOUNCE_MS, false));
    assert!(s.poll(last + DEBOUNCE_MS, true));
    assert_eq!(s.phase(now), Phase::Building);
    assert!(!s.poll(last + 2 * DEBOUNCE_MS, true));
    s.build_finished();
    assert_eq!(s.phase(now), Phase::Idle);
    assert!(!s.poll(last + 3 * DEBOUNCE_MS, true));
}

#[test]
fn update_now_skips_the_window() {
    let mut s = DevScheduler::new();
    s.request_build();
    assert!(!s.poll(0, false));
    assert!(s.poll(0, true));
}

#[test]
fn menu_choice() {
    let entries: Vec<String> = vec!["Load Mod".to_string(), "Dev Mode".to_string(), "Exit".to_string()];
    assert_eq!(choose_entry("", &entries, true), Some(0));
    assert_eq!(choose_entry("", &entries, false), None);
    assert_eq!(choose_entry("dev MODE", &entries, false), Some(1));
    assert_eq!(choose_entry("2", &entries, false), Some(2));
    assert_eq!(choose_entry("3", &entries, false), None);
    assert_eq!(choose_entry("x", &entries, false), None);
}

#[test]
fn variant_selection() {
    assert_eq!(variant_id(&vec![0, 10, 3]), "0a3");
    assert_eq!(variant_id(&vec![]), "");
    assert_eq!(variant_id(&vec![17]), "11");
    let cfg = ModConfig {
        name: "m".to_string(),
        options: vec![VariantOption { label: "Hair".to_string(), variants: vec!["Short".to_string(), "Long".to_string()] }],
    };
    assert_eq!(variant_menu(&cfg, &vec![1]), vec!["Hair: Long", "Exit", "Finished"]);
    assert_eq!(variant_action(0, 1), VariantAction::Change(0));
    assert_eq!(variant_action(1, 1), VariantAction::Exit);
    assert_eq!(variant_action(2, 1), VariantAction::Finish);
    assert!(in_variant("0a3/ModHead.vb", "0a3"));
    assert!(!in_variant("0a30/ModHead.vb", "0a3"));
    assert!(!in_variant("0a3", "0a3"));
}

#[test]
fn settings_lines() {
    let mut c = DevConfig::new("/work".to_string());
    let m = c.menu();
    assert_eq!(m[0], "Character Name: <NONE>");
    assert_eq!(m[1], "Mod Path (From): /work");
    assert_eq!(m[3], "Auto Parse to DDS: Enabled");
    assert_eq!(m[4], "Hot Reload: Disabled");
    c.hot_reload.set();
    c.name.set("Hu".to_string());
    c.from_path.set(None);
    assert_eq!(c.menu()[4], "Hot Reload: Enabled");
    assert_eq!(c.menu()[0], "Character Name: Hu");
    assert_eq!(c.from_path.get(), "/work");
    assert_eq!(BoolOption::new(false).display(), "Disabled");
    assert_eq!(StringOption::new("x".to_string()).format("N"), "N: x");
    assert_eq!(settings_action(4), SettingsAction::ToggleHotReload);
    assert_eq!(settings_action(6), SettingsAction::Update);
    assert_eq!(decimal(0), "0");
    assert_eq!(decimal(1234), "1234");
}
