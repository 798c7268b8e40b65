use hotfnl::hotlib::{HotLib, HotProjectWatcherConfig};
use hotfnl::path::HotPath;
use hotfnl::project::{HotProject, InitStep};

fn project(exe: &str, root: &str) -> HotProject {
    let mut p = HotProject::default();
    p.config(root, "src/main.rs", &HotPath::parse(exe));
    p
}

fn t(p: &HotPath) -> String {
    p.to_text()
}

#[test]
fn config_of_a_plain_crate() {
    let p = project("/home/u/proj/target/debug/app", "/home/u/proj");
    assert_eq!(t(&p.bin_path), "/home/u/proj/target/debug/app");
    assert_eq!(t(&p.workspace_dir), "/home/u/proj");
    assert_eq!(t(&p.hot_dir), "/home/u/proj/target/hotfnl/app");
    assert_eq!(t(&p.src_path), "/home/u/proj/src/main.rs");
    assert_eq!(t(&p.root_dir), "/home/u/proj");
    assert!(!p.is_workspace);
}

#[test]
fn config_of_the_hot_build_names_the_user_binary() {
    let p = project("/w/target/debug/hotfnl_app", "/w/crates/app");
    assert_eq!(t(&p.bin_path), "/w/target/debug/app");
    assert_eq!(t(&p.hot_dir), "/w/target/hotfnl/app");
    assert_eq!(t(&p.workspace_dir), "/w");
    assert!(p.is_workspace);
}

#[test]
fn file_layout() {
    let p = project("/home/u/proj/target/debug/app", "/home/u/proj");
    let f = p.files();
    assert_eq!(t(&f.target_dir()), "/home/u/proj/target/debug");
    assert_eq!(f.bin_name(), "app");
    assert_eq!(t(&f.data_dir()), "/home/u/proj/target/debug/hotfnl/app");
    assert_eq!(f.wrapper().name(), "hotfnlw_app");
    assert_eq!(f.wrapper().src_name(), "wrapper.rs");
    assert_eq!(t(&f.wrapper().src_path()), "/home/u/proj/target/hotfnl/app/wrapper.rs");
    assert_eq!(t(&f.wrapper().bin_path()), "/home/u/proj/target/debug/hotfnlw_app");
    assert_eq!(f.lib().name(), "hotfnl_app");
    assert_eq!(f.lib().out_name(), "libhotfnl_app.so");
    assert_eq!(t(&f.lib().out_path()), "/home/u/proj/target/debug/libhotfnl_app.so");
    assert_eq!(t(&f.lib().lib_clone_dir()), "/home/u/proj/target/debug/hotfnl/app/lib");
    assert_eq!(
        t(&f.lib().lib_version_path(1700000000123)),
        "/home/u/proj/target/debug/hotfnl/app/lib/lib_1700000000123.so"
    );
    assert_eq!(
        t(&f.lib().lib_version_txt_path()),
        "/home/u/proj/target/debug/hotfnl/app/lib_version.txt"
    );
    assert_eq!(f.hotbin().name(), "hotfnl_app");
    assert_eq!(f.hotbin().out_name(), "hotfnl_app");
    assert_eq!(t(&f.hotbin().out_path()), "/home/u/proj/target/debug/hotfnl_app");
    assert_eq!(t(&f.data().log_path()), "/home/u/proj/target/debug/hotfnl/app/hotfnl.log");
    assert_eq!(
        t(&f.data().project_data_path()),
        "/home/u/proj/target/debug/hotfnl/app/project_data.toml"
    );
    assert_eq!(
        t(&f.data().project_sock_path()),
        "/home/u/proj/target/debug/hotfnl/app/project.sock"
    );
    assert_eq!(t(&f.src().cargo_toml()), "/home/u/proj/target/hotfnl/app/Cargo.toml");
    assert_eq!(t(&f.src().cargo_config_dir()), "/home/u/proj/target/hotfnl/app/.cargo");
    assert_eq!(t(&f.workspace().dir()), "/home/u/proj/target/hotfnl/app");
    assert_eq!(t(&f.workspace().main_rs()), "/home/u/proj/target/hotfnl/app/src/main.rs");
}

#[test]
fn workspace_layout_goes_one_level_up() {
    let p = project("/w/target/debug/app", "/w/crates/app");
    let f = p.files();
    assert_eq!(t(&f.workspace().dir()), "/w/target/hotfnl");
    assert_eq!(t(&f.workspace().cargo_toml()), "/w/target/hotfnl/Cargo.toml");
    assert_eq!(t(&f.workspace().cargo_config_file()), "/w/target/hotfnl/.cargo/config.toml");
    assert_eq!(t(&f.src().cargo_config_file()), "/w/target/hotfnl/.cargo/config.toml");
}

fn describe(s: &InitStep) -> String {
    match s {
        InitStep::CreateDir(p) => format!("mkdir {}", p.to_text()),
        InitStep::WriteFile(p, c) => format!("write {} {:?}", p.to_text(), c),
        InitStep::WriteCargoToml => "cargo.toml".to_string(),
        InitStep::CopyIfExists(a, b) => format!("copy {} {}", a.to_text(), b.to_text()),
        InitStep::WriteCargoWorkspace => "workspace".to_string(),
    }
}

#[test]
fn init_steps_of_a_plain_crate() {
    let p = project("/h/p/target/debug/app", "/h/p");
    let steps: Vec<String> = p.init_steps("DATA").iter().map(describe).collect();
    let expected = vec![
        "mkdir /h/p/target/debug/hotfnl/app/lib".to_string(),
        "mkdir /h/p/target/hotfnl/app/.cargo".to_string(),
        "mkdir /h/p/target/hotfnl/app".to_string(),
        format!(
            "write /h/p/target/hotfnl/app/.cargo/config.toml {:?}",
            "[build]\ntarget-dir = \"/h/p/target\""
        ),
        format!("write /h/p/target/debug/hotfnl/app/lib_version.txt {:?}", ""),
        format!(
            "write /h/p/target/hotfnl/app/build.rs {:?}",
            "fn main() { println!(\"cargo:rustc-env=HOT_PROJECT_DIR=/h/p\"); }"
        ),
        format!("write /h/p/target/debug/hotfnl/app/project_data.toml {:?}", "DATA"),
        format!(
            "write /h/p/target/hotfnl/app/wrapper.rs {:?}",
            "fn main() { hotfnl::app(\"/h/p/target/debug/hotfnl/app/project_data.toml\"); }"
        ),
        "cargo.toml".to_string(),
        format!("write /h/p/target/debug/hotfnl/app/hotfnl.log {:?}", ""),
        "copy /h/p/Cargo.lock /h/p/target/hotfnl/app/Cargo.lock".to_string(),
    ];
    assert_eq!(steps, expected);
}

#[test]
fn init_steps_of_a_workspace_member() {
    let p = project("/w/target/debug/app", "/w/crates/app");
    let steps: Vec<String> = p.init_steps("D").iter().map(describe).collect();
    assert_eq!(steps.len(), 14);
    assert_eq!(steps[1], "mkdir /w/target/hotfnl/.cargo");
    assert_eq!(steps[11], "copy /w/Cargo.lock /w/target/hotfnl/Cargo.lock");
    assert_eq!(steps[12], "workspace");
    assert_eq!(
        steps[13],
        format!("write /w/target/hotfnl/src/main.rs {:?}", "fn main() { println!(\"Hello, world!\"); }")
    );
}

#[test]
fn commands() {
    let p = project("/h/p/target/debug/app", "/h/p");
    let w = p.wrapper_command(vec!["--flag".to_string(), "x".to_string()]);
    assert_eq!(w.program, "cargo");
    assert_eq!(w.args, vec!["run", "--bin", "hotfnlw_app", "--", "--flag", "x"]);
    assert_eq!(w.cwd.to_text(), "/h/p/target/hotfnl/app");
    let r = p.rebuild_command();
    assert_eq!(r.program, "cargo");
    assert_eq!(r.args, vec!["build"]);
    assert_eq!(r.cwd.to_text(), "/h/p/target/hotfnl/app");
    let b = p.bin_target_command();
    assert_eq!(b.program, "/h/p/target/debug/hotfnl_app");
    assert!(b.args.is_empty());
    assert_eq!(b.cwd.to_text(), "/h/p/target/debug");
}

#[test]
fn watch_paths_relative_to_the_crate() {
    let mut lib: HotLib<u32> = HotLib::new();
    lib.on_boot(false, vec![], "src/main.rs", "/r", &HotPath::parse("/r/target/debug/app"));
    let w = HotProjectWatcherConfig {};
    w.watch(&mut lib, "./src/../lib");
    w.recursive(&mut lib, "../../../src/");
    assert_eq!(lib.watch_src.entries.len(), 2);
    assert_eq!(lib.watch_src.entries[0].path.to_text(), "/r/lib");
    assert!(!lib.watch_src.entries[0].recursive);
    assert_eq!(lib.watch_src.entries[1].path.to_text(), "/src");
    assert!(lib.watch_src.entries[1].recursive);
    w.recursive(&mut lib, "lib");
    assert_eq!(lib.watch_src.entries.len(), 2);
    assert!(lib.watch_src.entries[0].recursive);
}

#[test]
fn cargo_files_watched_by_the_wrapper() {
    let plain = project("/home/u/proj/target/debug/app", "/home/u/proj");
    let files: Vec<String> = plain.cargo_watch_files().iter().map(t).collect();
    assert_eq!(files, vec!["/home/u/proj/Cargo.toml", "/home/u/proj/Cargo.lock"]);
    let ws = project("/w/target/debug/app", "/w/crates/app");
    let files: Vec<String> = ws.cargo_watch_files().iter().map(t).collect();
    assert_eq!(files, vec!["/w/crates/app/Cargo.toml", "/w/Cargo.toml", "/w/Cargo.lock"]);
}
