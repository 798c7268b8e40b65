use hotfnl::hotlib::{
    boot, get_fn_idx, lib_version_action, patch_failure_response, reload_lib_path, HotFn, HotLib,
    HotLibAction, PatchErr, PatchResponse,
};
use hotfnl::path::HotPath;

fn f(file: &'static str, name: &'static str, func: u32) -> HotFn<u32> {
    HotFn { file_name: file, fn_name: name, func }
}

fn booted() -> (HotLib<u32>, Vec<u32>) {
    let mut lib = HotLib::new();
    let table = lib.on_boot(
        true,
        vec![f("src/main.rs", "a", 10), f("src/main.rs", "b", 11), f("src/x.rs", "a", 12)],
        "src/main.rs",
        "/p",
        &HotPath::parse("/p/target/debug/app"),
    );
    (lib, table)
}

#[test]
fn key_is_file_colon_name() {
    assert_eq!(HotLib::<u32>::to_key("::hello::()->()", "src/main.rs"), "src/main.rs:::hello::()->()");
}

#[test]
fn boot_registers_in_order() {
    let (lib, table) = booted();
    assert_eq!(table, vec![10, 11, 12]);
    assert_eq!(lib.backup_functions, vec![10, 11, 12]);
    assert_eq!(lib.functions_dict, vec!["src/main.rs:a", "src/main.rs:b", "src/x.rs:a"]);
    assert!(lib.is_hot_project);
    assert!(lib.is_configured);
    assert_eq!(get_fn_idx(&lib, "b", "src/main.rs"), 1);
    assert_eq!(get_fn_idx(&lib, "a", "src/x.rs"), 2);
}

#[test]
fn boot_function_matches_on_boot() {
    let mut lib = HotLib::new();
    let table = boot(&mut lib, false, vec![f("m.rs", "g", 3)], "m.rs", "/p", &HotPath::parse("/p/t/d/app"));
    assert_eq!(table, vec![3]);
    assert!(!lib.is_hot_project);
}

#[test]
fn duplicates_are_found() {
    let list = vec![f("m.rs", "a", 1), f("m.rs", "b", 2), f("m.rs", "a", 3), f("m.rs", "b", 4)];
    assert_eq!(HotLib::find_duplicate(&list), Some("m.rs:a".to_string()));
    let ok = vec![f("m.rs", "a", 1), f("n.rs", "a", 2)];
    assert_eq!(HotLib::find_duplicate(&ok), None);
}

#[test]
fn patch_with_same_functions_in_another_order() {
    let (lib, _) = booted();
    let new = vec![f("src/x.rs", "a", 22), f("src/main.rs", "a", 20), f("src/main.rs", "b", 21)];
    assert_eq!(lib.patch_table(&new), Ok(vec![20, 21, 22]));
}

#[test]
fn patch_with_the_boot_list_gives_the_boot_table() {
    let (lib, table) = booted();
    let again = vec![f("src/main.rs", "a", 10), f("src/main.rs", "b", 11), f("src/x.rs", "a", 12)];
    assert_eq!(lib.patch_table(&again), Ok(table));
}

#[test]
fn patch_with_a_missing_function_is_refused() {
    let (lib, _) = booted();
    let new = vec![f("src/main.rs", "a", 20), f("src/main.rs", "b", 21)];
    assert_eq!(lib.patch_table(&new), Err(PatchErr::ToManyChange));
}

#[test]
fn patch_with_a_new_function_is_refused() {
    let (lib, _) = booted();
    let new = vec![
        f("src/main.rs", "a", 20),
        f("src/main.rs", "b", 21),
        f("src/x.rs", "a", 22),
        f("src/x.rs", "new", 23),
    ];
    assert_eq!(lib.patch_table(&new), Err(PatchErr::ToManyChange));
}

#[test]
fn patch_with_a_repeated_function_is_refused() {
    let (lib, _) = booted();
    let new = vec![f("src/main.rs", "a", 20), f("src/main.rs", "a", 21), f("src/x.rs", "a", 22)];
    assert_eq!(lib.patch_table(&new), Err(PatchErr::ToManyChange));
}

#[test]
fn responses_to_patch_errors() {
    assert_eq!(patch_failure_response(&PatchErr::FailedLoadLib), PatchResponse::ReportError);
    assert_eq!(patch_failure_response(&PatchErr::NoGetFunctionsFn), PatchResponse::ReportError);
    assert_eq!(patch_failure_response(&PatchErr::OtherError), PatchResponse::ReportError);
    assert_eq!(patch_failure_response(&PatchErr::ToManyChange), PatchResponse::Exit);
    assert_eq!(
        patch_failure_response(&PatchErr::FailedCleanLib("busy".to_string())),
        PatchResponse::Exit
    );
}

#[test]
fn version_file_events_and_reload_path() {
    assert_eq!(lib_version_action(true), Some(HotLibAction::ReloadLib));
    assert_eq!(lib_version_action(false), None);
    let (lib, _) = booted();
    let p = reload_lib_path(&lib.project, Some("1700")).unwrap();
    assert_eq!(p.to_text(), "/p/target/debug/hotfnl/app/lib/lib_1700.so");
    assert!(reload_lib_path(&lib.project, Some("17 ")).is_none());
    assert!(reload_lib_path(&lib.project, Some("")).is_none());
    assert!(reload_lib_path(&lib.project, None).is_none());
}
