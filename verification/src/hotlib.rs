//! The table of hot-swappable functions: registering it at boot, finding a function's
//! slot, and merging the functions of a newly built library into it.
use vstd::prelude::*;
use crate::path::{clean_spec, clean_path, join_spec, parse_spec, HotPath};
use crate::text::{decimal, parse_u128, parse_u128_spec};
use crate::project::{
    distinct_paths, exe_path_ok, up, app_bin_path, app_name, join_texts, watch_insert,
    data_dir_of, layout_ok, HotProject, HotProjectFiles, WatchSources,
};

verus! {

/// Describes a single hot-swappable function: where it was defined, its name (with its
/// type-signature key) and its function pointer.
#[derive(Debug, Clone)]
pub struct HotFn<F> {
    /// Source file the function was defined in.
    pub file_name: &'static str,
    /// Function name (including its type-signature key).
    pub fn_name: &'static str,
    /// The function pointer.
    pub func: F,
}

/// Describes the compile-time layout fingerprint of a struct.
#[derive(Debug, Clone)]
pub struct HotLayout {
    /// Source file the struct was defined in.
    pub file_name: &'static str,
    /// Struct name.
    pub struct_name: &'static str,
    /// Content hash of the struct definition.
    pub hash: u64,
}

/// Actions that can be sent to the hot-reload watch loop.
#[derive(Debug, Clone, Copy, PartialEq, Eq, Structural)]
pub enum HotLibAction {
    /// Reload the dynamic library and patch function pointers.
    ReloadLib,
}

/// Errors that can occur while loading and applying a patched library.
#[derive(Debug, Clone, PartialEq, Eq)]
pub enum PatchErr {
    /// The dynamic library could not be opened.
    FailedLoadLib,
    /// An existing library could not be closed/unloaded.
    FailedCleanLib(String),
    /// The library does not export the required `hrl_get_functions` symbol.
    NoGetFunctionsFn,
    /// The new library changed the set of functions (added or removed entries).
    ToManyChange,
    /// An unspecified error occurred.
    OtherError,
}

/// The key of a hot function: `file:name`.
pub open spec fn key_spec(fn_name: Seq<char>, file_name: Seq<char>) -> Seq<char> {
    file_name + seq![':'] + fn_name
}

/// The keys of a list of hot functions, in order.
pub open spec fn keys_of<F>(list: Seq<HotFn<F>>) -> Seq<Seq<char>> {
    list.map_values(|f: HotFn<F>| key_spec(f.fn_name@, f.file_name@))
}

/// The function pointers of a list of hot functions, in order.
pub open spec fn funcs_of<F>(list: Seq<HotFn<F>>) -> Seq<F> {
    list.map_values(|f: HotFn<F>| f.func)
}

/// No key occurs twice.
pub open spec fn distinct_keys(keys: Seq<Seq<char>>) -> bool {
    forall|i: int, j: int| 0 <= i < j < keys.len() ==> keys[i] != keys[j]
}

/// Whether a new library's functions can replace the registered ones: its keys are
/// distinct and are exactly the registered keys.
pub open spec fn patch_fits(registered: Seq<Seq<char>>, keys: Seq<Seq<char>>) -> bool {
    &&& distinct_keys(keys)
    &&& forall|j: int| 0 <= j < keys.len() ==> registered.contains(#[trigger] keys[j])
    &&& forall|i: int| 0 <= i < registered.len() ==> keys.contains(#[trigger] registered[i])
}

/// `table` is the result of a patch by `list`: the keys fit, and each slot holds the new
/// function with that slot's key.
pub open spec fn patched<F>(registered: Seq<Seq<char>>, list: Seq<HotFn<F>>, table: Seq<F>) -> bool {
    &&& patch_fits(registered, keys_of(list))
    &&& table.len() == registered.len()
    &&& forall|i: int, j: int|
        0 <= i < table.len() && 0 <= j < list.len() && #[trigger] keys_of(list)[j]
            == #[trigger] registered[i] ==> table[i] == list[j].func
}

fn concat3(a: &str, b: &str, c: &str) -> (s: String)
    ensures s@ == a@ + b@ + c@,
{
    let mut s = String::from_str(a);
    s.append(b);
    s.append(c);
    s
}

/// The slot of `key` among `dict`, if it is there.
fn index_of_key(dict: &Vec<String>, key: &String) -> (r: Option<usize>)
    ensures
        match r {
            Some(i) => i < dict@.len() && dict@[i as int]@ == key@,
            None => !dict@.map_values(|k: String| k@).contains(key@),
        },
{
    let m = dict.len();
    let mut i: usize = 0;
    while i < m
        invariant
            i <= m,
            m == dict@.len(),
            forall|k: int| 0 <= k < i ==> dict@[k]@ != key@,
        decreases m - i,
    {
        if dict[i].eq(key) {
            return Some(i);
        }
        i = i + 1;
    }
    proof {
        let v = dict@.map_values(|k: String| k@);
        if v.contains(key@) {
            let c = choose|c: int| 0 <= c < v.len() && v[c] == key@;
            assert(v[c] == dict@[c]@);
        }
    }
    None
}

/// The model of the hot-reload engine: the project it runs for, the registered function
/// table, and the watched sources.
pub struct HotLib<F> {
    /// Metadata about the generated hot project and its file layout.
    pub project: HotProject,
    /// The key of the function in each slot of the table.
    pub functions_dict: Vec<String>,
    /// The function pointers captured at boot, the base of every patch.
    pub backup_functions: Vec<F>,
    /// Whether the app is already running as a hot project.
    pub is_hot_project: bool,
    /// Source paths watched for changes.
    pub watch_src: WatchSources,
    /// Whether the engine has been configured at boot.
    pub is_configured: bool,
}

impl<F> HotLib<F> {
    /// Whether `on_boot` has run.
    pub open spec fn configured(&self) -> bool {
        self.is_configured
    }

    /// The registered keys.
    pub open spec fn keys(&self) -> Seq<Seq<char>> {
        self.functions_dict@.map_values(|k: String| k@)
    }

    /// The table is consistent: one distinct key per slot, at most `u16::MAX + 1` slots,
    /// and the watched sources name each path once.
    pub open spec fn wf(&self) -> bool {
        &&& distinct_keys(self.keys())
        &&& self.functions_dict@.len() == self.backup_functions@.len()
        &&& self.functions_dict@.len() <= 65536
        &&& distinct_paths(self.watch_src@)
    }

    /// Creates a fresh, unconfigured hot-reload engine.
    pub fn new() -> (h: Self)
        ensures
            h.wf(),
            !h.configured(),
            h.keys().len() == 0,
            h.backup_functions@.len() == 0,
            !h.is_hot_project,
            h.watch_src@.len() == 0,
    {
        let h = HotLib {
            project: HotProject::default(),
            functions_dict: Vec::new(),
            backup_functions: Vec::new(),
            is_hot_project: false,
            watch_src: WatchSources::new(),
            is_configured: false,
        };
        assert(h.keys() =~= Seq::<Seq<char>>::empty());
        h
    }

    /// Builds the unique key (`file:name`) used to identify a hot function.
    pub fn to_key(fn_name: &str, file_name: &str) -> (k: String)
        ensures k@ == key_spec(fn_name@, file_name@),
    {
        proof {
            reveal_strlit(":");
        }
        concat3(file_name, ":", fn_name)
    }

    /// The first key of `list` that an earlier function already has, if any: the key that
    /// `on_boot` refuses.
    pub fn find_duplicate(list: &Vec<HotFn<F>>) -> (d: Option<String>)
        ensures
            match d {
                None => distinct_keys(keys_of(list@)),
                Some(k) => exists|j: int|
                    0 <= j < list@.len() && keys_of(list@)[j] == k@ && distinct_keys(
                        keys_of(list@).take(j),
                    ) && keys_of(list@).take(j).contains(k@),
            },
    {
        let ghost keys = keys_of(list@);
        let n = list.len();
        let mut seen: Vec<String> = Vec::new();
        let mut j: usize = 0;
        assert(seen@.map_values(|k: String| k@) =~= keys.take(0));
        while j < n
            invariant
                j <= n,
                n == list@.len(),
                keys == keys_of(list@),
                keys.len() == n,
                seen@.map_values(|k: String| k@) == keys.take(j as int),
                distinct_keys(keys.take(j as int)),
            decreases n - j,
        {
            let key = Self::to_key(list[j].fn_name, list[j].file_name);
            assert(key@ == keys[j as int]);
            match index_of_key(&seen, &key) {
                Some(i) => {
                    proof {
                        let v = seen@.map_values(|k: String| k@);
                        assert(v[i as int] == seen@[i as int]@);
                        assert(keys.take(j as int)[i as int] == key@);
                        assert(keys.take(j as int).contains(key@));
                    }
                    return Some(key);
                },
                None => {},
            }
            let ghost kv = key@;
            let ghost before = seen@.map_values(|k: String| k@);
            seen.push(key);
            assert(seen@.map_values(|k: String| k@) =~= before.push(kv));
            assert(keys.take(j + 1) =~= keys.take(j as int).push(kv));
            proof {
                let nk = keys.take(j + 1);
                assert forall|a: int, b: int| 0 <= a < b < nk.len() implies #[trigger] nk[a]
                    != #[trigger] nk[b] by {
                    if b == j {
                        if nk[a] == kv {
                            assert(before[a] == kv);
                        }
                    } else {
                        assert(keys.take(j as int)[a] == nk[a]);
                        assert(keys.take(j as int)[b] == nk[b]);
                    }
                }
            }
            j = j + 1;
        }
        assert(keys.take(n as int) =~= keys);
        None
    }

    /// Watches `path`, relative to the crate root, once resolved: it replaces how the path
    /// was watched if it already was.
    pub fn add_watch(&mut self, path: &str, recursive: bool)
        requires old(self).wf(),
        ensures
            final(self).wf(),
            final(self).watch_src@ == watch_insert(
                old(self).watch_src@,
                clean_spec(join_spec(old(self).project.root_dir@, parse_spec(path@))),
                recursive,
            ),
            final(self).project == old(self).project,
            final(self).functions_dict == old(self).functions_dict,
            final(self).backup_functions == old(self).backup_functions,
            final(self).is_hot_project == old(self).is_hot_project,
            final(self).configured() == old(self).configured(),
    {
        let full = clean_path(&self.project.root_dir.join_text(path));
        self.watch_src.insert(full, recursive);
    }
}

impl<F: Copy> HotLib<F> {
    /// Configures the engine with the boot-time function list and project metadata, and
    /// returns the initial function table: the functions in the order given, the function
    /// with the `k`-th key in slot `k`.
    pub fn on_boot(
        &mut self,
        is_hot_project: bool,
        list_fn: Vec<HotFn<F>>,
        src_file: &str,
        manifest_dir: &str,
        exe_path: &HotPath,
    ) -> (table: Vec<F>)
        requires
            !old(self).configured(),
            old(self).wf(),
            distinct_keys(keys_of(list_fn@)),
            list_fn@.len() <= 65535,
            exe_path_ok(exe_path@),
        ensures
            final(self).configured(),
            final(self).wf(),
            final(self).is_hot_project == is_hot_project,
            final(self).keys() == keys_of(list_fn@),
            final(self).backup_functions@ == funcs_of(list_fn@),
            table@ == funcs_of(list_fn@),
            final(self).watch_src == old(self).watch_src,
            final(self).project.root_dir@ == parse_spec(manifest_dir@),
            final(self).project.bin_path@ == app_bin_path(exe_path@),
            final(self).project.workspace_dir@ == up(up(up(app_bin_path(exe_path@)))),
            final(self).project.hot_dir@ == join_texts(
                up(up(app_bin_path(exe_path@))),
                "hotfnl/"@ + app_name(exe_path@),
            ),
            final(self).project.src_path@ == join_texts(
                final(self).project.workspace_dir@,
                src_file@,
            ),
            final(self).project.is_workspace == (final(self).project.root_dir@
                != final(self).project.workspace_dir@),
    {
        self.is_hot_project = is_hot_project;
        self.project.config(manifest_dir, src_file, exe_path);
        self.is_configured = true;
        let ghost keys = keys_of(list_fn@);
        let n = list_fn.len();
        let mut dict: Vec<String> = Vec::new();
        let mut functions: Vec<F> = Vec::new();
        let mut backup: Vec<F> = Vec::new();
        let mut idx: usize = 0;
        while idx < n
            invariant
                idx <= n,
                n == list_fn@.len(),
                keys == keys_of(list_fn@),
                dict@.map_values(|k: String| k@) == keys.take(idx as int),
                functions@ == funcs_of(list_fn@).take(idx as int),
                backup@ == funcs_of(list_fn@).take(idx as int),
            decreases n - idx,
        {
            let key = Self::to_key(list_fn[idx].fn_name, list_fn[idx].file_name);
            let ghost kv = key@;
            let ghost before = dict@.map_values(|k: String| k@);
            dict.push(key);
            assert(dict@.map_values(|k: String| k@) =~= before.push(kv));
            assert(keys.take(idx + 1) =~= keys.take(idx as int).push(kv));
            functions.push(list_fn[idx].func);
            backup.push(list_fn[idx].func);
            assert(functions@ =~= funcs_of(list_fn@).take(idx + 1));
            assert(backup@ =~= funcs_of(list_fn@).take(idx + 1));
            idx = idx + 1;
        }
        assert(keys.take(n as int) =~= keys);
        assert(funcs_of(list_fn@).take(n as int) =~= funcs_of(list_fn@));
        self.functions_dict = dict;
        self.backup_functions = backup;
        functions
    }

    /// Merges the functions of a newly loaded library into a copy of the boot table.
    ///
    /// Succeeds exactly when the new functions carry the registered keys, each once; each
    /// slot then holds the new function with that slot's key. Otherwise the library changed
    /// the set of functions and the result is `ToManyChange`.
    pub fn patch_table(&self, list_fn: &Vec<HotFn<F>>) -> (r: Result<Vec<F>, PatchErr>)
        requires self.wf(),
        ensures
            match r {
                Ok(table) => patched(self.keys(), list_fn@, table@),
                Err(e) => e == PatchErr::ToManyChange && !patch_fits(
                    self.keys(),
                    keys_of(list_fn@),
                ),
            },
    {
        let ghost reg = self.keys();
        let ghost keys = keys_of(list_fn@);
        let m = self.functions_dict.len();
        let n = list_fn.len();
        let mut table: Vec<F> = Vec::new();
        let mut claimed: Vec<bool> = Vec::new();
        let mut t: usize = 0;
        while t < m
            invariant
                t <= m,
                m == self.backup_functions@.len(),
                table@ == self.backup_functions@.take(t as int),
                claimed@.len() == t,
                forall|i: int| 0 <= i < t ==> !claimed@[i],
            decreases m - t,
        {
            table.push(self.backup_functions[t]);
            claimed.push(false);
            assert(table@ =~= self.backup_functions@.take(t + 1));
            t = t + 1;
        }
        let mut j: usize = 0;
        while j < n
            invariant
                j <= n,
                n == list_fn@.len(),
                m == reg.len(),
                reg == self.keys(),
                keys == keys_of(list_fn@),
                self.wf(),
                table@.len() == m,
                claimed@.len() == m,
                distinct_keys(keys.take(j as int)),
                forall|k: int| 0 <= k < j ==> reg.contains(#[trigger] keys[k]),
                forall|i: int| 0 <= i < m ==> (#[trigger] claimed@[i] <==> keys.take(
                    j as int,
                ).contains(reg[i])),
                forall|q: int, k: int|
                    0 <= q < m && 0 <= k < j && #[trigger] keys[k] == #[trigger] reg[q]
                        ==> table@[q] == list_fn@[k].func,
            decreases n - j,
        {
            let key = Self::to_key(list_fn[j].fn_name, list_fn[j].file_name);
            assert(key@ == keys[j as int]);
            let found = index_of_key(&self.functions_dict, &key);
            if found.is_none() {
                assert(!reg.contains(keys[j as int]));
                return Err(PatchErr::ToManyChange);
            }
            let i = found.unwrap();
            assert(reg[i as int] == key@);
            if claimed[i] {
                proof {
                    let ok = keys.take(j as int);
                    let c = choose|c: int| 0 <= c < ok.len() && #[trigger] ok[c] == reg[i as int];
                    assert(keys[c] == keys[j as int]);
                    assert(!distinct_keys(keys));
                }
                return Err(PatchErr::ToManyChange);
            }
            let ghost old_table = table@;
            let ghost old_claimed = claimed@;
            table.set(i, list_fn[j].func);
            claimed.set(i, true);
            proof {
                assert(keys.take(j + 1) =~= keys.take(j as int).push(keys[j as int]));
                let nk = keys.take(j + 1);
                assert forall|a: int, b: int| 0 <= a < b < nk.len() implies #[trigger] nk[a]
                    != #[trigger] nk[b] by {
                    if b == j {
                        if keys[a] == keys[j as int] {
                            assert(keys.take(j as int)[a] == reg[i as int]);
                            assert(keys.take(j as int).contains(reg[i as int]));
                        }
                    } else {
                        assert(keys.take(j as int)[a] == keys[a]);
                        assert(keys.take(j as int)[b] == keys[b]);
                    }
                }
                assert(distinct_keys(nk));
                assert forall|q: int| 0 <= q < m implies (#[trigger] claimed@[q] <==> keys.take(
                    j + 1,
                ).contains(reg[q])) by {
                    if q == i {
                        assert(keys.take(j + 1)[j as int] == reg[q]);
                    } else {
                        assert(reg[q] != reg[i as int]);
                        if keys.take(j + 1).contains(reg[q]) {
                            let c = choose|c: int| 0 <= c < nk.len() && #[trigger] nk[c] == reg[q];
                            assert(c != j);
                            assert(keys.take(j as int)[c] == reg[q]);
                        }
                        if keys.take(j as int).contains(reg[q]) {
                            let ok = keys.take(j as int);
                            let c = choose|c: int| 0 <= c < ok.len() && #[trigger] ok[c] == reg[q];
                            assert(nk[c] == reg[q]);
                        }
                    }
                }
                assert forall|q: int, k: int|
                    0 <= q < m && 0 <= k < j + 1 && #[trigger] keys[k] == #[trigger] reg[q]
                        implies table@[q] == list_fn@[k].func by {
                    if k == j {
                        if q != i {
                            assert(reg[q] != reg[i as int]);
                        }
                    } else if q == i {
                        assert(keys.take(j as int)[k] == reg[q]);
                        assert(keys.take(j as int).contains(reg[q]));
                        assert(old_claimed[q]);
                    } else {
                        assert(table@[q] == old_table[q]);
                    }
                }
            }
            j = j + 1;
        }
        assert(keys.take(n as int) =~= keys);
        let mut i: usize = 0;
        while i < m
            invariant
                i <= m,
                m == reg.len(),
                n == list_fn@.len(),
                keys == keys_of(list_fn@),
                keys.take(n as int) == keys,
                reg == self.keys(),
                claimed@.len() == m,
                table@.len() == m,
                distinct_keys(keys),
                forall|k: int| 0 <= k < n ==> reg.contains(#[trigger] keys[k]),
                forall|q: int| 0 <= q < m ==> (#[trigger] claimed@[q] <==> keys.take(
                    n as int,
                ).contains(reg[q])),
                forall|q: int, k: int|
                    0 <= q < m && 0 <= k < n && #[trigger] keys[k] == #[trigger] reg[q]
                        ==> table@[q] == list_fn@[k].func,
                forall|q: int| 0 <= q < i ==> claimed@[q],
            decreases m - i,
        {
            if !claimed[i] {
                assert(!keys.contains(reg[i as int]));
                return Err(PatchErr::ToManyChange);
            }
            i = i + 1;
        }
        assert forall|q: int| 0 <= q < reg.len() implies keys.contains(#[trigger] reg[q]) by {
            assert(claimed@[q]);
        }
        assert(patch_fits(self.keys(), keys_of(list_fn@)));
        assert(table@.len() == self.keys().len());
        assert(patched(self.keys(), list_fn@, table@));
        Ok(table)
    }

}

/// Boots the engine with the boot-time function list (see `HotLib::on_boot`) and returns
/// the initial function table.
pub fn boot<F: Copy>(
    lib: &mut HotLib<F>,
    is_hot_project: bool,
    fns: Vec<HotFn<F>>,
    file_name: &str,
    project_dir: &str,
    exe_path: &HotPath,
) -> (table: Vec<F>)
    requires
        !old(lib).configured(),
        old(lib).wf(),
        distinct_keys(keys_of(fns@)),
        fns@.len() <= 65535,
        exe_path_ok(exe_path@),
    ensures
        final(lib).configured(),
        final(lib).wf(),
        final(lib).is_hot_project == is_hot_project,
        final(lib).keys() == keys_of(fns@),
        final(lib).backup_functions@ == funcs_of(fns@),
        table@ == funcs_of(fns@),
        final(lib).watch_src == old(lib).watch_src,
        final(lib).project.root_dir@ == parse_spec(project_dir@),
        final(lib).project.bin_path@ == app_bin_path(exe_path@),
        final(lib).project.workspace_dir@ == up(up(up(app_bin_path(exe_path@)))),
        final(lib).project.hot_dir@ == join_texts(
            up(up(app_bin_path(exe_path@))),
            "hotfnl/"@ + app_name(exe_path@),
        ),
        final(lib).project.src_path@ == join_texts(final(lib).project.workspace_dir@, file_name@),
        final(lib).project.is_workspace == (final(lib).project.root_dir@
            != final(lib).project.workspace_dir@),
{
    lib.on_boot(is_hot_project, fns, file_name, project_dir, exe_path)
}

/// Returns the table slot of the hot function identified by `fn_name` and `file_name`.
pub fn get_fn_idx<F>(lib: &HotLib<F>, fn_name: &str, file_name: &str) -> (idx: u16)
    requires
        lib.wf(),
        lib.keys().contains(key_spec(fn_name@, file_name@)),
    ensures
        idx < lib.keys().len(),
        lib.keys()[idx as int] == key_spec(fn_name@, file_name@),
{
    let key = HotLib::<F>::to_key(fn_name, file_name);
    let i = index_of_key(&lib.functions_dict, &key).unwrap();
    assert(lib.keys()[i as int] == lib.functions_dict@[i as int]@);
    i as u16
}

/// Configuration of additional source paths to watch for changes.
pub struct HotProjectWatcherConfig {}

impl HotProjectWatcherConfig {
    /// Watches `path` (non-recursively) for changes.
    pub fn watch<'a, F>(&'a self, lib: &mut HotLib<F>, path: &str) -> (r: &'a Self)
        requires old(lib).wf(),
        ensures
            final(lib).wf(),
            final(lib).watch_src@ == watch_insert(
                old(lib).watch_src@,
                clean_spec(join_spec(old(lib).project.root_dir@, parse_spec(path@))),
                false,
            ),
            final(lib).project == old(lib).project,
            final(lib).functions_dict == old(lib).functions_dict,
    {
        lib.add_watch(path, false);
        self
    }

    /// Watches `path` recursively for changes.
    pub fn recursive<'a, F>(&'a self, lib: &mut HotLib<F>, path: &str) -> (r: &'a Self)
        requires old(lib).wf(),
        ensures
            final(lib).wf(),
            final(lib).watch_src@ == watch_insert(
                old(lib).watch_src@,
                clean_spec(join_spec(old(lib).project.root_dir@, parse_spec(path@))),
                true,
            ),
            final(lib).project == old(lib).project,
            final(lib).functions_dict == old(lib).functions_dict,
    {
        lib.add_watch(path, true);
        self
    }
}


/// Reloading a library whose functions are exactly the boot functions fits the table, and
/// the patched table is the boot table again.
pub proof fn lemma_patch_with_boot_list<F>(list: Seq<HotFn<F>>, table: Seq<F>)
    requires distinct_keys(keys_of(list)),
    ensures
        patch_fits(keys_of(list), keys_of(list)),
        patched(keys_of(list), list, table) ==> table == funcs_of(list),
{
    let keys = keys_of(list);
    assert forall|j: int| 0 <= j < keys.len() implies keys.contains(#[trigger] keys[j]) by {}
    if patched(keys, list, table) {
        assert forall|i: int| 0 <= i < table.len() implies table[i] == funcs_of(list)[i] by {
            assert(keys[i] == keys[i]);
        }
        assert(table =~= funcs_of(list));
    }
}

/// A patch gives one table only: two tables that both result from patching the same
/// registered keys with the same functions are equal.
pub proof fn lemma_patched_unique<F>(
    registered: Seq<Seq<char>>,
    list: Seq<HotFn<F>>,
    t1: Seq<F>,
    t2: Seq<F>,
)
    requires
        patched(registered, list, t1),
        patched(registered, list, t2),
    ensures t1 == t2,
{
    assert forall|i: int| 0 <= i < t1.len() implies t1[i] == t2[i] by {
        assert(keys_of(list).contains(registered[i]));
        let j = choose|j: int| 0 <= j < keys_of(list).len() && keys_of(list)[j] == registered[i];
    }
    assert(t1 =~= t2);
}


/// What the watch loop does when a new library could not be patched in.
#[derive(Debug, Clone, Copy, PartialEq, Eq, Structural)]
pub enum PatchResponse {
    /// Tell the callbacks that the patch failed and keep running the old functions.
    ReportError,
    /// The process can no longer be trusted to match its library: end it, so that the
    /// wrapper starts it again.
    Exit,
}

/// How the watch loop answers a failed patch: a library that could not be opened or has no
/// function table is reported; a changed set of functions or a library that could not be
/// closed ends the process.
pub fn patch_failure_response(err: &PatchErr) -> (r: PatchResponse)
    ensures
        r == (match err {
            PatchErr::FailedLoadLib | PatchErr::NoGetFunctionsFn | PatchErr::OtherError =>
                PatchResponse::ReportError,
            PatchErr::ToManyChange | PatchErr::FailedCleanLib(_) => PatchResponse::Exit,
        }),
{
    match err {
        PatchErr::FailedLoadLib | PatchErr::NoGetFunctionsFn | PatchErr::OtherError =>
            PatchResponse::ReportError,
        PatchErr::ToManyChange | PatchErr::FailedCleanLib(_) => PatchResponse::Exit,
    }
}

/// The action an event on the version file asks for: a change of it asks for a reload.
pub fn lib_version_action(is_modify: bool) -> (a: Option<HotLibAction>)
    ensures a == (if is_modify { Some(HotLibAction::ReloadLib) } else { None }),
{
    if is_modify {
        Some(HotLibAction::ReloadLib)
    } else {
        None
    }
}

/// The path of the library to load on a reload, from the text of the version file
/// (`None` when it could not be read): the saved copy of that version, or nothing when
/// the text is not a version number.
pub fn reload_lib_path(project: &HotProject, version_text: Option<&str>) -> (p: Option<HotPath>)
    requires layout_ok(project),
    ensures
        match version_text {
            None => p is None,
            Some(t) => match parse_u128_spec(t@) {
                None => p is None,
                Some(v) => p matches Some(path) && path@ == join_texts(
                    join_texts(data_dir_of(project), "lib"@),
                    "lib_"@ + decimal(v as nat) + ".so"@,
                ),
            },
        },
{
    match version_text {
        None => None,
        Some(t) => match parse_u128(t) {
            None => None,
            Some(v) => Some(HotProjectFiles::new(project).lib().lib_version_path(v)),
        },
    }
}

} // verus!
