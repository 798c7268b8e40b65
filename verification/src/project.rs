//! The layout of the generated hot project: where each file of it lives, and the paths
//! watched for changes.
use vstd::prelude::*;
use crate::path::{
    file_stem_spec, join_spec, parent_spec, parse_spec, render_spec,
    wf_parts, HotPath, PathPart,
};
use crate::text::{decimal, decimal_text, debug_text, debug_text_of};

verus! {

/// Metadata describing the generated hot project and how it maps to the user's project.
#[derive(Debug, Clone)]
pub struct HotProject {
    /// Root directory of the user's crate.
    pub root_dir: HotPath,
    /// Directory where the generated hot project lives.
    pub hot_dir: HotPath,
    /// Path to the user's main source file.
    pub src_path: HotPath,
    /// The workspace root directory.
    pub workspace_dir: HotPath,
    /// Path to the user's application binary.
    pub bin_path: HotPath,
    /// Whether the user's crate is part of a Cargo workspace.
    pub is_workspace: bool,
}

impl Default for HotProject {
    fn default() -> (p: Self)
        ensures
            p.root_dir@.len() == 0,
            p.hot_dir@.len() == 0,
            p.src_path@.len() == 0,
            p.workspace_dir@.len() == 0,
            p.bin_path@.len() == 0,
            !p.is_workspace,
    {
        HotProject {
            root_dir: HotPath::empty(),
            hot_dir: HotPath::empty(),
            src_path: HotPath::empty(),
            workspace_dir: HotPath::empty(),
            bin_path: HotPath::empty(),
            is_workspace: false,
        }
    }
}

/// The path `p.parent()` when there is one.
pub open spec fn up(p: Seq<PathPart>) -> Seq<PathPart> {
    parent_spec(p)->Some_0
}

/// The prefix that marks the binaries and library of a hot project.
pub open spec fn hot_prefix() -> Seq<char> {
    seq!['h', 'o', 't', 'f', 'n', 'l', '_']
}

/// The name of the user's binary, without the hot prefix that the hot build gives it.
pub open spec fn app_name(exe: Seq<PathPart>) -> Seq<char> {
    let name = file_stem_spec(exe)->Some_0;
    if hot_prefix().is_prefix_of(name) {
        name.subrange(7, name.len() as int)
    } else {
        name
    }
}

/// The path of the user's binary: the running binary, or beside it the user's binary when
/// the running one is the hot build of it.
pub open spec fn app_bin_path(exe: Seq<PathPart>) -> Seq<PathPart> {
    let name = file_stem_spec(exe)->Some_0;
    if hot_prefix().is_prefix_of(name) {
        join_spec(up(exe), parse_spec(app_name(exe)))
    } else {
        exe
    }
}

/// What `config` needs of the running binary's path: a file stem, a parent when the name
/// has the hot prefix, and three ancestors above the user's binary.
pub open spec fn exe_path_ok(exe: Seq<PathPart>) -> bool {
    &&& file_stem_spec(exe) is Some
    &&& hot_prefix().is_prefix_of(file_stem_spec(exe)->Some_0) ==> parent_spec(exe) is Some
    &&& parent_spec(app_bin_path(exe)) is Some
    &&& parent_spec(up(app_bin_path(exe))) is Some
    &&& parent_spec(up(up(app_bin_path(exe)))) is Some
}

/// `Path::new(text).join(more)` for two texts read as paths.
pub open spec fn join_texts(a: Seq<PathPart>, text: Seq<char>) -> Seq<PathPart> {
    join_spec(a, parse_spec(text))
}

/// What the files of a project need: the binary path has a parent and a file stem.
pub open spec fn layout_ok(p: &HotProject) -> bool {
    &&& parent_spec(p.bin_path@) is Some
    &&& file_stem_spec(p.bin_path@) is Some
}

pub open spec fn target_dir_of(p: &HotProject) -> Seq<PathPart> {
    up(p.bin_path@)
}

pub open spec fn bin_name_of(p: &HotProject) -> Seq<char> {
    file_stem_spec(p.bin_path@)->Some_0
}

pub open spec fn data_dir_of(p: &HotProject) -> Seq<PathPart> {
    join_texts(join_texts(target_dir_of(p), "hotfnl"@), bin_name_of(p))
}

/// The directory of the workspace that the hot project is built in.
pub open spec fn workspace_dir_of(p: &HotProject) -> Seq<PathPart> {
    if p.is_workspace {
        up(p.hot_dir@)
    } else {
        p.hot_dir@
    }
}

fn concat(a: &str, b: &str) -> (s: String)
    ensures s@ == a@ + b@,
{
    let mut s = String::from_str(a);
    s.append(b);
    s
}

impl HotProject {
    /// Computes the project layout from the crate root, the source path (relative to the
    /// workspace) and the path of the running binary.
    pub fn config(&mut self, root_dir: &str, src_path: &str, exe_path: &HotPath)
        requires
            exe_path_ok(exe_path@),
        ensures
            final(self).root_dir@ == parse_spec(root_dir@),
            final(self).bin_path@ == app_bin_path(exe_path@),
            final(self).workspace_dir@ == up(up(up(app_bin_path(exe_path@)))),
            final(self).hot_dir@ == join_texts(
                up(up(app_bin_path(exe_path@))),
                "hotfnl/"@ + app_name(exe_path@),
            ),
            final(self).src_path@ == join_texts(final(self).workspace_dir@, src_path@),
            final(self).is_workspace == (final(self).root_dir@ != final(self).workspace_dir@),
    {
        let root = HotPath::parse(root_dir);
        let stem = exe_path.file_stem();
        let mut name = stem.unwrap();
        let n = name.unicode_len();
        proof {
            reveal_strlit("hotfnl_");
        }
        let has_prefix = n >= 7 && name.as_str().substring_char(0, 7).to_owned().eq(
            &String::from_str("hotfnl_"),
        );
        assert("hotfnl_"@ =~= hot_prefix());
        assert(has_prefix == hot_prefix().is_prefix_of(name@)) by {
            if n >= 7 {
                if hot_prefix().is_prefix_of(name@) {
                    assert(name@.subrange(0, 7) =~= hot_prefix());
                } else {
                    assert(name@.subrange(0, 7) != hot_prefix());
                }
            }
        }
        let bin_path = if has_prefix {
            name = name.as_str().substring_char(7, n).to_owned();
            exe_path.parent().unwrap().join_text(name.as_str())
        } else {
            exe_path.duplicate()
        };
        assert(bin_path@ == app_bin_path(exe_path@));
        assert(name@ == app_name(exe_path@));
        let p1 = bin_path.parent().unwrap();
        let p2 = p1.parent().unwrap();
        let p3 = p2.parent().unwrap();
        self.workspace_dir = p3;
        self.root_dir = root;
        let sub = concat("hotfnl/", name.as_str());
        self.hot_dir = p2.join_text(sub.as_str());
        self.src_path = self.workspace_dir.join_text(src_path);
        self.bin_path = bin_path;
        self.is_workspace = !self.root_dir.same_as(&self.workspace_dir);
    }

    /// Returns the computed hot-project file layout.
    pub fn files(&self) -> (f: HotProjectFiles<'_>)
        ensures f.project == self,
    {
        HotProjectFiles::new(self)
    }

    /// The manifest and lock files whose change stops the wrapper: the crate's
    /// `Cargo.toml`, then, in a workspace, the workspace's `Cargo.toml` and `Cargo.lock`,
    /// and otherwise the crate's `Cargo.lock`.
    pub fn cargo_watch_files(&self) -> (v: Vec<HotPath>)
        ensures
            v@.map_values(|p: HotPath| p@) == if self.is_workspace {
                seq![
                    join_texts(self.root_dir@, "Cargo.toml"@),
                    join_texts(self.workspace_dir@, "Cargo.toml"@),
                    join_texts(self.workspace_dir@, "Cargo.lock"@),
                ]
            } else {
                seq![
                    join_texts(self.root_dir@, "Cargo.toml"@),
                    join_texts(self.root_dir@, "Cargo.lock"@),
                ]
            },
    {
        let mut v: Vec<HotPath> = Vec::new();
        v.push(self.root_dir.join_text("Cargo.toml"));
        if self.is_workspace {
            v.push(self.workspace_dir.join_text("Cargo.toml"));
            v.push(self.workspace_dir.join_text("Cargo.lock"));
        } else {
            v.push(self.root_dir.join_text("Cargo.lock"));
        }
        assert(v@.map_values(|p: HotPath| p@) =~= if self.is_workspace {
            seq![
                join_texts(self.root_dir@, "Cargo.toml"@),
                join_texts(self.workspace_dir@, "Cargo.toml"@),
                join_texts(self.workspace_dir@, "Cargo.lock"@),
            ]
        } else {
            seq![
                join_texts(self.root_dir@, "Cargo.toml"@),
                join_texts(self.root_dir@, "Cargo.lock"@),
            ]
        });
        v
    }
}


/// The file layout of a hot project.
pub struct HotProjectFiles<'a> {
    pub project: &'a HotProject,
}

/// The workspace the hot project is built in.
pub struct HotWorkspace<'a> {
    pub project: &'a HotProject,
}

/// The sources of the hot project.
pub struct HotSrc<'a> {
    pub project: &'a HotProject,
}

/// The data files that the hot-reload runtime keeps.
pub struct HotData<'a> {
    pub project: &'a HotProject,
}

/// The wrapper binary.
pub struct HotWrapperBin<'a> {
    pub project: &'a HotProject,
}

/// The dynamic library that is built and reloaded.
pub struct HotTargetLib<'a> {
    pub project: &'a HotProject,
}

/// The hot build of the user's binary.
pub struct HotTargetHotBin<'a> {
    pub project: &'a HotProject,
}

impl<'a> HotProjectFiles<'a> {
    pub fn new(project: &'a HotProject) -> (f: Self)
        ensures f.project == project,
    {
        HotProjectFiles { project }
    }

    /// The directory the user's binary is built into.
    pub fn target_dir(&self) -> (d: HotPath)
        requires layout_ok(self.project),
        ensures d@ == target_dir_of(self.project),
    {
        self.project.bin_path.parent().unwrap()
    }

    /// The file stem of the user's binary.
    pub fn bin_name(&self) -> (n: String)
        requires layout_ok(self.project),
        ensures n@ == bin_name_of(self.project),
    {
        self.project.bin_path.file_stem().unwrap()
    }

    /// The directory of the runtime's data: `<target>/hotfnl/<bin>`.
    pub fn data_dir(&self) -> (d: HotPath)
        requires layout_ok(self.project),
        ensures d@ == data_dir_of(self.project),
    {
        let name = self.bin_name();
        self.target_dir().join_text("hotfnl").join_text(name.as_str())
    }

    pub fn workspace(&self) -> (w: HotWorkspace<'a>)
        ensures w.project == self.project,
    {
        HotWorkspace { project: self.project }
    }

    pub fn src(&self) -> (w: HotSrc<'a>)
        ensures w.project == self.project,
    {
        HotSrc { project: self.project }
    }

    pub fn data(&self) -> (w: HotData<'a>)
        ensures w.project == self.project,
    {
        HotData { project: self.project }
    }

    pub fn wrapper(&self) -> (w: HotWrapperBin<'a>)
        ensures w.project == self.project,
    {
        HotWrapperBin { project: self.project }
    }

    pub fn lib(&self) -> (w: HotTargetLib<'a>)
        ensures w.project == self.project,
    {
        HotTargetLib { project: self.project }
    }

    pub fn hotbin(&self) -> (w: HotTargetHotBin<'a>)
        ensures w.project == self.project,
    {
        HotTargetHotBin { project: self.project }
    }
}

impl<'a> HotWorkspace<'a> {
    /// The workspace directory: the parent of the hot project's directory in a workspace,
    /// else that directory itself.
    pub fn dir(&self) -> (d: HotPath)
        requires self.project.is_workspace ==> parent_spec(self.project.hot_dir@) is Some,
        ensures d@ == workspace_dir_of(self.project),
    {
        if self.project.is_workspace {
            self.project.hot_dir.parent().unwrap()
        } else {
            self.project.hot_dir.duplicate()
        }
    }

    pub fn cargo_toml(&self) -> (d: HotPath)
        requires self.project.is_workspace ==> parent_spec(self.project.hot_dir@) is Some,
        ensures d@ == join_texts(workspace_dir_of(self.project), "Cargo.toml"@),
    {
        self.dir().join_text("Cargo.toml")
    }

    pub fn cargo_lock(&self) -> (d: HotPath)
        requires self.project.is_workspace ==> parent_spec(self.project.hot_dir@) is Some,
        ensures d@ == join_texts(workspace_dir_of(self.project), "Cargo.lock"@),
    {
        self.dir().join_text("Cargo.lock")
    }

    pub fn cargo_config_dir(&self) -> (d: HotPath)
        requires self.project.is_workspace ==> parent_spec(self.project.hot_dir@) is Some,
        ensures d@ == join_texts(workspace_dir_of(self.project), ".cargo"@),
    {
        self.dir().join_text(".cargo")
    }

    pub fn cargo_config_file(&self) -> (d: HotPath)
        requires self.project.is_workspace ==> parent_spec(self.project.hot_dir@) is Some,
        ensures
            d@ == join_texts(join_texts(workspace_dir_of(self.project), ".cargo"@), "config.toml"@),
    {
        self.cargo_config_dir().join_text("config.toml")
    }

    pub fn main_rs(&self) -> (d: HotPath)
        requires self.project.is_workspace ==> parent_spec(self.project.hot_dir@) is Some,
        ensures d@ == join_texts(join_texts(workspace_dir_of(self.project), "src"@), "main.rs"@),
    {
        self.dir().join_text("src").join_text("main.rs")
    }
}

impl<'a> HotSrc<'a> {
    pub fn cargo_toml(&self) -> (d: HotPath)
        ensures d@ == join_texts(self.project.hot_dir@, "Cargo.toml"@),
    {
        self.project.hot_dir.join_text("Cargo.toml")
    }

    pub fn cargo_lock(&self) -> (d: HotPath)
        ensures d@ == join_texts(self.project.hot_dir@, "Cargo.lock"@),
    {
        self.project.hot_dir.join_text("Cargo.lock")
    }

    pub fn cargo_config_dir(&self) -> (d: HotPath)
        requires self.project.is_workspace ==> parent_spec(self.project.hot_dir@) is Some,
        ensures d@ == join_texts(workspace_dir_of(self.project), ".cargo"@),
    {
        let base = if self.project.is_workspace {
            self.project.hot_dir.parent().unwrap()
        } else {
            self.project.hot_dir.duplicate()
        };
        base.join_text(".cargo")
    }

    pub fn cargo_config_file(&self) -> (d: HotPath)
        requires self.project.is_workspace ==> parent_spec(self.project.hot_dir@) is Some,
        ensures
            d@ == join_texts(join_texts(workspace_dir_of(self.project), ".cargo"@), "config.toml"@),
    {
        self.cargo_config_dir().join_text("config.toml")
    }
}

impl<'a> HotWrapperBin<'a> {
    /// `hotfnlw_<bin>`.
    pub fn name(&self) -> (n: String)
        requires layout_ok(self.project),
        ensures n@ == "hotfnlw_"@ + bin_name_of(self.project),
    {
        let b = HotProjectFiles::new(self.project).bin_name();
        concat("hotfnlw_", b.as_str())
    }

    /// `wrapper.rs`.
    pub fn src_name(&self) -> (n: String)
        ensures n@ == "wrapper.rs"@,
    {
        String::from_str("wrapper.rs")
    }

    pub fn src_path(&self) -> (d: HotPath)
        ensures d@ == join_texts(self.project.hot_dir@, "wrapper.rs"@),
    {
        let n = self.src_name();
        self.project.hot_dir.join_text(n.as_str())
    }

    pub fn bin_path(&self) -> (d: HotPath)
        requires layout_ok(self.project),
        ensures d@ == join_texts(target_dir_of(self.project), "hotfnlw_"@ + bin_name_of(self.project)),
    {
        let n = self.name();
        HotProjectFiles::new(self.project).target_dir().join_text(n.as_str())
    }
}

impl<'a> HotTargetLib<'a> {
    /// `hotfnl_<bin>`.
    pub fn name(&self) -> (n: String)
        requires layout_ok(self.project),
        ensures n@ == "hotfnl_"@ + bin_name_of(self.project),
    {
        let b = HotProjectFiles::new(self.project).bin_name();
        concat("hotfnl_", b.as_str())
    }

    /// `libhotfnl_<bin>.so`.
    pub fn out_name(&self) -> (n: String)
        requires layout_ok(self.project),
        ensures n@ == "lib"@ + ("hotfnl_"@ + bin_name_of(self.project)) + ".so"@,
    {
        let name = self.name();
        let s = concat("lib", name.as_str());
        concat(s.as_str(), ".so")
    }

    pub fn out_path(&self) -> (d: HotPath)
        requires layout_ok(self.project),
        ensures
            d@ == join_texts(
                target_dir_of(self.project),
                "lib"@ + ("hotfnl_"@ + bin_name_of(self.project)) + ".so"@,
            ),
    {
        let n = self.out_name();
        HotProjectFiles::new(self.project).target_dir().join_text(n.as_str())
    }

    /// The directory that keeps the versioned copies of the library.
    pub fn lib_clone_dir(&self) -> (d: HotPath)
        requires layout_ok(self.project),
        ensures d@ == join_texts(data_dir_of(self.project), "lib"@),
    {
        HotProjectFiles::new(self.project).data_dir().join_text("lib")
    }

    /// The copy of the library built at `build_time`: `lib_<build_time>.so`.
    pub fn lib_version_path(&self, build_time: u128) -> (d: HotPath)
        requires layout_ok(self.project),
        ensures
            d@ == join_texts(
                join_texts(data_dir_of(self.project), "lib"@),
                "lib_"@ + decimal(build_time as nat) + ".so"@,
            ),
    {
        let t = decimal_text(build_time);
        let s = concat("lib_", t.as_str());
        let f = concat(s.as_str(), ".so");
        self.lib_clone_dir().join_text(f.as_str())
    }

    /// The file that holds the version of the latest library.
    pub fn lib_version_txt_path(&self) -> (d: HotPath)
        requires layout_ok(self.project),
        ensures d@ == join_texts(data_dir_of(self.project), "lib_version.txt"@),
    {
        HotProjectFiles::new(self.project).data_dir().join_text("lib_version.txt")
    }
}

impl<'a> HotTargetHotBin<'a> {
    /// `hotfnl_<bin>`.
    pub fn name(&self) -> (n: String)
        requires layout_ok(self.project),
        ensures n@ == "hotfnl_"@ + bin_name_of(self.project),
    {
        let b = HotProjectFiles::new(self.project).bin_name();
        concat("hotfnl_", b.as_str())
    }

    /// `hotfnl_<bin>`.
    pub fn out_name(&self) -> (n: String)
        requires layout_ok(self.project),
        ensures n@ == "hotfnl_"@ + bin_name_of(self.project),
    {
        self.name()
    }

    pub fn out_path(&self) -> (d: HotPath)
        requires layout_ok(self.project),
        ensures d@ == join_texts(target_dir_of(self.project), "hotfnl_"@ + bin_name_of(self.project)),
    {
        let n = self.out_name();
        HotProjectFiles::new(self.project).target_dir().join_text(n.as_str())
    }
}

impl<'a> HotData<'a> {
    pub fn log_path(&self) -> (d: HotPath)
        requires layout_ok(self.project),
        ensures d@ == join_texts(data_dir_of(self.project), "hotfnl.log"@),
    {
        HotProjectFiles::new(self.project).data_dir().join_text("hotfnl.log")
    }

    pub fn project_data_path(&self) -> (d: HotPath)
        requires layout_ok(self.project),
        ensures d@ == join_texts(data_dir_of(self.project), "project_data.toml"@),
    {
        HotProjectFiles::new(self.project).data_dir().join_text("project_data.toml")
    }

    pub fn project_state_path(&self) -> (d: HotPath)
        requires layout_ok(self.project),
        ensures d@ == join_texts(data_dir_of(self.project), "project_state.toml"@),
    {
        HotProjectFiles::new(self.project).data_dir().join_text("project_state.toml")
    }

    pub fn project_sock_path(&self) -> (d: HotPath)
        requires layout_ok(self.project),
        ensures d@ == join_texts(data_dir_of(self.project), "project.sock"@),
    {
        HotProjectFiles::new(self.project).data_dir().join_text("project.sock")
    }
}


/// A watched source path and whether it is watched recursively.
#[derive(Debug, Clone)]
pub struct WatchEntry {
    pub path: HotPath,
    pub recursive: bool,
}

/// The source paths watched for changes, each path at most once.
#[derive(Debug, Clone)]
pub struct WatchSources {
    pub entries: Vec<WatchEntry>,
}

impl View for WatchSources {
    type V = Seq<(Seq<PathPart>, bool)>;

    open spec fn view(&self) -> Seq<(Seq<PathPart>, bool)> {
        self.entries@.map_values(|e: WatchEntry| (e.path@, e.recursive))
    }
}

/// No path occurs twice.
pub open spec fn distinct_paths(s: Seq<(Seq<PathPart>, bool)>) -> bool {
    forall|i: int, j: int| 0 <= i < j < s.len() ==> s[i].0 != s[j].0
}

/// Whether `path` is watched, and how: the map that the entries stand for.
pub open spec fn watch_of(s: Seq<(Seq<PathPart>, bool)>, path: Seq<PathPart>) -> Option<bool> {
    if exists|i: int| 0 <= i < s.len() && s[i].0 == path {
        Some(s[choose|i: int| 0 <= i < s.len() && s[i].0 == path].1)
    } else {
        None
    }
}

/// The entries after watching `path` (recursively or not): the entry of `path` is
/// replaced in place, or appended when there is none.
pub open spec fn watch_insert(s: Seq<(Seq<PathPart>, bool)>, path: Seq<PathPart>, recursive: bool)
    -> Seq<(Seq<PathPart>, bool)>
{
    if exists|i: int| 0 <= i < s.len() && s[i].0 == path {
        s.update(choose|i: int| 0 <= i < s.len() && s[i].0 == path, (path, recursive))
    } else {
        s.push((path, recursive))
    }
}

impl WatchSources {
    pub fn new() -> (w: WatchSources)
        ensures w@ == Seq::<(Seq<PathPart>, bool)>::empty(),
    {
        let w = WatchSources { entries: Vec::new() };
        assert(w@ =~= Seq::<(Seq<PathPart>, bool)>::empty());
        w
    }

    /// Watches `path`, replacing how it was watched if it already was (as
    /// `BTreeMap::insert`).
    pub fn insert(&mut self, path: HotPath, recursive: bool)
        requires distinct_paths(old(self)@),
        ensures
            final(self)@ == watch_insert(old(self)@, path@, recursive),
            distinct_paths(final(self)@),
    {
        let ghost s = self@;
        let n = self.entries.len();
        let mut i: usize = 0;
        while i < n
            invariant
                i <= n,
                n == self.entries@.len(),
                self@ == s,
                s == old(self)@,
                distinct_paths(s),
                forall|k: int| 0 <= k < i ==> s[k].0 != path@,
            decreases n - i,
        {
            assert(s[i as int].0 == self.entries@[i as int].path@);
            if self.entries[i].path.same_as(&path) {
                let ghost pv = path@;
                proof {
                    assert(0 <= i < s.len() && s[i as int].0 == path@);
                    let c = choose|k: int| 0 <= k < s.len() && s[k].0 == path@;
                    assert(c == i as int) by {
                        if c < i as int {
                            assert(s[c].0 != path@);
                        } else if c > i as int {
                            assert(s[i as int].0 != s[c].0);
                        }
                    }
                }
                assert(watch_insert(s, pv, recursive) == s.update(i as int, (pv, recursive)));
                self.entries.set(i, WatchEntry { path, recursive });
                assert(self@ =~= s.update(i as int, (pv, recursive)));
                return;
            }
            i = i + 1;
        }
        let ghost pv = path@;
        self.entries.push(WatchEntry { path, recursive });
        assert(self@ =~= s.push((pv, recursive)));
    }
}

/// Persisted state of the hot project, written to disk between runs.
#[derive(Debug, Clone)]
pub struct HotProjectStore {
    pub project: HotProject,
    pub watch_src: WatchSources,
}


/// One step of scaffolding the hot project on disk.
pub enum InitStep {
    /// Create the directory and its parents.
    CreateDir(HotPath),
    /// Write the text to the file unless it already holds it, creating its directory.
    WriteFile(HotPath, String),
    /// Write the hot project's `Cargo.toml`, rewritten from the user's.
    WriteCargoToml,
    /// Copy the first file to the second when the first exists.
    CopyIfExists(HotPath, HotPath),
    /// Write the workspace `Cargo.toml` of the hot project, rewritten from the user's.
    WriteCargoWorkspace,
}

/// A scaffolding step, with paths as components and texts as characters.
pub enum InitAction {
    CreateDir(Seq<PathPart>),
    WriteFile(Seq<PathPart>, Seq<char>),
    WriteCargoToml,
    CopyIfExists(Seq<PathPart>, Seq<PathPart>),
    WriteCargoWorkspace,
}

impl InitStep {
    pub open spec fn action(self) -> InitAction {
        match self {
            InitStep::CreateDir(p) => InitAction::CreateDir(p@),
            InitStep::WriteFile(p, t) => InitAction::WriteFile(p@, t@),
            InitStep::WriteCargoToml => InitAction::WriteCargoToml,
            InitStep::CopyIfExists(a, b) => InitAction::CopyIfExists(a@, b@),
            InitStep::WriteCargoWorkspace => InitAction::WriteCargoWorkspace,
        }
    }
}

/// The Cargo configuration that builds the hot project into the user's target directory.
pub open spec fn cargo_config_text(p: &HotProject) -> Seq<char> {
    "[build]\ntarget-dir = \""@ + render_spec(up(target_dir_of(p))) + "\""@
}

/// The build script that tells the hot build where the user's crate is.
pub open spec fn build_script_text(p: &HotProject) -> Seq<char> {
    "fn main() { println!(\"cargo:rustc-env=HOT_PROJECT_DIR="@ + render_spec(p.root_dir@)
        + "\"); }"@
}

/// The source of the wrapper binary: it runs the wrapper on the project data file.
pub open spec fn wrapper_source_text(p: &HotProject) -> Seq<char> {
    "fn main() { hotfnl::app("@ + debug_text_of(
        render_spec(join_texts(data_dir_of(p), "project_data.toml"@)),
    ) + "); }"@
}

/// The placeholder `main` of the hot workspace's own package.
pub open spec fn workspace_main_text() -> Seq<char> {
    "fn main() { println!(\"Hello, world!\"); }"@
}

/// What scaffolding needs of the project: its files have a place, the target directory
/// has a parent, and in a workspace the hot project's directory has a parent.
pub open spec fn init_ok(p: &HotProject) -> bool {
    &&& layout_ok(p)
    &&& parent_spec(target_dir_of(p)) is Some
    &&& p.is_workspace ==> parent_spec(p.hot_dir@) is Some
}

/// The steps that scaffold the hot project, in order, `project_data` being the saved
/// project data.
pub open spec fn init_plan(p: &HotProject, project_data: Seq<char>) -> Seq<InitAction> {
    let steps = seq![
        InitAction::CreateDir(join_texts(data_dir_of(p), "lib"@)),
        InitAction::CreateDir(join_texts(workspace_dir_of(p), ".cargo"@)),
        InitAction::CreateDir(p.hot_dir@),
        InitAction::WriteFile(
            join_texts(join_texts(workspace_dir_of(p), ".cargo"@), "config.toml"@),
            cargo_config_text(p),
        ),
        InitAction::WriteFile(join_texts(data_dir_of(p), "lib_version.txt"@), Seq::empty()),
        InitAction::WriteFile(join_texts(p.hot_dir@, "build.rs"@), build_script_text(p)),
        InitAction::WriteFile(join_texts(data_dir_of(p), "project_data.toml"@), project_data),
        InitAction::WriteFile(join_texts(p.hot_dir@, "wrapper.rs"@), wrapper_source_text(p)),
        InitAction::WriteCargoToml,
        InitAction::WriteFile(join_texts(data_dir_of(p), "hotfnl.log"@), Seq::empty()),
        InitAction::CopyIfExists(
            join_texts(p.root_dir@, "Cargo.lock"@),
            join_texts(p.hot_dir@, "Cargo.lock"@),
        ),
    ];
    if p.is_workspace {
        steps + seq![
            InitAction::CopyIfExists(
                join_texts(p.workspace_dir@, "Cargo.lock"@),
                join_texts(up(p.hot_dir@), "Cargo.lock"@),
            ),
            InitAction::WriteCargoWorkspace,
            InitAction::WriteFile(
                join_texts(join_texts(workspace_dir_of(p), "src"@), "main.rs"@),
                workspace_main_text(),
            ),
        ]
    } else {
        steps
    }
}

fn concat3(a: &str, b: &str, c: &str) -> (s: String)
    ensures s@ == a@ + b@ + c@,
{
    let mut s = String::from_str(a);
    s.append(b);
    s.append(c);
    s
}

impl HotProject {
    /// The steps that scaffold the hot project on disk: its directories, the Cargo
    /// configuration, the version file, the build script, the saved project data, the
    /// wrapper's source, the rewritten manifests, the log, copies of the lock files, and in a
    /// workspace the placeholder `main` of the hot workspace.
    pub fn init_steps(&self, project_data: &str) -> (steps: Vec<InitStep>)
        requires init_ok(self),
        ensures steps@.map_values(|s: InitStep| s.action()) == init_plan(self, project_data@),
    {
        let files = self.files();
        let mut steps: Vec<InitStep> = Vec::new();
        steps.push(InitStep::CreateDir(files.lib().lib_clone_dir()));
        steps.push(InitStep::CreateDir(files.workspace().cargo_config_dir()));
        steps.push(InitStep::CreateDir(self.hot_dir.duplicate()));
        let target_parent = files.target_dir().parent().unwrap().to_text();
        let config = concat3("[build]\ntarget-dir = \"", target_parent.as_str(), "\"");
        steps.push(InitStep::WriteFile(files.workspace().cargo_config_file(), config));
        steps.push(InitStep::WriteFile(files.lib().lib_version_txt_path(), String::new()));
        let root = self.root_dir.to_text();
        let build = concat3(
            "fn main() { println!(\"cargo:rustc-env=HOT_PROJECT_DIR=",
            root.as_str(),
            "\"); }",
        );
        steps.push(InitStep::WriteFile(self.hot_dir.join_text("build.rs"), build));
        steps.push(
            InitStep::WriteFile(files.data().project_data_path(), String::from_str(project_data)),
        );
        let data_path = files.data().project_data_path().to_text();
        let quoted = debug_text(data_path.as_str());
        let wrapper = concat3("fn main() { hotfnl::app(", quoted.as_str(), "); }");
        steps.push(InitStep::WriteFile(files.wrapper().src_path(), wrapper));
        steps.push(InitStep::WriteCargoToml);
        steps.push(InitStep::WriteFile(files.data().log_path(), String::new()));
        steps.push(
            InitStep::CopyIfExists(
                self.root_dir.join_text("Cargo.lock"),
                self.hot_dir.join_text("Cargo.lock"),
            ),
        );
        if self.is_workspace {
            steps.push(
                InitStep::CopyIfExists(
                    self.workspace_dir.join_text("Cargo.lock"),
                    self.hot_dir.parent().unwrap().join_text("Cargo.lock"),
                ),
            );
            steps.push(InitStep::WriteCargoWorkspace);
            proof {
                reveal_strlit("fn main() { println!(\"Hello, world!\"); }");
            }
            steps.push(
                InitStep::WriteFile(
                    files.workspace().main_rs(),
                    String::from_str("fn main() { println!(\"Hello, world!\"); }"),
                ),
            );
        }
        assert(steps@.map_values(|s: InitStep| s.action()) =~= init_plan(self, project_data@));
        steps
    }
}


/// A command to run: the program, its arguments and its working directory.
pub struct CommandSpec {
    pub program: String,
    pub args: Vec<String>,
    pub cwd: HotPath,
}

/// The texts of a list of strings.
pub open spec fn texts(v: Seq<String>) -> Seq<Seq<char>> {
    v.map_values(|s: String| s@)
}

impl HotProject {
    /// `cargo run --bin <wrapper> -- <args>` in the hot project's directory.
    pub fn wrapper_command(&self, command_args: Vec<String>) -> (c: CommandSpec)
        requires layout_ok(self),
        ensures
            c.program@ == "cargo"@,
            texts(c.args@) == seq!["run"@, "--bin"@, "hotfnlw_"@ + bin_name_of(self), "--"@]
                + texts(command_args@),
            c.cwd@ == self.hot_dir@,
    {
        let mut args: Vec<String> = Vec::new();
        args.push(String::from_str("run"));
        args.push(String::from_str("--bin"));
        args.push(self.files().wrapper().name());
        args.push(String::from_str("--"));
        let ghost head = texts(args@);
        let n = command_args.len();
        let mut rest = command_args;
        let ghost tail = texts(rest@);
        let mut i: usize = 0;
        while i < n
            invariant
                i <= n,
                n == tail.len(),
                rest@.len() == n - i,
                texts(rest@) == tail.subrange(i as int, n as int),
                texts(args@) == head + tail.subrange(0, i as int),
            decreases n - i,
        {
            let ghost before = rest@;
            let a = rest.remove(0);
            assert(a@ == tail[i as int]) by {
                assert(texts(before)[0] == before[0]@);
                assert(tail.subrange(i as int, n as int)[0] == tail[i as int]);
            }
            let ghost av = a@;
            let ghost args_before = texts(args@);
            args.push(a);
            assert(texts(args@) =~= args_before.push(av));
            assert(tail.subrange(0, i + 1) =~= tail.subrange(0, i as int).push(av));
            assert(texts(args@) =~= head + tail.subrange(0, i + 1));
            assert(texts(rest@) =~= tail.subrange(i + 1, n as int)) by {
                let rv = texts(rest@);
                let t2 = tail.subrange(i + 1, n as int);
                assert forall|j: int| 0 <= j < rest@.len() implies #[trigger] rv[j] == t2[j] by {
                    assert(rest@[j] == before[j + 1]);
                    assert(texts(before)[j + 1] == before[j + 1]@);
                    assert(tail.subrange(i as int, n as int)[j + 1] == tail[i + 1 + j]);
                }
            }
            i = i + 1;
        }
        assert(tail.subrange(0, n as int) =~= tail);
        CommandSpec { program: String::from_str("cargo"), args, cwd: self.hot_dir.duplicate() }
    }

    /// The hot build of the app, run in the target directory.
    pub fn bin_target_command(&self) -> (c: CommandSpec)
        requires layout_ok(self),
        ensures
            c.program@ == render_spec(
                join_texts(target_dir_of(self), "hotfnl_"@ + bin_name_of(self)),
            ),
            c.args@.len() == 0,
            c.cwd@ == target_dir_of(self),
    {
        let files = self.files();
        CommandSpec {
            program: files.hotbin().out_path().to_text(),
            args: Vec::new(),
            cwd: files.target_dir(),
        }
    }

    /// `cargo build` in the hot project's directory.
    pub fn rebuild_command(&self) -> (c: CommandSpec)
        ensures
            c.program@ == "cargo"@,
            texts(c.args@) == seq!["build"@],
            c.cwd@ == self.hot_dir@,
    {
        let mut args: Vec<String> = Vec::new();
        args.push(String::from_str("build"));
        assert(texts(args@) =~= seq!["build"@]);
        CommandSpec { program: String::from_str("cargo"), args, cwd: self.hot_dir.duplicate() }
    }
}

/// The build script of the hot project hands the hot build the crate root given at
/// configuration, whether or not the crate is a workspace member: its sixth step writes
/// `build.rs` in the hot project's directory, setting `HOT_PROJECT_DIR` to the text of
/// `root_dir`, which reads back as that same root.
pub proof fn lemma_build_script_names_the_crate_root(p: &HotProject, project_data: Seq<char>)
    ensures
        init_plan(p, project_data)[5] == InitAction::WriteFile(
            join_texts(p.hot_dir@, "build.rs"@),
            "fn main() { println!(\"cargo:rustc-env=HOT_PROJECT_DIR="@ + render_spec(p.root_dir@)
                + "\"); }"@,
        ),
        wf_parts(p.root_dir@) ==> parse_spec(render_spec(p.root_dir@)) == p.root_dir@,
{
    if wf_parts(p.root_dir@) {
        crate::path::lemma_render_parse(p.root_dir@);
    }
}

} // verus!
