//! File system paths held as their components, the way `std::path` compares them.
//!
//! A `HotPath` is the sequence of components that `Path::components` yields for a Unix
//! path: an optional root `/` or a leading `.`, then `..` and plain names. Two paths are
//! the same path exactly when their components are equal, as for `std::path::Path`.
use vstd::prelude::*;

verus! {

/// One component of a path (as `std::path::Component` on Unix).
#[derive(Debug, Clone)]
pub enum PathComponent {
    /// The root `/` of an absolute path.
    RootDir,
    /// A leading `.`.
    CurDir,
    /// `..`.
    ParentDir,
    /// A plain file or directory name.
    Normal(String),
}

/// What a component stands for, with names as character sequences.
pub enum PathPart {
    Root,
    Cur,
    Parent,
    Normal(Seq<char>),
}

impl PathComponent {
    pub open spec fn part(self) -> PathPart {
        match self {
            PathComponent::RootDir => PathPart::Root,
            PathComponent::CurDir => PathPart::Cur,
            PathComponent::ParentDir => PathPart::Parent,
            PathComponent::Normal(n) => PathPart::Normal(n@),
        }
    }
}

/// A path, held as its components.
#[derive(Debug, Clone)]
pub struct HotPath {
    pub components: Vec<PathComponent>,
}

impl View for HotPath {
    type V = Seq<PathPart>;

    open spec fn view(&self) -> Seq<PathPart> {
        self.components@.map_values(|c: PathComponent| c.part())
    }
}

/// A name that can stand as a plain component: not empty, no `/`, and not `.` or `..`.
pub open spec fn name_ok(n: Seq<char>) -> bool {
    &&& n.len() > 0
    &&& !n.contains('/')
    &&& n != seq!['.']
    &&& n != seq!['.', '.']
}

pub open spec fn part_ok(x: PathPart, i: int) -> bool {
    match x {
        PathPart::Root => i == 0,
        PathPart::Cur => i == 0,
        PathPart::Parent => true,
        PathPart::Normal(n) => name_ok(n),
    }
}

/// The components that a Unix path can have: a root or a leading `.` only first, and
/// plain names that are valid names.
pub open spec fn wf_parts(p: Seq<PathPart>) -> bool {
    forall|i: int| 0 <= i < p.len() ==> part_ok(#[trigger] p[i], i)
}

/// The text of `s` cut at each `/` (empty pieces included).
pub open spec fn split_slash(s: Seq<char>) -> Seq<Seq<char>>
    decreases s.len(),
{
    if s.len() == 0 {
        seq![Seq::<char>::empty()]
    } else if s.last() == '/' {
        split_slash(s.drop_last()).push(Seq::<char>::empty())
    } else {
        let p = split_slash(s.drop_last());
        p.update(p.len() - 1, p.last().push(s.last()))
    }
}

/// The component that one piece between slashes contributes, if any.
pub open spec fn piece_parts(piece: Seq<char>) -> Seq<PathPart> {
    if piece.len() == 0 || piece == seq!['.'] {
        Seq::empty()
    } else if piece == seq!['.', '.'] {
        seq![PathPart::Parent]
    } else {
        seq![PathPart::Normal(piece)]
    }
}

pub open spec fn pieces_parts(pieces: Seq<Seq<char>>) -> Seq<PathPart>
    decreases pieces.len(),
{
    if pieces.len() == 0 {
        Seq::empty()
    } else {
        pieces_parts(pieces.drop_last()) + piece_parts(pieces.last())
    }
}

/// The component that the start of the text contributes: the root, or a leading `.`.
pub open spec fn lead_parts(s: Seq<char>) -> Seq<PathPart> {
    if s.len() > 0 && s[0] == '/' {
        seq![PathPart::Root]
    } else if s.len() > 0 && s[0] == '.' && (s.len() == 1 || s[1] == '/') {
        seq![PathPart::Cur]
    } else {
        Seq::empty()
    }
}

/// The components of a Unix path text, as `Path::components` yields them.
pub open spec fn parse_spec(s: Seq<char>) -> Seq<PathPart> {
    lead_parts(s) + pieces_parts(split_slash(s))
}

pub open spec fn part_text(x: PathPart) -> Seq<char> {
    match x {
        PathPart::Root => seq!['/'],
        PathPart::Cur => seq!['.'],
        PathPart::Parent => seq!['.', '.'],
        PathPart::Normal(n) => n,
    }
}

/// The separator written before the next component after `q`.
pub open spec fn sep_after(q: Seq<PathPart>) -> Seq<char> {
    if q.len() == 0 || (q.len() == 1 && q[0] is Root) {
        Seq::empty()
    } else {
        seq!['/']
    }
}

/// The text of a path: its components joined by `/`.
pub open spec fn render_spec(p: Seq<PathPart>) -> Seq<char>
    decreases p.len(),
{
    if p.len() == 0 {
        Seq::empty()
    } else {
        render_spec(p.drop_last()) + sep_after(p.drop_last()) + part_text(p.last())
    }
}

proof fn lemma_split_nonempty(s: Seq<char>)
    ensures split_slash(s).len() >= 1,
    decreases s.len(),
{
    if s.len() > 0 {
        lemma_split_nonempty(s.drop_last());
    }
}

proof fn lemma_split_step(s: Seq<char>, i: int, start: int)
    requires
        0 <= start <= i < s.len(),
        split_slash(s.subrange(0, i)).last() == s.subrange(start, i),
    ensures
        split_slash(s.subrange(0, i + 1)).len() >= 1,
        s[i] == '/' ==> split_slash(s.subrange(0, i + 1)) == split_slash(s.subrange(0, i)).push(
            Seq::<char>::empty(),
        ),
        s[i] != '/' ==> split_slash(s.subrange(0, i + 1)).drop_last() == split_slash(
            s.subrange(0, i),
        ).drop_last(),
        s[i] != '/' ==> split_slash(s.subrange(0, i + 1)).last() == s.subrange(start, i + 1),
{
    let t = s.subrange(0, i + 1);
    assert(t.drop_last() =~= s.subrange(0, i));
    assert(t.last() == s[i]);
    lemma_split_nonempty(s.subrange(0, i));
    lemma_split_nonempty(t);
    if s[i] != '/' {
        let p = split_slash(s.subrange(0, i));
        assert(split_slash(t) == p.update(p.len() - 1, p.last().push(s[i])));
        assert(split_slash(t).drop_last() =~= p.drop_last());
        assert(s.subrange(start, i).push(s[i]) =~= s.subrange(start, i + 1));
    }
}

/// `a.join(b)`: `b` when it is absolute or `a` is empty, else `b`'s components after `a`'s,
/// a leading `.` of `b` dropped.
pub open spec fn join_spec(a: Seq<PathPart>, b: Seq<PathPart>) -> Seq<PathPart> {
    if b.len() > 0 && b[0] is Root {
        b
    } else if a.len() == 0 {
        b
    } else if b.len() > 0 && b[0] is Cur {
        a + b.drop_first()
    } else {
        a + b
    }
}

/// `p.parent()`: `p` without its last component, unless `p` is empty or only a root.
pub open spec fn parent_spec(p: Seq<PathPart>) -> Option<Seq<PathPart>> {
    if p.len() > 0 && !(p.last() is Root) {
        Some(p.drop_last())
    } else {
        None
    }
}

/// `p.file_name()`: the last component when it is a plain name.
pub open spec fn file_name_spec(p: Seq<PathPart>) -> Option<Seq<char>> {
    if p.len() > 0 && p.last() is Normal {
        Some(p.last()->Normal_0)
    } else {
        None
    }
}

/// The position of the last `.` in `s`, or `-1`.
pub open spec fn last_dot(s: Seq<char>) -> int
    decreases s.len(),
{
    if s.len() == 0 {
        -1
    } else if s.last() == '.' {
        s.len() - 1
    } else {
        last_dot(s.drop_last())
    }
}

/// The stem of a file name: the part before the last `.`, unless that `.` is the first
/// character or there is none.
pub open spec fn stem_of(name: Seq<char>) -> Seq<char> {
    if last_dot(name) <= 0 {
        name
    } else {
        name.subrange(0, last_dot(name))
    }
}

/// The extension of a file name: the part after the last `.`, unless that `.` is the
/// first character or there is none.
pub open spec fn extension_of(name: Seq<char>) -> Option<Seq<char>> {
    if last_dot(name) <= 0 {
        None
    } else {
        Some(name.subrange(last_dot(name) + 1, name.len() as int))
    }
}

/// `p.file_stem()`.
pub open spec fn file_stem_spec(p: Seq<PathPart>) -> Option<Seq<char>> {
    match file_name_spec(p) {
        Some(n) => Some(stem_of(n)),
        None => None,
    }
}

/// `p.extension()`.
pub open spec fn extension_spec(p: Seq<PathPart>) -> Option<Seq<char>> {
    match file_name_spec(p) {
        Some(n) => extension_of(n),
        None => None,
    }
}

/// One step of resolving `.` and `..` literally, as pushing onto and popping from a
/// `PathBuf`: `.` is dropped, `..` removes the last name if there is one, the root starts
/// over from `/`, and a name is appended.
pub open spec fn clean_step(acc: Seq<PathPart>, x: PathPart) -> Seq<PathPart> {
    match x {
        PathPart::Cur => acc,
        PathPart::Parent => if acc.len() > 0 && acc.last() is Normal {
            acc.drop_last()
        } else {
            acc
        },
        PathPart::Root => seq![PathPart::Root],
        PathPart::Normal(_) => acc.push(x),
    }
}

/// The path with `.` and `..` resolved literally, component by component.
pub open spec fn clean_spec(p: Seq<PathPart>) -> Seq<PathPart>
    decreases p.len(),
{
    if p.len() == 0 {
        Seq::empty()
    } else {
        clean_step(clean_spec(p.drop_last()), p.last())
    }
}

/// A path with no `.` or `..`: a root only first, then plain names.
pub open spec fn is_clean(p: Seq<PathPart>) -> bool {
    forall|i: int|
        0 <= i < p.len() ==> (#[trigger] p[i] is Normal || (i == 0 && p[i] is Root))
}

fn copy_component(c: &PathComponent) -> (r: PathComponent)
    ensures r.part() == c.part(),
{
    match c {
        PathComponent::RootDir => PathComponent::RootDir,
        PathComponent::CurDir => PathComponent::CurDir,
        PathComponent::ParentDir => PathComponent::ParentDir,
        PathComponent::Normal(n) => PathComponent::Normal(n.clone()),
    }
}

fn same_component(a: &PathComponent, b: &PathComponent) -> (r: bool)
    ensures r == (a.part() == b.part()),
{
    match (a, b) {
        (PathComponent::RootDir, PathComponent::RootDir) => true,
        (PathComponent::CurDir, PathComponent::CurDir) => true,
        (PathComponent::ParentDir, PathComponent::ParentDir) => true,
        (PathComponent::Normal(x), PathComponent::Normal(y)) => x.eq(y),
        _ => false,
    }
}

proof fn lemma_last_dot_bound(s: Seq<char>)
    ensures
        -1 <= last_dot(s) < s.len(),
        last_dot(s) >= 0 ==> s[last_dot(s)] == '.',
    decreases s.len(),
{
    if s.len() > 0 && s.last() != '.' {
        lemma_last_dot_bound(s.drop_last());
    }
}

fn last_dot_index(name: &str) -> (k: Option<usize>)
    ensures
        match k {
            Some(k) => k as int == last_dot(name@),
            None => last_dot(name@) == -1,
        },
{
    let n = name.unicode_len();
    let mut j: usize = n;
    assert(name@.subrange(0, n as int) =~= name@);
    while j > 0
        invariant
            j <= n,
            n == name@.len(),
            last_dot(name@) == last_dot(name@.subrange(0, j as int)),
        decreases j,
    {
        let ghost t = name@.subrange(0, j as int);
        assert(t.drop_last() =~= name@.subrange(0, j - 1));
        if name.get_char(j - 1) == '.' {
            return Some(j - 1);
        }
        j = j - 1;
    }
    assert(name@.subrange(0, 0) =~= Seq::<char>::empty());
    None
}

/// The stem of a file name (see `stem_of`).
pub fn stem_of_name(name: &str) -> (s: String)
    ensures s@ == stem_of(name@),
{
    proof {
        lemma_last_dot_bound(name@);
    }
    match last_dot_index(name) {
        Some(k) if k > 0 => name.substring_char(0, k).to_owned(),
        _ => name.to_owned(),
    }
}

/// The extension of a file name (see `extension_of`).
pub fn extension_of_name(name: &str) -> (e: Option<String>)
    ensures
        match e {
            Some(e) => extension_of(name@) == Some(e@),
            None => extension_of(name@) is None,
        },
{
    proof {
        lemma_last_dot_bound(name@);
    }
    match last_dot_index(name) {
        Some(k) if k > 0 => {
            let n = name.unicode_len();
            Some(name.substring_char(k + 1, n).to_owned())
        },
        _ => None,
    }
}

impl HotPath {
    /// The path with no components (the empty text).
    pub fn empty() -> (p: HotPath)
        ensures p@ == Seq::<PathPart>::empty(),
    {
        let p = HotPath { components: Vec::new() };
        assert(p@ =~= Seq::<PathPart>::empty());
        p
    }

    fn push_piece(comps: &mut Vec<PathComponent>, text: &str, start: usize, end: usize)
        requires
            start <= end <= text@.len(),
        ensures
            final(comps)@.map_values(|c: PathComponent| c.part()) == old(comps)@.map_values(
                |c: PathComponent| c.part(),
            ) + piece_parts(text@.subrange(start as int, end as int)),
    {
        let ghost old_view = comps@.map_values(|c: PathComponent| c.part());
        let piece = text.substring_char(start, end);
        let len = end - start;
        assert(piece@.len() == len);
        if len == 0 || (len == 1 && piece.get_char(0) == '.') {
            assert(len == 1 ==> piece@ =~= seq!['.']);
            assert(piece_parts(piece@) =~= Seq::<PathPart>::empty());
            assert(old_view + piece_parts(piece@) =~= old_view);
        } else if len == 2 && piece.get_char(0) == '.' && piece.get_char(1) == '.' {
            assert(piece@ =~= seq!['.', '.']);
            comps.push(PathComponent::ParentDir);
            assert(comps@.map_values(|c: PathComponent| c.part()) =~= old_view + seq![
                PathPart::Parent,
            ]);
        } else {
            assert(piece@ != seq!['.']);
            assert(piece@ != seq!['.', '.']);
            let name = piece.to_owned();
            comps.push(PathComponent::Normal(name));
            assert(comps@.map_values(|c: PathComponent| c.part()) =~= old_view + seq![
                PathPart::Normal(piece@),
            ]);
        }
    }

    /// The components of a Unix path text, as `Path::new(text).components()` yields them.
    pub fn parse(text: &str) -> (p: HotPath)
        ensures
            p@ == parse_spec(text@),
    {
        let n = text.unicode_len();
        let mut comps: Vec<PathComponent> = Vec::new();
        if n > 0 && text.get_char(0) == '/' {
            comps.push(PathComponent::RootDir);
        } else if n > 0 && text.get_char(0) == '.' && (n == 1 || text.get_char(1) == '/') {
            comps.push(PathComponent::CurDir);
        }
        let ghost lead = comps@.map_values(|c: PathComponent| c.part());
        assert(lead =~= lead_parts(text@));
        let mut start: usize = 0;
        let mut i: usize = 0;
        assert(text@.subrange(0, 0) =~= Seq::<char>::empty());
        assert(split_slash(text@.subrange(0, 0)).drop_last() =~= Seq::<Seq<char>>::empty());
        assert(pieces_parts(Seq::<Seq<char>>::empty()) =~= Seq::<PathPart>::empty());
        assert(lead + Seq::<PathPart>::empty() =~= lead);
        while i < n
            invariant
                0 <= start <= i <= n,
                n == text@.len(),
                lead == lead_parts(text@),
                comps@.map_values(|c: PathComponent| c.part()) == lead + pieces_parts(
                    split_slash(text@.subrange(0, i as int)).drop_last(),
                ),
                split_slash(text@.subrange(0, i as int)).len() >= 1,
                split_slash(text@.subrange(0, i as int)).last() == text@.subrange(
                    start as int,
                    i as int,
                ),
            decreases n - i,
        {
            let ghost prev = split_slash(text@.subrange(0, i as int));
            proof {
                lemma_split_step(text@, i as int, start as int);
            }
            if text.get_char(i) == '/' {
                Self::push_piece(&mut comps, text, start, i);
                let ghost next = split_slash(text@.subrange(0, i + 1));
                assert(next.drop_last() =~= prev);
                assert(prev =~= prev.drop_last().push(prev.last()));
                assert(pieces_parts(prev) == pieces_parts(prev.drop_last()) + piece_parts(
                    prev.last(),
                ));
                assert(lead + pieces_parts(prev.drop_last()) + piece_parts(prev.last()) =~= lead
                    + pieces_parts(prev));
                start = i + 1;
                assert(next.last() =~= text@.subrange(start as int, i + 1));
            }
            i = i + 1;
        }
        let ghost all = split_slash(text@.subrange(0, n as int));
        assert(text@.subrange(0, n as int) =~= text@);
        Self::push_piece(&mut comps, text, start, n);
        assert(all =~= all.drop_last().push(all.last()));
        assert(pieces_parts(all) == pieces_parts(all.drop_last()) + piece_parts(all.last()));
        assert(lead + pieces_parts(all.drop_last()) + piece_parts(all.last()) =~= lead
            + pieces_parts(all));
        HotPath { components: comps }
    }
}


impl HotPath {
    /// The text of the path: its components joined by `/`.
    pub fn to_text(&self) -> (s: String)
        ensures s@ == render_spec(self@),
    {
        let mut s = String::new();
        let n = self.components.len();
        let mut i: usize = 0;
        assert(self@.subrange(0, 0) =~= Seq::<PathPart>::empty());
        while i < n
            invariant
                i <= n,
                n == self@.len(),
                n == self.components@.len(),
                s@ == render_spec(self@.subrange(0, i as int)),
            decreases n - i,
        {
            let ghost q = self@.subrange(0, i as int);
            let ghost p = self@.subrange(0, i + 1);
            let ghost before = s@;
            assert(p.drop_last() =~= q);
            assert(p.last() == self@[i as int]);
            assert(self@[i as int] == self.components@[i as int].part());
            assert(render_spec(p) == render_spec(q) + sep_after(q) + part_text(self@[i as int]));
            let first_is_root = i == 1 && match &self.components[0] {
                PathComponent::RootDir => true,
                _ => false,
            };
            assert(i == 1 ==> q[0] == self.components@[0].part());
            if i > 0 && !first_is_root {
                s.append("/");
                proof {
                    reveal_strlit("/");
                }
                assert(sep_after(q) == seq!['/']);
            } else {
                assert(sep_after(q) =~= Seq::<char>::empty());
                assert(s@ =~= before + sep_after(q));
            }
            let ghost mid = s@;
            match &self.components[i] {
                PathComponent::RootDir => {
                    s.append("/");
                    proof {
                        reveal_strlit("/");
                    }
                    assert(s@ =~= mid + seq!['/']);
                },
                PathComponent::CurDir => {
                    s.append(".");
                    proof {
                        reveal_strlit(".");
                    }
                    assert(s@ =~= mid + seq!['.']);
                },
                PathComponent::ParentDir => {
                    s.append("..");
                    proof {
                        reveal_strlit("..");
                    }
                    assert(s@ =~= mid + seq!['.', '.']);
                },
                PathComponent::Normal(name) => {
                    s.append(name.as_str());
                    assert(s@ =~= mid + name@);
                },
            }
            assert(s@ =~= mid + part_text(self@[i as int]));
            i = i + 1;
        }
        assert(self@.subrange(0, n as int) =~= self@);
        s
    }

    fn copy_range(&self, from: usize, to: usize, out: &mut Vec<PathComponent>)
        requires
            from <= to <= self.components@.len(),
        ensures
            final(out)@.map_values(|c: PathComponent| c.part()) == old(out)@.map_values(
                |c: PathComponent| c.part(),
            ) + self@.subrange(from as int, to as int),
    {
        let ghost start = out@.map_values(|c: PathComponent| c.part());
        let mut i = from;
        assert(start + self@.subrange(from as int, from as int) =~= start);
        while i < to
            invariant
                from <= i <= to,
                to <= self.components@.len(),
                out@.map_values(|c: PathComponent| c.part()) == start + self@.subrange(
                    from as int,
                    i as int,
                ),
            decreases to - i,
        {
            let ghost before = out@.map_values(|c: PathComponent| c.part());
            let c = copy_component(&self.components[i]);
            assert(c.part() == self@[i as int]);
            out.push(c);
            assert(out@.map_values(|c: PathComponent| c.part()) =~= before.push(self@[i as int]));
            assert(self@.subrange(from as int, i + 1) =~= self@.subrange(from as int, i as int).push(
                self@[i as int],
            ));
            assert(out@.map_values(|c: PathComponent| c.part()) =~= start + self@.subrange(
                from as int,
                i + 1,
            ));
            i = i + 1;
        }
    }

    /// A copy of the path.
    pub fn duplicate(&self) -> (p: HotPath)
        ensures p@ == self@,
    {
        let mut out: Vec<PathComponent> = Vec::new();
        assert(out@.map_values(|c: PathComponent| c.part()) =~= Seq::<PathPart>::empty());
        self.copy_range(0, self.components.len(), &mut out);
        assert(self@.subrange(0, self@.len() as int) =~= self@);
        HotPath { components: out }
    }

    /// Whether the two paths have the same components (as `Path == Path`).
    pub fn same_as(&self, other: &HotPath) -> (b: bool)
        ensures b == (self@ == other@),
    {
        let n = self.components.len();
        if n != other.components.len() {
            assert(self@.len() != other@.len());
            return false;
        }
        let mut i: usize = 0;
        while i < n
            invariant
                i <= n,
                n == self.components@.len(),
                n == other.components@.len(),
                forall|k: int| 0 <= k < i ==> self@[k] == other@[k],
            decreases n - i,
        {
            if !same_component(&self.components[i], &other.components[i]) {
                assert(self@[i as int] != other@[i as int]);
                return false;
            }
            i = i + 1;
        }
        assert(self@ =~= other@);
        true
    }

    /// `self.join(other)` (see `join_spec`).
    pub fn join(&self, other: &HotPath) -> (p: HotPath)
        ensures p@ == join_spec(self@, other@),
    {
        let m = other.components.len();
        let mut out: Vec<PathComponent> = Vec::new();
        assert(out@.map_values(|c: PathComponent| c.part()) =~= Seq::<PathPart>::empty());
        let other_root = m > 0 && match &other.components[0] {
            PathComponent::RootDir => true,
            _ => false,
        };
        let other_cur = m > 0 && match &other.components[0] {
            PathComponent::CurDir => true,
            _ => false,
        };
        assert(m > 0 ==> other@[0] == other.components@[0].part());
        if other_root || self.components.len() == 0 {
            other.copy_range(0, m, &mut out);
            assert(other@.subrange(0, m as int) =~= other@);
        } else {
            self.copy_range(0, self.components.len(), &mut out);
            assert(self@.subrange(0, self@.len() as int) =~= self@);
            if other_cur {
                other.copy_range(1, m, &mut out);
                assert(other@.subrange(1, m as int) =~= other@.drop_first());
            } else {
                other.copy_range(0, m, &mut out);
                assert(other@.subrange(0, m as int) =~= other@);
            }
        }
        HotPath { components: out }
    }

    /// `self.join(text)`: joins the path that `text` reads as.
    pub fn join_text(&self, text: &str) -> (p: HotPath)
        ensures p@ == join_spec(self@, parse_spec(text@)),
    {
        self.join(&HotPath::parse(text))
    }

    /// `self.parent()` (see `parent_spec`).
    pub fn parent(&self) -> (p: Option<HotPath>)
        ensures
            match p {
                Some(p) => parent_spec(self@) == Some(p@),
                None => parent_spec(self@) is None,
            },
    {
        let n = self.components.len();
        if n == 0 {
            return None;
        }
        assert(self@.last() == self.components@[n - 1].part());
        match &self.components[n - 1] {
            PathComponent::RootDir => None,
            _ => {
                let mut out: Vec<PathComponent> = Vec::new();
                assert(out@.map_values(|c: PathComponent| c.part()) =~= Seq::<PathPart>::empty());
                self.copy_range(0, n - 1, &mut out);
                assert(self@.subrange(0, n - 1) =~= self@.drop_last());
                Some(HotPath { components: out })
            },
        }
    }

    /// `self.file_name()` (see `file_name_spec`).
    pub fn file_name(&self) -> (f: Option<String>)
        ensures
            match f {
                Some(f) => file_name_spec(self@) == Some(f@),
                None => file_name_spec(self@) is None,
            },
    {
        let n = self.components.len();
        if n == 0 {
            return None;
        }
        assert(self@.last() == self.components@[n - 1].part());
        match &self.components[n - 1] {
            PathComponent::Normal(name) => Some(name.clone()),
            _ => None,
        }
    }

    /// `self.file_stem()` (see `stem_of`).
    pub fn file_stem(&self) -> (f: Option<String>)
        ensures
            match f {
                Some(f) => file_stem_spec(self@) == Some(f@),
                None => file_stem_spec(self@) is None,
            },
    {
        match self.file_name() {
            Some(name) => Some(stem_of_name(name.as_str())),
            None => None,
        }
    }

    /// `self.extension()` (see `extension_of`).
    pub fn extension(&self) -> (e: Option<String>)
        ensures
            match e {
                Some(e) => extension_spec(self@) == Some(e@),
                None => extension_spec(self@) is None,
            },
    {
        match self.file_name() {
            Some(name) => extension_of_name(name.as_str()),
            None => None,
        }
    }
}

/// Normalizes a path by resolving `.` and `..` components literally (see `clean_spec`).
pub fn clean_path(path: &HotPath) -> (r: HotPath)
    ensures r@ == clean_spec(path@),
{
    let n = path.components.len();
    let mut out: Vec<PathComponent> = Vec::new();
    let mut i: usize = 0;
    assert(path@.subrange(0, 0) =~= Seq::<PathPart>::empty());
    assert(out@.map_values(|c: PathComponent| c.part()) =~= Seq::<PathPart>::empty());
    while i < n
        invariant
            i <= n,
            n == path.components@.len(),
            out@.map_values(|c: PathComponent| c.part()) == clean_spec(
                path@.subrange(0, i as int),
            ),
        decreases n - i,
    {
        let ghost acc = out@.map_values(|c: PathComponent| c.part());
        assert(path@.subrange(0, i + 1).drop_last() =~= path@.subrange(0, i as int));
        assert(path@.subrange(0, i + 1).last() == path.components@[i as int].part());
        match &path.components[i] {
            PathComponent::CurDir => {},
            PathComponent::ParentDir => {
                let k = out.len();
                if k > 0 {
                    assert(acc.last() == out@[k - 1].part());
                    let is_name = match &out[k - 1] {
                        PathComponent::Normal(_) => true,
                        _ => false,
                    };
                    if is_name {
                        out.pop();
                        assert(out@.map_values(|c: PathComponent| c.part()) =~= acc.drop_last());
                    }
                }
            },
            PathComponent::RootDir => {
                out = Vec::new();
                out.push(PathComponent::RootDir);
                assert(out@.map_values(|c: PathComponent| c.part()) =~= seq![PathPart::Root]);
            },
            PathComponent::Normal(name) => {
                out.push(PathComponent::Normal(name.clone()));
                assert(out@.map_values(|c: PathComponent| c.part()) =~= acc.push(
                    path.components@[i as int].part(),
                ));
            },
        }
        i = i + 1;
    }
    assert(path@.subrange(0, n as int) =~= path@);
    HotPath { components: out }
}


proof fn lemma_split_no_slash(a: Seq<char>, b: Seq<char>)
    requires !b.contains('/'),
    ensures
        split_slash(a + b) == split_slash(a).update(
            split_slash(a).len() - 1,
            split_slash(a).last() + b,
        ),
    decreases b.len(),
{
    lemma_split_nonempty(a);
    if b.len() == 0 {
        assert(a + b =~= a);
        assert(split_slash(a).last() + b =~= split_slash(a).last());
        assert(split_slash(a).update(split_slash(a).len() - 1, split_slash(a).last())
            =~= split_slash(a));
    } else {
        let b1 = b.drop_last();
        assert(!b1.contains('/')) by {
            if b1.contains('/') {
                let k = choose|k: int| 0 <= k < b1.len() && b1[k] == '/';
                assert(b[k] == '/');
            }
        }
        lemma_split_no_slash(a, b1);
        assert((a + b).drop_last() =~= a + b1);
        assert((a + b).last() == b.last());
        assert(b.last() != '/') by {
            assert(b[b.len() - 1] == b.last());
        }
        lemma_split_nonempty(a + b1);
        let sa = split_slash(a);
        let pp = split_slash(a + b1);
        assert(pp.len() == sa.len());
        assert(pp.last() == sa.last() + b1);
        assert(split_slash(a + b) == pp.update(pp.len() - 1, pp.last().push(b.last())));
        assert(split_slash(a).last() + b1 + seq![b.last()] =~= split_slash(a).last() + b);
        assert(pp.last().push(b.last()) =~= sa.last() + b);
        assert(split_slash(a + b) =~= split_slash(a).update(
            split_slash(a).len() - 1,
            split_slash(a).last() + b,
        ));
    }
}

proof fn lemma_split_after_slash(a: Seq<char>, b: Seq<char>)
    requires !b.contains('/'),
    ensures split_slash(a + seq!['/'] + b) == split_slash(a).push(b),
{
    let a1 = a + seq!['/'];
    assert(a1.drop_last() =~= a);
    assert(a1.last() == '/');
    assert(split_slash(a1) == split_slash(a).push(Seq::<char>::empty()));
    lemma_split_no_slash(a1, b);
    assert(Seq::<char>::empty() + b =~= b);
    assert(split_slash(a1 + b) =~= split_slash(a).push(b));
}

proof fn lemma_pieces_push(pieces: Seq<Seq<char>>, b: Seq<char>)
    ensures pieces_parts(pieces.push(b)) == pieces_parts(pieces) + piece_parts(b),
{
    assert(pieces.push(b).drop_last() =~= pieces);
}

proof fn lemma_part_text(x: PathPart)
    requires
        x is Parent || (x is Normal && name_ok(x->Normal_0)),
    ensures
        !part_text(x).contains('/'),
        piece_parts(part_text(x)) == seq![x],
        part_text(x).len() > 0,
{
    if x is Parent {
        assert(!seq!['.', '.'].contains('/')) by {
            if seq!['.', '.'].contains('/') {
                let k = choose|k: int| 0 <= k < 2 && seq!['.', '.'][k] == '/';
            }
        }
    }
}

proof fn lemma_render_nonempty(p: Seq<PathPart>)
    requires wf_parts(p), p.len() > 0,
    ensures
        render_spec(p).len() > 0,
        p[0] is Root ==> render_spec(p)[0] == '/',
        p[0] is Cur ==> render_spec(p)[0] == '.' && (render_spec(p).len() == 1 || render_spec(p)[1] == '/'),
        p[0] is Parent ==> render_spec(p).len() >= 2 && render_spec(p)[0] == '.' && render_spec(p)[1] == '.',
        p[0] is Normal ==> render_spec(p)[0] != '/' && (render_spec(p)[0] == '.' ==> render_spec(p).len() >= 2 && render_spec(p)[1] != '/'),
        lead_parts(render_spec(p)) == lead_parts(render_spec(seq![p[0]])),
    decreases p.len(),
{
    let q = p.drop_last();
    if p.len() == 1 {
        assert(q =~= Seq::<PathPart>::empty());
        assert(p =~= seq![p[0]]);
        assert(render_spec(q) =~= Seq::<char>::empty());
        assert(sep_after(q) =~= Seq::<char>::empty());
        assert(p.last() == p[0]);
        assert(render_spec(p) == render_spec(q) + sep_after(q) + part_text(p.last()));
        assert(render_spec(p) =~= part_text(p[0]));
        assert(part_ok(p[0], 0));
        if p[0] is Normal {
            let n = p[0]->Normal_0;
            assert(n[0] != '/') by {
                assert(!n.contains('/'));
                if n[0] == '/' {
                    assert(n.contains('/'));
                }
            }
            if n[0] == '.' {
                assert(n.len() >= 2) by {
                    if n.len() == 1 {
                        assert(n =~= seq!['.']);
                    }
                }
                assert(n[1] != '/') by {
                    if n[1] == '/' {
                        assert(n.contains('/'));
                    }
                }
            }
        }
    } else {
        assert(wf_parts(q)) by {
            assert forall|i: int| 0 <= i < q.len() implies part_ok(#[trigger] q[i], i) by {
                assert(q[i] == p[i]);
            }
        }
        lemma_render_nonempty(q);
        assert(q[0] == p[0]);
        let t = render_spec(q);
        let u = sep_after(q) + part_text(p.last());
        assert(render_spec(p) =~= t + u);
        assert(render_spec(p)[0] == t[0]);
        if t.len() >= 2 {
            assert(render_spec(p)[1] == t[1]);
        } else {
            assert(t.len() == 1);
            if q.len() == 1 && q[0] is Root {
            } else {
                assert(sep_after(q) == seq!['/']);
                assert(render_spec(p)[1] == '/');
            }
        }
        assert(lead_parts(render_spec(p)) == lead_parts(t));
    }
}

/// Writing a path as text and reading the text back gives the same path.
pub proof fn lemma_render_parse(p: Seq<PathPart>)
    requires wf_parts(p),
    ensures parse_spec(render_spec(p)) == p,
    decreases p.len(),
{
    if p.len() == 0 {
        assert(render_spec(p) =~= Seq::<char>::empty());
        assert(split_slash(Seq::<char>::empty()) == seq![Seq::<char>::empty()]);
        lemma_pieces_push(Seq::<Seq<char>>::empty(), Seq::<char>::empty());
        assert(seq![Seq::<char>::empty()] =~= Seq::<Seq<char>>::empty().push(Seq::<char>::empty()));
        assert(parse_spec(render_spec(p)) =~= p);
    } else {
        let q = p.drop_last();
        let x = p.last();
        assert(wf_parts(q)) by {
            assert forall|i: int| 0 <= i < q.len() implies part_ok(#[trigger] q[i], i) by {
                assert(q[i] == p[i]);
            }
        }
        assert(part_ok(p[p.len() - 1], p.len() - 1));
        if q.len() == 0 {
            assert(p =~= seq![x]);
            assert(render_spec(q) =~= Seq::<char>::empty());
            assert(sep_after(q) =~= Seq::<char>::empty());
            assert(render_spec(p) == render_spec(q) + sep_after(q) + part_text(x));
            assert(render_spec(p) =~= part_text(x));
            assert(part_ok(x, 0));
            if x is Root {
                assert(render_spec(p) =~= seq!['/']);
                assert(seq!['/'].drop_last() =~= Seq::<char>::empty());
                assert(split_slash(Seq::<char>::empty()) == seq![Seq::<char>::empty()]);
                assert(seq!['/'].last() == '/');
                assert(split_slash(seq!['/']) == split_slash(Seq::<char>::empty()).push(Seq::<char>::empty()));
                assert(split_slash(seq!['/']) =~= seq![Seq::<char>::empty(), Seq::<char>::empty()]);
                lemma_pieces_push(seq![Seq::<char>::empty()], Seq::<char>::empty());
                lemma_pieces_push(Seq::<Seq<char>>::empty(), Seq::<char>::empty());
                assert(seq![Seq::<char>::empty()] =~= Seq::<Seq<char>>::empty().push(Seq::<char>::empty()));
                assert(seq![Seq::<char>::empty(), Seq::<char>::empty()] =~= seq![Seq::<char>::empty()].push(Seq::<char>::empty()));
                assert(parse_spec(render_spec(p)) =~= p);
            } else if x is Cur {
                assert(render_spec(p) =~= seq!['.']);
                lemma_split_no_slash(Seq::<char>::empty(), seq!['.']);
                assert(Seq::<char>::empty() + seq!['.'] =~= seq!['.']);
                assert(seq![Seq::<char>::empty()].update(0, Seq::<char>::empty() + seq!['.']) =~= seq![seq!['.']]);
                lemma_pieces_push(Seq::<Seq<char>>::empty(), seq!['.']);
                assert(seq![seq!['.']] =~= Seq::<Seq<char>>::empty().push(seq!['.']));
                assert(!seq!['.'].contains('/')) by {
                    if seq!['.'].contains('/') {
                        let k = choose|k: int| 0 <= k < 1 && seq!['.'][k] == '/';
                    }
                }
                assert(parse_spec(render_spec(p)) =~= p);
            } else {
                lemma_part_text(x);
                let b = part_text(x);
                lemma_split_no_slash(Seq::<char>::empty(), b);
                assert(Seq::<char>::empty() + b =~= b);
                assert(seq![Seq::<char>::empty()].update(0, Seq::<char>::empty() + b) =~= seq![b]);
                lemma_pieces_push(Seq::<Seq<char>>::empty(), b);
                assert(seq![b] =~= Seq::<Seq<char>>::empty().push(b));
                lemma_render_nonempty(p);
                assert(lead_parts(b) =~= Seq::<PathPart>::empty());
                assert(parse_spec(render_spec(p)) =~= p);
            }
        } else {
            lemma_render_parse(q);
            lemma_render_nonempty(q);
            lemma_render_nonempty(p);
            assert(p[0] == q[0]);
            assert(seq![p[0]] =~= seq![q[0]]);
            assert(x !is Root && x !is Cur);
            lemma_part_text(x);
            let t = render_spec(q);
            let b = part_text(x);
            if q.len() == 1 && q[0] is Root {
                assert(sep_after(q) =~= Seq::<char>::empty());
                assert(t =~= seq!['/']) by {
                    let e = q.drop_last();
                    assert(e.len() == 0);
                    assert(render_spec(e) =~= Seq::<char>::empty());
                    assert(sep_after(e) =~= Seq::<char>::empty());
                    assert(t == render_spec(e) + sep_after(e) + part_text(q.last()));
                }
                assert(render_spec(p) =~= seq!['/'] + b);
                lemma_split_after_slash(Seq::<char>::empty(), b);
                assert(Seq::<char>::empty() + seq!['/'] + b =~= seq!['/'] + b);
                assert(split_slash(render_spec(p)) == split_slash(Seq::<char>::empty()).push(b));
                lemma_pieces_push(split_slash(Seq::<char>::empty()), b);
                lemma_pieces_push(Seq::<Seq<char>>::empty(), Seq::<char>::empty());
                assert(seq![Seq::<char>::empty()] =~= Seq::<Seq<char>>::empty().push(Seq::<char>::empty()));
                assert(lead_parts(render_spec(p)) =~= seq![PathPart::Root]);
                assert(parse_spec(render_spec(p)) =~= p);
            } else {
                assert(sep_after(q) == seq!['/']);
                assert(render_spec(p) =~= t + seq!['/'] + b);
                lemma_split_after_slash(t, b);
                lemma_pieces_push(split_slash(t), b);
                assert(parse_spec(render_spec(p)) =~= parse_spec(t) + seq![x]);
                assert(p =~= q.push(x));
            }
        }
    }
}


proof fn lemma_split_pieces_no_slash(s: Seq<char>)
    ensures
        forall|i: int|
            0 <= i < split_slash(s).len() ==> !(#[trigger] split_slash(s)[i]).contains('/'),
    decreases s.len(),
{
    if s.len() > 0 {
        lemma_split_pieces_no_slash(s.drop_last());
        lemma_split_nonempty(s.drop_last());
        let p = split_slash(s.drop_last());
        if s.last() != '/' {
            let l = p.last().push(s.last());
            assert(!l.contains('/')) by {
                if l.contains('/') {
                    let k = choose|k: int| 0 <= k < l.len() && l[k] == '/';
                    if k < l.len() - 1 {
                        assert(p.last()[k] == '/');
                        assert(p[p.len() - 1] == p.last());
                    }
                }
            }
            assert forall|i: int| 0 <= i < split_slash(s).len() implies !(
            #[trigger] split_slash(s)[i]).contains('/') by {
                if i < p.len() - 1 {
                    assert(split_slash(s)[i] == p[i]);
                }
            }
        } else {
            assert forall|i: int| 0 <= i < split_slash(s).len() implies !(
            #[trigger] split_slash(s)[i]).contains('/') by {
                if i < p.len() {
                    assert(split_slash(s)[i] == p[i]);
                } else {
                    assert(split_slash(s)[i] =~= Seq::<char>::empty());
                }
            }
        }
    }
}

proof fn lemma_pieces_parts_ok(pieces: Seq<Seq<char>>)
    requires
        forall|i: int| 0 <= i < pieces.len() ==> !(#[trigger] pieces[i]).contains('/'),
    ensures
        forall|j: int|
            0 <= j < pieces_parts(pieces).len() ==> (#[trigger] pieces_parts(pieces)[j] is Parent
                || (pieces_parts(pieces)[j] is Normal && name_ok(
                pieces_parts(pieces)[j]->Normal_0,
            ))),
    decreases pieces.len(),
{
    if pieces.len() > 0 {
        let q = pieces.drop_last();
        assert forall|i: int| 0 <= i < q.len() implies !(#[trigger] q[i]).contains('/') by {
            assert(q[i] == pieces[i]);
        }
        lemma_pieces_parts_ok(q);
        assert(!pieces[pieces.len() - 1].contains('/'));
        let a = pieces_parts(q);
        let b = piece_parts(pieces.last());
        assert forall|j: int| 0 <= j < (a + b).len() implies (#[trigger] (a + b)[j] is Parent || (
        (a + b)[j] is Normal && name_ok((a + b)[j]->Normal_0))) by {
            if j < a.len() {
                assert((a + b)[j] == a[j]);
            } else {
                assert((a + b)[j] == b[j - a.len()]);
            }
        }
    }
}

/// Reading any text as a path gives valid components: a root or a leading `.` only
/// first, and plain names that hold no `/` and are not `.` or `..`.
pub proof fn lemma_parse_wf(s: Seq<char>)
    ensures wf_parts(parse_spec(s)),
{
    lemma_split_pieces_no_slash(s);
    lemma_pieces_parts_ok(split_slash(s));
    let l = lead_parts(s);
    let b = pieces_parts(split_slash(s));
    assert forall|i: int| 0 <= i < (l + b).len() implies part_ok(#[trigger] (l + b)[i], i) by {
        if i >= l.len() {
            assert((l + b)[i] == b[i - l.len()]);
        }
    }
}

proof fn lemma_clean_is_clean(p: Seq<PathPart>)
    ensures is_clean(clean_spec(p)),
    decreases p.len(),
{
    if p.len() > 0 {
        lemma_clean_is_clean(p.drop_last());
        let acc = clean_spec(p.drop_last());
        let r = clean_spec(p);
        assert forall|i: int| 0 <= i < r.len() implies (#[trigger] r[i] is Normal || (i == 0
            && r[i] is Root)) by {
            if !(p.last() is Root) && i < acc.len() {
                assert(r[i] == acc[i]);
            }
        }
    }
}

/// Cleaning leaves a path with no `.` or `..` (a root only first) as it is.
pub proof fn lemma_clean_fixed(p: Seq<PathPart>)
    requires is_clean(p),
    ensures clean_spec(p) == p,
    decreases p.len(),
{
    if p.len() > 0 {
        let q = p.drop_last();
        assert(is_clean(q)) by {
            assert forall|i: int| 0 <= i < q.len() implies (#[trigger] q[i] is Normal || (i == 0
                && q[i] is Root)) by {
                assert(q[i] == p[i]);
            }
        }
        lemma_clean_fixed(q);
        assert(p[p.len() - 1] is Normal || (p.len() - 1 == 0 && p[p.len() - 1] is Root));
        if p.last() is Root {
            assert(p =~= seq![PathPart::Root]);
        } else {
            assert(p =~= q.push(p.last()));
        }
    }
}

/// Cleaning a path leaves no `.` or `..` in it, and cleaning it again changes nothing.
pub proof fn lemma_clean_idempotent(p: Seq<PathPart>)
    ensures
        is_clean(clean_spec(p)),
        clean_spec(clean_spec(p)) == clean_spec(p),
{
    lemma_clean_is_clean(p);
    lemma_clean_fixed(clean_spec(p));
}

/// Cleaning leaves a path that has no `.` or `..` component as it is.
pub proof fn lemma_clean_keeps_plain(p: Seq<PathPart>)
    requires
        wf_parts(p),
        forall|i: int| 0 <= i < p.len() ==> !(#[trigger] p[i] is Cur) && !(p[i] is Parent),
    ensures clean_spec(p) == p,
{
    assert(is_clean(p)) by {
        assert forall|i: int| 0 <= i < p.len() implies (#[trigger] p[i] is Normal || (i == 0
            && p[i] is Root)) by {
            assert(part_ok(p[i], i));
        }
    }
    lemma_clean_fixed(p);
}

/// A file name is its stem, a `.` and its extension, when it has an extension.
pub proof fn lemma_stem_extension(name: Seq<char>)
    ensures
        extension_of(name) matches Some(e) ==> name == stem_of(name) + seq!['.'] + e,
        extension_of(name) is None ==> stem_of(name) == name,
{
    lemma_last_dot_bound(name);
    if last_dot(name) > 0 {
        let k = last_dot(name);
        assert(name =~= name.subrange(0, k) + seq!['.'] + name.subrange(k + 1, name.len() as int));
    }
}

} // verus!
