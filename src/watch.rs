//! Classification of changed paths under the watched mod folder, and the
//! set of pending events.
use vstd::prelude::*;
use vstd::string::StringExecFns;
use crate::text::texts;

verus! {

/// A path as the sequence of its components.
pub open spec fn path_of(p: Vec<String>) -> Seq<Seq<char>> {
    texts(p@)
}

/// Whether `path` lies under the folder `dir` (component by component).
pub open spec fn under(path: Seq<Seq<char>>, dir: Seq<Seq<char>>) -> bool {
    dir.len() <= path.len() && path.take(dir.len() as int) == dir
}

/// What a change at a path asks for.
#[derive(Debug, Clone, Copy, PartialEq, Eq, Structural)]
pub enum PathClass {
    /// Something the build reads changed: rebuild.
    Rebuild,
    /// A source texture changed: convert it.
    ConvertTexture,
    /// Nothing to do.
    Ignore,
}

/// The class of a change at `path` under `root`: under `assets` or `temp`
/// asks for a rebuild (checked first), under `textures` for a conversion.
pub open spec fn class_of(root: Seq<Seq<char>>, path: Seq<Seq<char>>) -> PathClass {
    if under(path, root.push("assets"@)) || under(path, root.push("temp"@)) {
        PathClass::Rebuild
    } else if under(path, root.push("textures"@)) {
        PathClass::ConvertTexture
    } else {
        PathClass::Ignore
    }
}

/// Whether two paths are the same, component by component.
pub fn same_path(a: &Vec<String>, b: &Vec<String>) -> (r: bool)
    ensures
        r == (path_of(*a) == path_of(*b)),
{
    if a.len() != b.len() {
        assert(path_of(*a).len() != path_of(*b).len());
        return false;
    }
    let mut i: usize = 0;
    while i < a.len()
        invariant
            a.len() == b.len(),
            i <= a.len(),
            forall|k: int| 0 <= k < i ==> a@[k]@ == b@[k]@,
        decreases a.len() - i,
    {
        if a[i] != b[i] {
            assert(path_of(*a)[i as int] != path_of(*b)[i as int]);
            return false;
        }
        i = i + 1;
    }
    assert(path_of(*a) =~= path_of(*b));
    true
}

/// Whether `path` lies under `root` joined with `sub`.
fn under_sub(root: &Vec<String>, sub: &str, path: &Vec<String>) -> (r: bool)
    ensures
        r == under(path_of(*path), path_of(*root).push(sub@)),
{
    let n = root.len();
    if n >= path.len() {
        return false;
    }
    let mut i: usize = 0;
    while i < n
        invariant
            n == root.len() < path.len(),
            i <= n,
            forall|k: int| 0 <= k < i ==> path@[k]@ == root@[k]@,
        decreases n - i,
    {
        if path[i] != root[i] {
            assert(path_of(*path).take(n + 1)[i as int] != path_of(*root).push(sub@)[i as int]);
            return false;
        }
        i = i + 1;
    }
    let s = String::from_str(sub);
    let last = path[n] == s;
    proof {
        let want = path_of(*root).push(sub@);
        if last {
            assert(path_of(*path).take(n + 1) =~= want);
        } else {
            assert(path_of(*path).take(n + 1)[n as int] != want[n as int]);
        }
    }
    last
}

/// The class of a change at `path` under `root`.
pub fn classify(root: &Vec<String>, path: &Vec<String>) -> (r: PathClass)
    ensures
        r == class_of(path_of(*root), path_of(*path)),
{
    if under_sub(root, "assets", path) || under_sub(root, "temp", path) {
        PathClass::Rebuild
    } else if under_sub(root, "textures", path) {
        PathClass::ConvertTexture
    } else {
        PathClass::Ignore
    }
}

fn contains_path(v: &Vec<Vec<String>>, p: &Vec<String>) -> (r: bool)
    ensures
        r == paths_of(v@).contains(path_of(*p)),
{
    let mut i: usize = 0;
    while i < v.len()
        invariant
            i <= v.len(),
            forall|k: int| 0 <= k < i ==> paths_of(v@)[k] != path_of(*p),
        decreases v.len() - i,
    {
        if same_path(&v[i], p) {
            assert(paths_of(v@)[i as int] == path_of(*p));
            return true;
        }
        i = i + 1;
    }
    false
}

/// A pending event: a texture to convert, or a rebuild.
#[derive(Debug, Clone)]
pub enum FileUpdateMessage {
    ParseDDS(Vec<String>),
    Rebuild,
}

/// What the watcher holds: the watched root, whether a rebuild is pending,
/// and the textures waiting for conversion, each once.
pub struct WatcherView {
    pub current: Option<Seq<Seq<char>>>,
    pub rebuild: bool,
    pub textures: Seq<Seq<Seq<char>>>,
}

/// What the watcher asks of the change notifier.
#[derive(Debug, Clone)]
pub enum WatchAction {
    /// Already watching that folder: nothing changes.
    Keep,
    /// Stop watching `unwatch` (if any), then watch the new folder recursively.
    Switch { unwatch: Option<Vec<String>> },
}

/// The watched root and the events collected under it.
#[derive(Debug)]
pub struct FileWatcher {
    current: Option<Vec<String>>,
    rebuild: bool,
    textures: Vec<Vec<String>>,
}

pub open spec fn paths_of(v: Seq<Vec<String>>) -> Seq<Seq<Seq<char>>> {
    v.map_values(|p: Vec<String>| path_of(p))
}

pub open spec fn opt_path(p: Option<Vec<String>>) -> Option<Seq<Seq<char>>> {
    match p {
        Some(q) => Some(path_of(q)),
        None => None,
    }
}

impl View for FileWatcher {
    type V = WatcherView;

    closed spec fn view(&self) -> WatcherView {
        WatcherView { current: opt_path(self.current), rebuild: self.rebuild, textures: paths_of(self.textures@) }
    }
}

/// The pending events once a change at `path` has been recorded.
pub open spec fn recorded(w: WatcherView, path: Seq<Seq<char>>) -> WatcherView {
    match w.current {
        None => w,
        Some(root) => match class_of(root, path) {
            PathClass::Rebuild => WatcherView { rebuild: true, ..w },
            PathClass::ConvertTexture => if w.textures.contains(path) {
                w
            } else {
                WatcherView { textures: w.textures.push(path), ..w }
            },
            PathClass::Ignore => w,
        },
    }
}

/// The events as they are handed out: the rebuild first, then the textures.
pub open spec fn events_of(w: WatcherView) -> Seq<Option<Seq<Seq<char>>>> {
    (if w.rebuild { seq![None] } else { Seq::empty() }) + w.textures.map_values(
        |p: Seq<Seq<char>>| Some(p),
    )
}

/// An event as `events_of` writes it: `None` for a rebuild.
pub open spec fn event_view(e: FileUpdateMessage) -> Option<Seq<Seq<char>>> {
    match e {
        FileUpdateMessage::ParseDDS(p) => Some(path_of(p)),
        FileUpdateMessage::Rebuild => None,
    }
}

impl FileWatcher {
    /// A watcher of nothing, with no event.
    pub fn new() -> (r: FileWatcher)
        ensures
            r@ == (WatcherView { current: None, rebuild: false, textures: Seq::empty() }),
    {
        let r = FileWatcher { current: None, rebuild: false, textures: Vec::new() };
        assert(paths_of(r.textures@) =~= Seq::empty());
        r
    }

    /// Watches `path`: nothing changes when it is already the watched root;
    /// otherwise the previous root is left, its events are dropped, and
    /// `path` becomes the root.
    pub fn watch(&mut self, path: Vec<String>) -> (r: WatchAction)
        ensures
            old(self)@.current == Some(path_of(path)) ==> r is Keep && final(self)@ == old(self)@,
            old(self)@.current != Some(path_of(path)) ==> (match r {
                    WatchAction::Switch { unwatch } => opt_path(unwatch) == old(self)@.current,
                    WatchAction::Keep => false,
                })
                && final(self)@ == (WatcherView { current: Some(path_of(path)), rebuild: false, textures: Seq::empty() }),
    {
        let same = match &self.current {
            Some(p) => same_path(p, &path),
            None => false,
        };
        if same {
            return WatchAction::Keep;
        }
        let old_root = self.current.take();
        self.current = Some(path);
        self.rebuild = false;
        self.textures = Vec::new();
        assert(paths_of(self.textures@) =~= Seq::empty());
        WatchAction::Switch { unwatch: old_root }
    }

    /// Stops watching: returns the root to leave, and drops pending events.
    pub fn close(&mut self) -> (r: Option<Vec<String>>)
        ensures
            opt_path(r) == old(self)@.current,
            final(self)@ == (WatcherView { current: None, rebuild: false, textures: Seq::empty() }),
    {
        let r = self.current.take();
        self.rebuild = false;
        self.textures = Vec::new();
        assert(paths_of(self.textures@) =~= Seq::empty());
        r
    }

    /// Records a change at `path`, classified under the watched root.
    pub fn record(&mut self, path: Vec<String>)
        ensures
            final(self)@ == recorded(old(self)@, path_of(path)),
            old(self)@.textures.no_duplicates() ==> final(self)@.textures.no_duplicates(),
    {
        let class = match &self.current {
            Some(root) => classify(root, &path),
            None => PathClass::Ignore,
        };
        match class {
            PathClass::Rebuild => {
                self.rebuild = true;
            },
            PathClass::ConvertTexture => {
                if !contains_path(&self.textures, &path) {
                    let ghost before = self.textures@;
                    self.textures.push(path);
                    assert(paths_of(self.textures@) =~= paths_of(before).push(path_of(path)));
                    proof {
                        let r = paths_of(self.textures@);
                        let old_t = paths_of(before);
                        if old_t.no_duplicates() {
                            assert forall|i: int, j: int| 0 <= i < r.len() && 0 <= j < r.len() && i != j implies r[i] != r[j] by {
                                if i == old_t.len() {
                                    assert(old_t[j] != path_of(path));
                                } else if j == old_t.len() {
                                    assert(old_t[i] != path_of(path));
                                }
                            }
                        }
                    }
                }
            },
            PathClass::Ignore => {},
        }
    }

    /// Takes every pending event, the rebuild first, leaving none.
    pub fn get(&mut self) -> (r: Vec<FileUpdateMessage>)
        ensures
            r@.map_values(|e: FileUpdateMessage| event_view(e)) == events_of(old(self)@),
            final(self)@ == (WatcherView { current: old(self)@.current, rebuild: false, textures: Seq::empty() }),
    {
        let mut r: Vec<FileUpdateMessage> = Vec::new();
        if self.rebuild {
            r.push(FileUpdateMessage::Rebuild);
        }
        let ghost head = r@.map_values(|e: FileUpdateMessage| event_view(e));
        assert(head =~= if old(self)@.rebuild { seq![None] } else { Seq::empty() });
        let mut textures: Vec<Vec<String>> = Vec::new();
        std::mem::swap(&mut textures, &mut self.textures);
        let ghost tv = paths_of(textures@);
        assert(tv == old(self)@.textures);
        let start = r.len();
        let mut i: usize = 0;
        for p in it: textures
            invariant
                start == head.len(),
                tv == paths_of(it.seq()),
                r.len() == start + it.index(),
                r@.map_values(|e: FileUpdateMessage| event_view(e)) == head + tv.take(it.index() as int).map_values(
                    |p: Seq<Seq<char>>| Some(p),
                ),
        {
            let ghost before = r@;
            r.push(FileUpdateMessage::ParseDDS(p));
            proof {
                let k = it.index();
                assert(path_of(p) == tv[k as int]);
                assert(tv.take(k + 1).map_values(|p: Seq<Seq<char>>| Some(p))
                    =~= tv.take(k as int).map_values(|p: Seq<Seq<char>>| Some(p)).push(Some(tv[k as int])));
                assert(r@.map_values(|e: FileUpdateMessage| event_view(e))
                    =~= before.map_values(|e: FileUpdateMessage| event_view(e)).push(Some(tv[k as int])));
            }
        }
        assert(tv.take(tv.len() as int) =~= tv);
        self.rebuild = false;
        assert(paths_of(self.textures@) =~= Seq::empty());
        r
    }
}

} // verus!
