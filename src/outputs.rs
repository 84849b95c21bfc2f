use vstd::prelude::*;
use crate::path::RelativePath;

verus! {

/// A path as its components.
pub type PathView = Seq<Seq<u8>>;

/// `prefix` is `p` itself or one of the directories above it.
pub open spec fn is_prefix(prefix: PathView, p: PathView) -> bool {
    prefix.len() <= p.len() && p.subrange(0, prefix.len() as int) == prefix
}

/// The component views of a list of paths.
pub open spec fn path_views(paths: Seq<RelativePath>) -> Seq<PathView> {
    paths.map_values(|p: RelativePath| p@)
}

/// The directories to create before a process starts, so that each declared
/// output can be written without creating its parents first: the containing
/// directory of every declared path that has one, files first.
pub open spec fn dirs_to_create_of(paths: Seq<PathView>) -> Seq<PathView>
    decreases paths.len(),
{
    if paths.len() == 0 {
        seq![]
    } else if paths.last().len() > 1 {
        dirs_to_create_of(paths.drop_last()).push(paths.last().drop_last())
    } else {
        dirs_to_create_of(paths.drop_last())
    }
}

/// Lists the directories that must exist before the process runs.
pub fn dirs_to_create(files: &Vec<RelativePath>, dirs: &Vec<RelativePath>) -> (r: Vec<RelativePath>)
    ensures
        path_views(r@) == dirs_to_create_of(path_views(files@) + path_views(dirs@)),
{
    let mut out: Vec<RelativePath> = Vec::new();
    assert(path_views(out@) =~= dirs_to_create_of(Seq::empty()));
    push_containing_dirs(&mut out, files, Ghost(Seq::empty()));
    assert(Seq::<PathView>::empty() + path_views(files@) =~= path_views(files@));
    push_containing_dirs(&mut out, dirs, Ghost(path_views(files@)));
    out
}

/// Appends the containing directories of `paths`, continuing the list made
/// for the paths in `earlier`.
fn push_containing_dirs(
    out: &mut Vec<RelativePath>,
    paths: &Vec<RelativePath>,
    Ghost(earlier): Ghost<Seq<PathView>>,
)
    requires
        path_views(old(out)@) == dirs_to_create_of(earlier),
    ensures
        path_views(final(out)@) == dirs_to_create_of(earlier + path_views(paths@)),
{
    let ghost views = path_views(paths@);
    let mut k: usize = 0;
    while k < paths.len()
        invariant
            views == path_views(paths@),
            k <= paths@.len(),
            path_views(out@) == dirs_to_create_of(earlier + views.take(k as int)),
        decreases paths.len() - k,
    {
        let p = &paths[k];
        assert((earlier + views.take(k + 1)).drop_last() =~= earlier + views.take(k as int));
        assert((earlier + views.take(k + 1)).last() == p@);
        let ghost before = path_views(out@);
        match p.containing_dir() {
            Some(d) => {
                out.push(d);
                assert(path_views(out@) =~= before.push(p@.drop_last()));
            },
            None => {},
        }
        k = k + 1;
    }
    assert(views.take(paths@.len() as int) =~= views);
}

/// Every declared output path below the top level has its containing
/// directory among those created before the process runs.
pub proof fn lemma_containing_dirs_created(paths: Seq<PathView>, i: int)
    requires
        0 <= i < paths.len(),
        paths[i].len() > 1,
    ensures
        dirs_to_create_of(paths).contains(paths[i].drop_last()),
    decreases paths.len(),
{
    if i == paths.len() - 1 {
        let r = dirs_to_create_of(paths);
        assert(r[r.len() - 1] == paths[i].drop_last());
    } else {
        lemma_containing_dirs_created(paths.drop_last(), i);
        let prev = dirs_to_create_of(paths.drop_last());
        let j = choose|j: int| 0 <= j < prev.len() && prev[j] == paths[i].drop_last();
        if paths.last().len() > 1 {
            assert(dirs_to_create_of(paths)[j] == prev[j]);
        }
    }
}

/// What exists under the sandbox root after the process ended: a path and
/// whether it is a directory.
#[derive(Debug)]
pub struct OutputEntry {
    pub path: RelativePath,
    pub is_dir: bool,
}

/// An entry as its path and its directory flag.
pub type EntryView = (PathView, bool);

impl View for OutputEntry {
    type V = EntryView;

    open spec fn view(&self) -> EntryView {
        (self.path@, self.is_dir)
    }
}

/// The views of a list of entries.
pub open spec fn entry_views(entries: Seq<OutputEntry>) -> Seq<EntryView> {
    entries.map_values(|e: OutputEntry| e@)
}

/// No two entries share a path, as in a listing of one directory tree.
pub open spec fn unique_paths(entries: Seq<EntryView>) -> bool {
    forall|i: int, j: int|
        0 <= i < entries.len() && 0 <= j < entries.len() && i != j ==> entries[i].0
            != entries[j].0
}

/// An entry lies in one of the declared output directories (or is one).
pub open spec fn in_declared_dir(p: PathView, dirs: Seq<PathView>) -> bool {
    exists|i: int| 0 <= i < dirs.len() && is_prefix(dirs[i], p)
}

/// An entry belongs to the outputs: a file declared as an output file, or
/// anything inside a declared output directory.
pub open spec fn selected(e: EntryView, files: Seq<PathView>, dirs: Seq<PathView>) -> bool {
    (!e.1 && files.contains(e.0)) || in_declared_dir(e.0, dirs)
}

/// The entries captured as outputs, in the order they were found. Declared
/// paths that do not exist simply do not appear.
pub open spec fn captured_of(
    entries: Seq<EntryView>,
    files: Seq<PathView>,
    dirs: Seq<PathView>,
) -> Seq<EntryView>
    decreases entries.len(),
{
    if entries.len() == 0 {
        seq![]
    } else if selected(entries.last(), files, dirs) {
        captured_of(entries.drop_last(), files, dirs).push(entries.last())
    } else {
        captured_of(entries.drop_last(), files, dirs)
    }
}

/// Whether two byte strings are equal.
fn bytes_equal(a: &Vec<u8>, b: &Vec<u8>) -> (r: bool)
    ensures
        r == (a@ == b@),
{
    if a.len() != b.len() {
        return false;
    }
    let mut i: usize = 0;
    while i < a.len()
        invariant
            a@.len() == b@.len(),
            i <= a@.len(),
            a@.take(i as int) == b@.take(i as int),
        decreases a.len() - i,
    {
        if a[i] != b[i] {
            return false;
        }
        assert(a@.take(i + 1) =~= a@.take(i as int).push(a@[i as int]));
        assert(b@.take(i + 1) =~= b@.take(i as int).push(b@[i as int]));
        i = i + 1;
    }
    assert(a@.take(a@.len() as int) =~= a@);
    assert(b@.take(b@.len() as int) =~= b@);
    true
}

/// Whether `prefix` is `p` or a directory above it.
pub fn has_prefix(p: &RelativePath, prefix: &RelativePath) -> (r: bool)
    ensures
        r == is_prefix(prefix@, p@),
{
    if prefix.components.len() > p.components.len() {
        return false;
    }
    let mut k: usize = 0;
    while k < prefix.components.len()
        invariant
            prefix@.len() <= p@.len(),
            k <= prefix@.len(),
            p@.subrange(0, k as int) == prefix@.take(k as int),
        decreases prefix.components.len() - k,
    {
        if !bytes_equal(&p.components[k], &prefix.components[k]) {
            assert(p@.subrange(0, prefix@.len() as int)[k as int] == p@[k as int]);
            return false;
        }
        assert(p@.subrange(0, k + 1) =~= p@.subrange(0, k as int).push(p@[k as int]));
        assert(prefix@.take(k + 1) =~= prefix@.take(k as int).push(prefix@[k as int]));
        k = k + 1;
    }
    assert(prefix@.take(prefix@.len() as int) =~= prefix@);
    true
}

/// Whether two paths are the same.
pub fn same_path(a: &RelativePath, b: &RelativePath) -> (r: bool)
    ensures
        r == (a@ == b@),
{
    let r = a.components.len() == b.components.len() && has_prefix(a, b);
    proof {
        assert(a@.len() == a.components@.len() && b@.len() == b.components@.len());
        if a@.len() == b@.len() && is_prefix(b@, a@) {
            assert(a@ =~= a@.subrange(0, b@.len() as int));
        }
        if a@ == b@ {
            assert(a@.subrange(0, b@.len() as int) =~= b@);
        }
    }
    r
}

/// Whether `p` is one of the declared output files.
fn is_declared_file(p: &RelativePath, files: &Vec<RelativePath>) -> (r: bool)
    ensures
        r == path_views(files@).contains(p@),
{
    let mut k: usize = 0;
    while k < files.len()
        invariant
            k <= files@.len(),
            forall|i: int| 0 <= i < k ==> files@[i]@ != p@,
        decreases files.len() - k,
    {
        if same_path(p, &files[k]) {
            assert(path_views(files@)[k as int] == p@);
            return true;
        }
        k = k + 1;
    }
    proof {
        if path_views(files@).contains(p@) {
            let i = choose|i: int| 0 <= i < files@.len() && path_views(files@)[i] == p@;
            assert(files@[i]@ == p@);
        }
    }
    false
}

/// Whether `p` lies in one of the declared output directories.
fn is_in_declared_dir(p: &RelativePath, dirs: &Vec<RelativePath>) -> (r: bool)
    ensures
        r == in_declared_dir(p@, path_views(dirs@)),
{
    let mut k: usize = 0;
    while k < dirs.len()
        invariant
            k <= dirs@.len(),
            forall|i: int| 0 <= i < k ==> !is_prefix(#[trigger] path_views(dirs@)[i], p@),
        decreases dirs.len() - k,
    {
        if has_prefix(p, &dirs[k]) {
            assert(path_views(dirs@)[k as int] == dirs@[k as int]@);
            return true;
        }
        assert(path_views(dirs@)[k as int] == dirs@[k as int]@);
        k = k + 1;
    }
    false
}

/// Selects, from what exists after the run, the entries that the declared
/// output files and directories capture.
pub fn capture_outputs(
    existing: &Vec<OutputEntry>,
    files: &Vec<RelativePath>,
    dirs: &Vec<RelativePath>,
) -> (r: Vec<OutputEntry>)
    ensures
        entry_views(r@) == captured_of(
            entry_views(existing@),
            path_views(files@),
            path_views(dirs@),
        ),
{
    let ghost fs = path_views(files@);
    let ghost ds = path_views(dirs@);
    let ghost all = entry_views(existing@);
    let mut out: Vec<OutputEntry> = Vec::new();
    let mut k: usize = 0;
    while k < existing.len()
        invariant
            fs == path_views(files@),
            ds == path_views(dirs@),
            all == entry_views(existing@),
            k <= existing@.len(),
            entry_views(out@) == captured_of(all.take(k as int), fs, ds),
        decreases existing.len() - k,
    {
        let e = &existing[k];
        assert(all.take(k + 1).drop_last() =~= all.take(k as int));
        assert(all.take(k + 1).last() == e@);
        let keep = (!e.is_dir && is_declared_file(&e.path, files)) || is_in_declared_dir(
            &e.path,
            dirs,
        );
        if keep {
            let ghost before = entry_views(out@);
            out.push(OutputEntry { path: e.path.duplicate(), is_dir: e.is_dir });
            assert(entry_views(out@) =~= before.push(e@));
        }
        k = k + 1;
    }
    assert(all.take(existing@.len() as int) =~= all);
    out
}

/// Every captured entry exists and is selected.
pub proof fn lemma_captured_from(
    entries: Seq<EntryView>,
    files: Seq<PathView>,
    dirs: Seq<PathView>,
    x: EntryView,
)
    requires
        captured_of(entries, files, dirs).contains(x),
    ensures
        entries.contains(x),
        selected(x, files, dirs),
    decreases entries.len(),
{
    let prev = captured_of(entries.drop_last(), files, dirs);
    if prev.contains(x) {
        lemma_captured_from(entries.drop_last(), files, dirs, x);
        let i = choose|i: int| 0 <= i < entries.len() - 1 && entries.drop_last()[i] == x;
        assert(entries[i] == x);
    } else {
        let c = captured_of(entries, files, dirs);
        let i = choose|i: int| 0 <= i < c.len() && c[i] == x;
        if selected(entries.last(), files, dirs) {
            if i < prev.len() {
                assert(prev[i] == x);
            }
        } else {
            assert(prev[i] == x);
        }
        assert(entries[entries.len() - 1] == x);
    }
}

/// Every existing entry that is selected is captured.
pub proof fn lemma_selected_captured(
    entries: Seq<EntryView>,
    files: Seq<PathView>,
    dirs: Seq<PathView>,
    i: int,
)
    requires
        0 <= i < entries.len(),
        selected(entries[i], files, dirs),
    ensures
        captured_of(entries, files, dirs).contains(entries[i]),
    decreases entries.len(),
{
    let c = captured_of(entries, files, dirs);
    if i == entries.len() - 1 {
        assert(c[c.len() - 1] == entries[i]);
    } else {
        lemma_selected_captured(entries.drop_last(), files, dirs, i);
        let prev = captured_of(entries.drop_last(), files, dirs);
        let j = choose|j: int| 0 <= j < prev.len() && prev[j] == entries[i];
        if selected(entries.last(), files, dirs) {
            assert(c[j] == prev[j]);
        }
    }
}

/// Capturing keeps paths unique.
pub proof fn lemma_captured_unique(
    entries: Seq<EntryView>,
    files: Seq<PathView>,
    dirs: Seq<PathView>,
)
    requires
        unique_paths(entries),
    ensures
        unique_paths(captured_of(entries, files, dirs)),
    decreases entries.len(),
{
    if entries.len() > 0 {
        let rest = entries.drop_last();
        assert(unique_paths(rest)) by {
            assert forall|i: int, j: int|
                0 <= i < rest.len() && 0 <= j < rest.len() && i != j implies rest[i].0
                != rest[j].0 by {
                assert(rest[i] == entries[i] && rest[j] == entries[j]);
            }
        }
        lemma_captured_unique(rest, files, dirs);
        let prev = captured_of(rest, files, dirs);
        if selected(entries.last(), files, dirs) {
            let c = captured_of(entries, files, dirs);
            assert forall|i: int, j: int|
                0 <= i < c.len() && 0 <= j < c.len() && i != j implies c[i].0 != c[j].0 by {
                if i < prev.len() && j < prev.len() {
                    assert(c[i] == prev[i] && c[j] == prev[j]);
                } else {
                    let k = if i < prev.len() { i } else { j };
                    assert(c[k] == prev[k]);
                    assert(prev.contains(prev[k]));
                    lemma_captured_from(rest, files, dirs, prev[k]);
                    let m = choose|m: int| 0 <= m < rest.len() && rest[m] == prev[k];
                    assert(entries[m] == prev[k]);
                    assert(entries[entries.len() - 1] != entries[m] || m == entries.len() - 1);
                }
            }
        }
    }
}

/// With no declared output files or directories nothing is captured, whatever
/// the process left behind.
pub proof fn lemma_no_outputs_declared(entries: Seq<EntryView>)
    ensures
        captured_of(entries, seq![], seq![]) == Seq::<EntryView>::empty(),
    decreases entries.len(),
{
    if entries.len() > 0 {
        lemma_no_outputs_declared(entries.drop_last());
        assert(!selected(entries.last(), seq![], seq![]));
    }
}

/// A declared output that was never created is left out of the captured
/// outputs; capturing does not fail on it.
pub proof fn lemma_missing_output_omitted(
    entries: Seq<EntryView>,
    files: Seq<PathView>,
    dirs: Seq<PathView>,
    missing: PathView,
)
    requires
        forall|i: int| 0 <= i < entries.len() ==> entries[i].0 != missing,
    ensures
        forall|i: int|
            0 <= i < captured_of(entries, files, dirs).len() ==> captured_of(
                entries,
                files,
                dirs,
            )[i].0 != missing,
{
    let c = captured_of(entries, files, dirs);
    assert forall|i: int| 0 <= i < c.len() implies c[i].0 != missing by {
        assert(c.contains(c[i]));
        lemma_captured_from(entries, files, dirs, c[i]);
    }
}

/// A file declared as an output and also lying in a declared output directory
/// is captured exactly once, at its own path.
pub proof fn lemma_overlapping_file_once(
    entries: Seq<EntryView>,
    files: Seq<PathView>,
    dirs: Seq<PathView>,
    i: int,
)
    requires
        unique_paths(entries),
        0 <= i < entries.len(),
        !entries[i].1,
        files.contains(entries[i].0),
        in_declared_dir(entries[i].0, dirs),
    ensures
        captured_of(entries, files, dirs).contains(entries[i]),
        unique_paths(captured_of(entries, files, dirs)),
{
    lemma_selected_captured(entries, files, dirs, i);
    lemma_captured_unique(entries, files, dirs);
}

/// With a single declared output file that the process wrote, and nothing
/// else declared, exactly that file is captured.
pub proof fn lemma_single_output_file(entries: Seq<EntryView>, f: PathView, i: int)
    requires
        unique_paths(entries),
        0 <= i < entries.len(),
        entries[i] == (f, false),
    ensures
        captured_of(entries, seq![f], seq![]) == seq![(f, false)],
{
    let files = seq![f];
    let dirs = Seq::<PathView>::empty();
    let c = captured_of(entries, files, dirs);
    assert(files.contains(f)) by {
        assert(files[0] == f);
    }
    assert(selected(entries[i], files, dirs));
    lemma_selected_captured(entries, files, dirs, i);
    lemma_captured_unique(entries, files, dirs);
    assert forall|k: int| 0 <= k < c.len() implies c[k] == (f, false) by {
        assert(c.contains(c[k]));
        lemma_captured_from(entries, files, dirs, c[k]);
        let m = choose|m: int| 0 <= m < files.len() && files[m] == c[k].0;
        assert(files[m] == f);
    }
    if c.len() > 1 {
        assert(c[0].0 == c[1].0);
    }
    assert(c =~= seq![(f, false)]);
}

} // verus!
