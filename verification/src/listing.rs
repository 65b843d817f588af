//! How a directory becomes a listing: folders first, in the order of their
//! paths; then files, newest first; then, anywhere but at the root, the two
//! ways out.

use crate::entity::{
    entities_view, entries_view, Action, DirEntry, DirEntryView, EntityView, EntryKind,
    ManagerEntity,
};
use crate::order::{
    lemma_sorted_ordered, lemma_sorted_permutes, lemma_sorted_stable, lemma_total_is_weak,
    ordered, place_index, sorted, strict_weak, tied,
};
use crate::path::{lemma_path_order, parent_of, path_before, path_order, Path, PathView};
use vstd::prelude::*;

verus! {

/// By what a part of the listing is sorted.
#[derive(Clone, Copy, Debug, PartialEq, Eq, Structural)]
pub enum SortBy {
    /// Ascending by path.
    Path,
    /// Descending by the time of the last modification.
    Age,
}

/// Whether a time of modification is later than another. An unknown time is
/// earlier than every known one.
pub open spec fn newer(a: Option<i128>, b: Option<i128>) -> bool {
    match (a, b) {
        (Some(x), Some(y)) => x > y,
        (Some(_), None) => true,
        _ => false,
    }
}

/// The order of entries by path.
pub open spec fn by_path() -> spec_fn(DirEntryView, DirEntryView) -> bool {
    |a: DirEntryView, b: DirEntryView| path_before(a.path, b.path)
}

/// The order of entries by age, newest first.
pub open spec fn by_age() -> spec_fn(DirEntryView, DirEntryView) -> bool {
    |a: DirEntryView, b: DirEntryView| newer(a.modified, b.modified)
}

/// The order that a sort key stands for.
pub open spec fn entry_order(by: SortBy) -> spec_fn(DirEntryView, DirEntryView) -> bool {
    match by {
        SortBy::Path => by_path(),
        SortBy::Age => by_age(),
    }
}

/// Picks the entries of one kind.
pub open spec fn of_kind(kind: EntryKind) -> spec_fn(DirEntryView) -> bool {
    |e: DirEntryView| e.kind == kind
}

/// Picks the folders.
pub open spec fn is_folder() -> spec_fn(DirEntryView) -> bool {
    of_kind(EntryKind::Folder)
}

/// Picks the regular files.
pub open spec fn is_file() -> spec_fn(DirEntryView) -> bool {
    of_kind(EntryKind::File)
}

/// The listing item of a folder.
pub open spec fn as_folder() -> spec_fn(DirEntryView) -> EntityView {
    |e: DirEntryView| EntityView::Folder(e.path)
}

/// The listing item of a file.
pub open spec fn as_file() -> spec_fn(DirEntryView) -> EntityView {
    |e: DirEntryView| EntityView::TextFile(e.path)
}

/// The ways out that a listing ends with: none at the root, Back and Root elsewhere.
pub open spec fn actions(is_root: bool) -> Seq<EntityView> {
    if is_root {
        Seq::empty()
    } else {
        seq![EntityView::Action(Action::Back), EntityView::Action(Action::Root)]
    }
}

/// The folders of a directory as they are listed.
pub open spec fn listed_folders(files: Seq<DirEntryView>) -> Seq<DirEntryView> {
    sorted(files.filter(is_folder()), by_path())
}

/// The files of a directory as they are listed.
pub open spec fn listed_files(files: Seq<DirEntryView>) -> Seq<DirEntryView> {
    sorted(files.filter(is_file()), by_age())
}

/// The listing of a directory that holds `files`.
pub open spec fn listing(files: Seq<DirEntryView>, is_root: bool) -> Seq<EntityView> {
    listed_folders(files).map_values(as_folder()) + listed_files(files).map_values(as_file())
        + actions(is_root)
}

/// Whether every entry lies directly in `dir`: one level down from it.
pub open spec fn listed_in(files: Seq<DirEntryView>, dir: PathView) -> bool {
    forall|i: int| 0 <= i < files.len() ==> parent_of((#[trigger] files[i]).path) == Some(dir)
}

/// A listing is well-formed when it ends with the ways out that its place
/// calls for and holds no other.
pub open spec fn well_listed(entities: Seq<EntityView>, is_root: bool) -> bool {
    let n = entities.len() - actions(is_root).len();
    &&& n >= 0
    &&& entities.skip(n) == actions(is_root)
    &&& forall|i: int| 0 <= i < n ==> !(#[trigger] entities[i] is Action)
}

/// Both orders of entries are strict weak orders.
pub proof fn lemma_entry_orders()
    ensures
        strict_weak(by_path()),
        strict_weak(by_age()),
{
    lemma_path_order();
    lemma_total_is_weak(path_order());
    let paths = path_order();
    let entries = by_path();
    assert forall|a: DirEntryView, b: DirEntryView| #[trigger] entries(a, b) implies !entries(
        b,
        a,
    ) by {
        assert(paths(a.path, b.path));
    }
    assert forall|a: DirEntryView, b: DirEntryView, c: DirEntryView|
        !#[trigger] entries(a, b) && !#[trigger] entries(b, c) implies !entries(a, c) by {
        assert(!paths(a.path, b.path) && !paths(b.path, c.path));
    }
}

/// Every listing is well-formed.
pub proof fn lemma_listing_well_listed(files: Seq<DirEntryView>, is_root: bool)
    ensures
        well_listed(listing(files, is_root), is_root),
{
    let body = listed_folders(files).map_values(as_folder()) + listed_files(files).map_values(
        as_file(),
    );
    let all = listing(files, is_root);
    assert(all.skip(body.len() as int) =~= actions(is_root));
    assert forall|i: int| 0 <= i < body.len() implies !(#[trigger] all[i] is Action) by {
        assert(all[i] == body[i]);
    }
}

/// In a listing the folders come first, in the order of their paths, and the
/// files follow, none of them behind an older one.
pub proof fn lemma_listing_order(files: Seq<DirEntryView>, is_root: bool)
    ensures
        ordered(listed_folders(files), by_path()),
        ordered(listed_files(files), by_age()),
        forall|i: int|
            0 <= i < listed_folders(files).len() ==> #[trigger] listing(files, is_root)[i]
                == EntityView::Folder(listed_folders(files)[i].path),
        forall|i: int|
            0 <= i < listed_files(files).len() ==> #[trigger] listing(
                files,
                is_root,
            )[listed_folders(files).len() + i] == EntityView::TextFile(listed_files(files)[i].path),
{
    lemma_entry_orders();
    lemma_sorted_ordered(files.filter(is_folder()), by_path());
    lemma_sorted_ordered(files.filter(is_file()), by_age());
}

/// A listing shows each folder and each regular file of the directory as
/// often as the host named it, and nothing else besides the ways out.
pub proof fn lemma_listing_complete(files: Seq<DirEntryView>, is_root: bool)
    ensures
        listed_folders(files).to_multiset() == files.filter(is_folder()).to_multiset(),
        listed_files(files).to_multiset() == files.filter(is_file()).to_multiset(),
        listing(files, is_root).len() == files.filter(is_folder()).len() + files.filter(
            is_file(),
        ).len() + actions(is_root).len(),
{
    lemma_sorted_permutes(files.filter(is_folder()), by_path());
    lemma_sorted_permutes(files.filter(is_file()), by_age());
}

/// Every file and folder that a listing shows is one of the entries that the
/// host found: where these lie directly in `dir`, so does every item shown.
pub proof fn lemma_listing_paths(files: Seq<DirEntryView>, is_root: bool, dir: PathView)
    requires
        listed_in(files, dir),
    ensures
        forall|i: int|
            0 <= i < listing(files, is_root).len() ==> match #[trigger] listing(files, is_root)[i] {
                EntityView::TextFile(path) => parent_of(path) == Some(dir),
                EntityView::Folder(path) => parent_of(path) == Some(dir),
                EntityView::Action(_) => true,
            },
{
    let folders = listed_folders(files);
    let texts = listed_files(files);
    let all = listing(files, is_root);
    lemma_sorted_permutes(files.filter(is_folder()), by_path());
    lemma_sorted_permutes(files.filter(is_file()), by_age());
    assert forall|i: int| 0 <= i < all.len() implies match #[trigger] all[i] {
        EntityView::TextFile(path) => parent_of(path) == Some(dir),
        EntityView::Folder(path) => parent_of(path) == Some(dir),
        EntityView::Action(_) => true,
    } by {
        if i < folders.len() {
            let e = folders[i];
            assert(all[i] == EntityView::Folder(e.path));
            assert(folders.contains(e));
            vstd::seq_lib::to_multiset_contains(folders, e);
            vstd::seq_lib::to_multiset_contains(files.filter(is_folder()), e);
            files.lemma_filter_contains_rev(is_folder(), e);
            let j = choose|j: int| 0 <= j < files.len() && files[j] == e;
            assert(parent_of(files[j].path) == Some(dir));
        } else if i < folders.len() + texts.len() {
            let e = texts[i - folders.len()];
            assert(all[i] == EntityView::TextFile(e.path));
            assert(texts.contains(e));
            vstd::seq_lib::to_multiset_contains(texts, e);
            vstd::seq_lib::to_multiset_contains(files.filter(is_file()), e);
            files.lemma_filter_contains_rev(is_file(), e);
            let j = choose|j: int| 0 <= j < files.len() && files[j] == e;
            assert(parent_of(files[j].path) == Some(dir));
        } else {
            assert(all[i] == actions(is_root)[i - folders.len() - texts.len()]);
        }
    }
}

/// A listing is stable: files that are equally old, and folders of one path,
/// stand in the order that the host named them in.
pub proof fn lemma_listing_stable(files: Seq<DirEntryView>, e: DirEntryView)
    ensures
        ({
            let as_old = |y: DirEntryView| tied(y, e, by_age());
            let same_path = |y: DirEntryView| tied(y, e, by_path());
            &&& listed_files(files).filter(as_old) == files.filter(is_file()).filter(as_old)
            &&& listed_folders(files).filter(same_path) == files.filter(is_folder()).filter(
                same_path,
            )
        }),
{
    lemma_entry_orders();
    lemma_sorted_stable(files.filter(is_file()), by_age(), e);
    lemma_sorted_stable(files.filter(is_folder()), by_path(), e);
}

/// Where `p` items of `t` go before `x` and the next does not, `p` is the
/// place of `x` in `t`.
proof fn lemma_place_found<T>(x: T, t: Seq<T>, before: spec_fn(T, T) -> bool, p: int)
    requires
        0 <= p <= t.len(),
        forall|i: int| 0 <= i < p ==> before(#[trigger] t[i], x),
        p < t.len() ==> !before(t[p], x),
    ensures
        place_index(x, t, before) == p,
    decreases p,
{
    if p > 0 {
        let rest = t.drop_first();
        assert(before(t[0], x));
        assert forall|i: int| 0 <= i < p - 1 implies before(#[trigger] rest[i], x) by {
            assert(rest[i] == t[i + 1]);
        }
        lemma_place_found(x, rest, before, p - 1);
    }
}

/// Whether `a` goes before `b` by the given key.
pub fn goes_before(a: &DirEntry, b: &DirEntry, by: SortBy) -> (r: bool)
    ensures
        r == entry_order(by)(a@, b@),
{
    match by {
        SortBy::Path => a.path.precedes(&b.path),
        SortBy::Age => match (a.modified, b.modified) {
            (Some(x), Some(y)) => x > y,
            (Some(_), None) => true,
            _ => false,
        },
    }
}

/// Sorts entries by the given key. Entries that the key does not tell apart
/// stay in the order that they came in.
pub fn sort_entries(entries: Vec<DirEntry>, by: SortBy) -> (out: Vec<DirEntry>)
    ensures
        entries_view(out@) == sorted(entries_view(entries@), entry_order(by)),
{
    let ghost all = entries_view(entries@);
    let ghost before = entry_order(by);
    let mut rest = entries;
    let mut out: Vec<DirEntry> = Vec::new();
    assert(all.skip(all.len() as int) =~= Seq::empty());
    while rest.len() > 0
        invariant
            before == entry_order(by),
            rest@.len() <= all.len(),
            entries_view(rest@) == all.take(rest@.len() as int),
            entries_view(out@) == sorted(all.skip(rest@.len() as int), before),
        decreases rest@.len(),
    {
        let ghost tail = all.skip(rest@.len() as int);
        let ghost longer = rest@;
        let x = rest.pop().unwrap();
        let ghost here = all.skip(rest@.len() as int);
        assert(x@ == all[rest@.len() as int]) by {
            assert(entries_view(longer)[rest@.len() as int] == x@);
        }
        assert(here.drop_first() =~= tail);
        assert(entries_view(rest@) =~= all.take(rest@.len() as int));
        let mut p: usize = 0;
        while p < out.len() && goes_before(&out[p], &x, by)
            invariant
                before == entry_order(by),
                p <= out@.len(),
                forall|i: int| 0 <= i < p ==> before(#[trigger] entries_view(out@)[i], x@),
            decreases out@.len() - p,
        {
            p += 1;
        }
        proof {
            lemma_place_found(x@, entries_view(out@), before, p as int);
        }
        let ghost placed = entries_view(out@).insert(p as int, x@);
        out.insert(p, x);
        assert(entries_view(out@) =~= placed);
    }
    assert(all.skip(0) =~= all);
    out
}

/// Whether every entry lies directly in `dir`.
pub fn all_listed_in(files: &Vec<DirEntry>, dir: &Path) -> (r: bool)
    ensures
        r == listed_in(entries_view(files@), dir@),
{
    let mut i: usize = 0;
    while i < files.len()
        invariant
            i <= files@.len(),
            forall|j: int|
                0 <= j < i ==> parent_of((#[trigger] entries_view(files@)[j]).path) == Some(dir@),
        decreases files@.len() - i,
    {
        let here = match files[i].path.parent() {
            Some(parent) => parent == *dir,
            None => false,
        };
        if !here {
            assert(parent_of(entries_view(files@)[i as int].path) != Some(dir@));
            return false;
        }
        i += 1;
    }
    true
}

/// The entries of the given kind, in the order that they came in.
pub fn pick(files: &Vec<DirEntry>, kind: EntryKind) -> (out: Vec<DirEntry>)
    ensures
        entries_view(out@) == entries_view(files@).filter(of_kind(kind)),
{
    let ghost all = entries_view(files@);
    let mut out: Vec<DirEntry> = Vec::new();
    let mut i: usize = 0;
    proof {
        reveal(Seq::filter);
        assert(all.take(0).filter(of_kind(kind)) =~= Seq::empty());
    }
    while i < files.len()
        invariant
            all == entries_view(files@),
            i <= files@.len(),
            entries_view(out@) == all.take(i as int).filter(of_kind(kind)),
        decreases files@.len() - i,
    {
        proof {
            reveal(Seq::filter);
            assert(all.take(i + 1).drop_last() =~= all.take(i as int));
            assert(all.take(i + 1).last() == files@[i as int]@);
        }
        if files[i].kind == kind {
            out.push(files[i].clone());
            assert(entries_view(out@) =~= all.take(i as int).filter(of_kind(kind)).push(
                files@[i as int]@,
            ));
        }
        i += 1;
    }
    assert(all.take(i as int) =~= all);
    out
}

/// The listing items of the given entries, one for one.
fn show(entries: &Vec<DirEntry>, folders: bool, entities: &mut Vec<ManagerEntity>)
    ensures
        entities_view(final(entities)@) == entities_view(old(entities)@) + entries_view(
            entries@,
        ).map_values(
            if folders {
                as_folder()
            } else {
                as_file()
            },
        ),
{
    let ghost shape = if folders {
        as_folder()
    } else {
        as_file()
    };
    let ghost start = entities_view(entities@);
    let mut i: usize = 0;
    assert(entries_view(entries@).take(0).map_values(shape) =~= Seq::empty());
    while i < entries.len()
        invariant
            i <= entries@.len(),
            shape == if folders {
                as_folder()
            } else {
                as_file()
            },
            entities_view(entities@) == start + entries_view(entries@).take(i as int).map_values(
                shape,
            ),
        decreases entries@.len() - i,
    {
        let path = entries[i].path.clone();
        let ghost so_far = entities_view(entities@);
        if folders {
            entities.push(ManagerEntity::Folder(path));
        } else {
            entities.push(ManagerEntity::TextFile(path));
        }
        i += 1;
        assert(entities_view(entities@) =~= so_far.push(shape(entries@[i - 1]@)));
        assert(entities_view(entities@) =~= start + entries_view(entries@).take(
            i as int,
        ).map_values(shape));
    }
    assert(entries_view(entries@).take(i as int) =~= entries_view(entries@));
}

/// Builds the listing of a directory from the entries that the host found
/// in it. `is_root` says whether the directory is the one the session
/// started in: everywhere else the listing ends with Back and Root.
pub(crate) fn create_entities(files: Vec<DirEntry>, is_root: bool) -> (entities: Vec<ManagerEntity>)
    ensures
        entities_view(entities@) == listing(entries_view(files@), is_root),
{
    let folders = sort_entries(pick(&files, EntryKind::Folder), SortBy::Path);
    let texts = sort_entries(pick(&files, EntryKind::File), SortBy::Age);
    let mut entities: Vec<ManagerEntity> = Vec::new();
    assert(entities_view(entities@) =~= Seq::empty());
    show(&folders, true, &mut entities);
    show(&texts, false, &mut entities);
    let ghost body = entities_view(entities@);
    if !is_root {
        entities.push(ManagerEntity::Action(Action::Back));
        entities.push(ManagerEntity::Action(Action::Root));
    }
    assert(entities_view(entities@) =~= body + actions(is_root));
    assert(body =~= listed_folders(entries_view(files@)).map_values(as_folder())
        + listed_files(entries_view(files@)).map_values(as_file()));
    entities
}

} // verus!
