use vstd::prelude::*;

use crate::naming::{lemma_component_start, lemma_first_dot_from, strip, strip_ok};
use crate::registry::{all_named, registry_of};
use crate::router::{
    fold_segments, index_name, join_segments, lookup_name, path_segments, resolves_to,
    split_state, Resolution,
};

verus! {

/// A registry built from a list of files holds exactly the identifiers of those
/// files, each with itself as handle.
pub proof fn lemma_registry_of_keys(files: Seq<Seq<char>>)
    ensures
        forall|i: int| 0 <= i < files.len() ==> #[trigger] registry_of(files).contains_key(strip(files[i])),
        forall|k: Seq<char>| #[trigger] registry_of(files).contains_key(k) ==> exists|i: int|
            0 <= i < files.len() && strip(files[i]) == k,
        forall|k: Seq<char>| #[trigger] registry_of(files).contains_key(k) ==> registry_of(files)[k] == k,
    decreases files.len(),
{
    if files.len() > 0 {
        let rest = files.drop_last();
        lemma_registry_of_keys(rest);
        assert forall|i: int| 0 <= i < files.len() implies #[trigger] registry_of(files).contains_key(
            strip(files[i]),
        ) by {
            if i < rest.len() {
                assert(rest[i] == files[i]);
                assert(registry_of(rest).contains_key(strip(rest[i])));
            }
        }
        assert forall|k: Seq<char>| #[trigger] registry_of(files).contains_key(k) implies exists|i: int|
            0 <= i < files.len() && strip(files[i]) == k by {
            if k != strip(files.last()) {
                assert(registry_of(rest).contains_key(k));
                let i = choose|i: int| 0 <= i < rest.len() && strip(rest[i]) == k;
                assert(files[i] == rest[i]);
            } else {
                assert(strip(files[files.len() - 1]) == k);
            }
        }
        assert forall|k: Seq<char>| #[trigger] registry_of(files).contains_key(k) implies registry_of(
            files,
        )[k] == k by {
            if k != strip(files.last()) {
                assert(registry_of(rest).contains_key(k));
            }
        }
    }
}

/// Every identifier of a registry built from nameable files is non-empty.
pub proof fn lemma_registry_of_nonempty_names(files: Seq<Seq<char>>)
    requires
        all_named(files),
    ensures
        !registry_of(files).contains_key(Seq::empty()),
{
    lemma_registry_of_keys(files);
    if registry_of(files).contains_key(Seq::empty()) {
        let i = choose|i: int| 0 <= i < files.len() && strip(files[i]) == Seq::<char>::empty();
        assert(strip_ok(files[i]));
        lemma_component_start(files[i]);
        lemma_first_dot_from(files[i], crate::naming::component_start(files[i]));
        assert(strip(files[i]).len() > 0);
    }
}

/// The root path `/` looks up `index` when index files are on, and the empty
/// identifier when they are off.
pub proof fn lemma_root_lookup_name(use_index_files: bool)
    ensures
        fold_segments(path_segments(seq!['/'])) == Some(Seq::<Seq<char>>::empty()),
        lookup_name(use_index_files, None, Seq::<Seq<char>>::empty()) == if use_index_files {
            index_name()
        } else {
            Seq::<char>::empty()
        },
{
    let p = seq!['/'];
    assert(p.drop_last() =~= Seq::<char>::empty());
    assert(split_state(Seq::<char>::empty()) == (Seq::<Seq<char>>::empty(), Seq::<char>::empty()));
    assert(split_state(p) == (Seq::<Seq<char>>::empty(), Seq::<char>::empty()));
    assert(path_segments(p) =~= Seq::<Seq<char>>::empty());
    assert(fold_segments(Seq::<Seq<char>>::empty()) == Some(Seq::<Seq<char>>::empty()));
    assert(join_segments(seq![index_name()]) == index_name());
}

/// With index files on, the root path of a registry built from a directory
/// renders its `index` template when there is one; with them off the same
/// request declines.
pub proof fn lemma_index_fallback(files: Seq<Seq<char>>, on: Resolution, off: Resolution)
    requires
        all_named(files),
        registry_of(files).contains_key(index_name()),
        resolves_to(on, registry_of(files), true, None, seq!['/']),
        resolves_to(off, registry_of(files), false, None, seq!['/']),
    ensures
        on matches Resolution::Hit(t) && t.0@ == index_name(),
        off is Decline,
{
    lemma_registry_of_keys(files);
    lemma_registry_of_nonempty_names(files);
    lemma_root_lookup_name(true);
    lemma_root_lookup_name(false);
}

/// A path that decodes but names no registered template declines: a miss is
/// never an error.
pub proof fn lemma_miss_declines(
    registry: Map<Seq<char>, Seq<char>>,
    use_index_files: bool,
    sub_root: Option<Seq<char>>,
    path: Seq<char>,
    r: Resolution,
)
    requires
        fold_segments(path_segments(path)) is Some,
        !registry.contains_key(
            lookup_name(use_index_files, sub_root, fold_segments(path_segments(path))->Some_0),
        ),
        resolves_to(r, registry, use_index_files, sub_root, path),
    ensures
        r is Decline,
{
}

/// Resolution depends on its inputs alone: two resolutions of one path against
/// one registry and one configuration, whenever and on whichever thread they
/// run, give the same outcome and the same handle.
pub proof fn lemma_resolution_deterministic(
    registry: Map<Seq<char>, Seq<char>>,
    use_index_files: bool,
    sub_root: Option<Seq<char>>,
    path: Seq<char>,
    r1: Resolution,
    r2: Resolution,
)
    requires
        resolves_to(r1, registry, use_index_files, sub_root, path),
        resolves_to(r2, registry, use_index_files, sub_root, path),
    ensures
        r1 is Hit <==> r2 is Hit,
        r1 is Decline <==> r2 is Decline,
        r1 is InvalidPath <==> r2 is InvalidPath,
        r1 matches Resolution::Hit(t1) ==> r2 matches Resolution::Hit(t2) && t1.0@ == t2.0@,
{
}

} // verus!
