use vstd::prelude::*;

use crate::naming::{remove_extension, strip, strip_ok, DiscoveryError};

verus! {

/// One registered template: its identifier and the handle the render engine
/// knows it by.
pub struct TemplateEntry {
    pub name: String,
    pub handle: String,
}

/// The index from template identifier to template handle, built once and then
/// only read.
pub struct TemplateRegistry {
    entries: Vec<TemplateEntry>,
    model: Ghost<Map<Seq<char>, Seq<char>>>,
}

/// The registry that a list of discovered files gives, taken in order, a later
/// file replacing an earlier one of the same identifier. Each file is named by
/// itself as handle.
pub open spec fn registry_of(files: Seq<Seq<char>>) -> Map<Seq<char>, Seq<char>>
    decreases files.len(),
{
    if files.len() == 0 {
        Map::empty()
    } else {
        let name = strip(files.last());
        registry_of(files.drop_last()).insert(name, name)
    }
}

/// Every file of the list can be named.
pub open spec fn all_named(files: Seq<Seq<char>>) -> bool {
    forall|i: int| 0 <= i < files.len() ==> strip_ok(#[trigger] files[i])
}

/// The contents of a list of strings.
pub open spec fn views_of(files: Seq<String>) -> Seq<Seq<char>> {
    files.map_values(|f: String| f@)
}

/// Two or more files of the list share the identifier `k`.
pub open spec fn clashing(files: Seq<Seq<char>>, k: Seq<char>) -> bool {
    exists|i: int, j: int|
        0 <= i < j < files.len() && strip_ok(#[trigger] files[i]) && strip_ok(#[trigger] files[j])
            && strip(files[i]) == k && strip(files[j]) == k
}

/// The names of a list of files, each beside whether it could be named.
spec fn names_match(files: Seq<Seq<char>>, names: Seq<String>, ok: Seq<bool>, n: int) -> bool {
    &&& names.len() == n
    &&& ok.len() == n
    &&& forall|i: int|
        0 <= i < n ==> (#[trigger] ok[i] == strip_ok(files[i])) && (ok[i] ==> names[i]@ == strip(
            files[i],
        ))
}

/// Whether a file before the `j`th of the list has the same identifier.
fn clashes_before(names: &Vec<String>, ok: &Vec<bool>, j: usize) -> (r: bool)
    requires
        j < names@.len() == ok@.len(),
    ensures
        r == (ok@[j as int] && exists|i: int|
            0 <= i < j && #[trigger] ok@[i] && names@[i]@ == names@[j as int]@),
{
    if !ok[j] {
        return false;
    }
    let mut i: usize = 0;
    while i < j
        invariant
            i <= j < names@.len() == ok@.len(),
            ok@[j as int],
            forall|a: int| 0 <= a < i ==> !(#[trigger] ok@[a] && names@[a]@ == names@[j as int]@),
        decreases j - i,
    {
        if ok[i] && names[i] == names[j] {
            return true;
        }
        i = i + 1;
    }
    false
}

/// The identifiers that two or more of the files would share: when a registry
/// is built from them, a later file replaces an earlier one under each of these.
pub fn clashing_names(files: &Vec<String>) -> (r: Vec<String>)
    ensures
        forall|x: int| 0 <= x < r@.len() ==> clashing(views_of(files@), #[trigger] r@[x]@),
        forall|k: Seq<char>|
            #[trigger] clashing(views_of(files@), k) ==> exists|x: int|
                0 <= x < r@.len() && #[trigger] r@[x]@ == k,
{
    let ghost all = views_of(files@);
    let mut names: Vec<String> = Vec::new();
    let mut ok: Vec<bool> = Vec::new();
    let mut i: usize = 0;
    while i < files.len()
        invariant
            i <= files@.len(),
            all == views_of(files@),
            names_match(all, names@, ok@, i as int),
        decreases files@.len() - i,
    {
        match remove_extension(files[i].as_str()) {
            Ok(n) => {
                names.push(n);
                ok.push(true);
            },
            Err(_) => {
                names.push(String::new());
                ok.push(false);
            },
        }
        i = i + 1;
    }
    let mut out: Vec<String> = Vec::new();
    let mut j: usize = 0;
    while j < files.len()
        invariant
            j <= files@.len(),
            all == views_of(files@),
            names_match(all, names@, ok@, files@.len() as int),
            forall|x: int| 0 <= x < out@.len() ==> clashing(all, #[trigger] out@[x]@),
            forall|a: int, b: int|
                0 <= a < b < j && strip_ok(#[trigger] all[a]) && strip_ok(#[trigger] all[b])
                    && strip(all[a]) == strip(all[b]) ==> exists|x: int|
                    0 <= x < out@.len() && #[trigger] out@[x]@ == strip(all[b]),
        decreases files@.len() - j,
    {
        let c = clashes_before(&names, &ok, j);
        let ghost before = out@;
        if c {
            let ghost a = choose|a: int| 0 <= a < j && #[trigger] ok@[a] && names@[a]@ == names@[j as int]@;
            assert(ok@[a] && ok@[j as int]);
            out.push(names[j].clone());
            assert(clashing(all, out@[out@.len() - 1]@));
        }
        assert forall|a: int, b: int|
            0 <= a < b < j + 1 && strip_ok(#[trigger] all[a]) && strip_ok(#[trigger] all[b])
                && strip(all[a]) == strip(all[b]) implies exists|x: int|
                0 <= x < out@.len() && #[trigger] out@[x]@ == strip(all[b]) by {
            if b < j {
                let x = choose|x: int| 0 <= x < before.len() && #[trigger] before[x]@ == strip(all[b]);
                assert(out@[x] == before[x]);
            } else {
                assert(ok@[a] == strip_ok(all[a]));
                assert(ok@[j as int] == strip_ok(all[j as int]));
                assert(ok@[a] && names@[a]@ == names@[j as int]@);
                assert(c);
                assert(out@[before.len() as int]@ == strip(all[b]));
            }
        }
        j = j + 1;
    }
    assert forall|k: Seq<char>| #[trigger] clashing(all, k) implies exists|x: int|
        0 <= x < out@.len() && #[trigger] out@[x]@ == k by {
        let (a, b) = choose|a: int, b: int|
            0 <= a < b < all.len() && strip_ok(#[trigger] all[a]) && strip_ok(#[trigger] all[b])
                && strip(all[a]) == k && strip(all[b]) == k;
        assert(strip(all[a]) == strip(all[b]));
    }
    out
}

impl View for TemplateRegistry {
    type V = Map<Seq<char>, Seq<char>>;

    closed spec fn view(&self) -> Map<Seq<char>, Seq<char>> {
        self.model@
    }
}

impl TemplateRegistry {
    /// Entries are unique by identifier and hold exactly the pairs of the map.
    pub closed spec fn wf(&self) -> bool {
        &&& forall|i: int, j: int|
            0 <= i < j < self.entries@.len() ==> #[trigger] self.entries@[i].name@
                != #[trigger] self.entries@[j].name@
        &&& forall|i: int|
            0 <= i < self.entries@.len() ==> #[trigger] self.model@.contains_key(
                self.entries@[i].name@,
            ) && self.model@[self.entries@[i].name@] == self.entries@[i].handle@
        &&& forall|k: Seq<char>|
            #[trigger] self.model@.contains_key(k) ==> exists|i: int|
                0 <= i < self.entries@.len() && self.entries@[i].name@ == k
    }

    /// An empty registry.
    pub fn new() -> (r: TemplateRegistry)
        ensures
            r.wf(),
            r@ == Map::<Seq<char>, Seq<char>>::empty(),
    {
        TemplateRegistry { entries: Vec::new(), model: Ghost(Map::empty()) }
    }

    /// The registered entries, one per identifier.
    pub fn inner(&self) -> (r: &Vec<TemplateEntry>)
        requires
            self.wf(),
        ensures
            r@.len() == self@.len(),
            forall|i: int|
                0 <= i < r@.len() ==> #[trigger] self@.contains_key(r@[i].name@)
                    && self@[r@[i].name@] == r@[i].handle@,
            forall|i: int, j: int|
                0 <= i < j < r@.len() ==> #[trigger] r@[i].name@ != #[trigger] r@[j].name@,
            forall|k: Seq<char>|
                #[trigger] self@.contains_key(k) ==> exists|i: int|
                    0 <= i < r@.len() && r@[i].name@ == k,
    {
        proof {
            self.lemma_len();
            assert forall|i: int| 0 <= i < self.entries@.len() implies #[trigger] self@.contains_key(
                self.entries@[i].name@,
            ) && self@[self.entries@[i].name@] == self.entries@[i].handle@ by {
                assert(self.model@.contains_key(self.entries@[i].name@));
            }
        }
        &self.entries
    }

    /// The number of registered templates.
    pub fn len(&self) -> (r: usize)
        requires
            self.wf(),
        ensures
            r == self@.len(),
    {
        proof {
            self.lemma_len();
        }
        self.entries.len()
    }

    proof fn lemma_len(&self)
        requires
            self.wf(),
        ensures
            self.entries@.len() == self@.len(),
    {
        let names = self.entries@.map_values(|e: TemplateEntry| e.name@);
        assert(names.no_duplicates()) by {
            assert forall|i: int, j: int|
                0 <= i < names.len() && 0 <= j < names.len() && i != j implies names[i]
                != names[j] by {
                if i < j {
                    assert(self.entries@[i].name@ != self.entries@[j].name@);
                } else {
                    assert(self.entries@[j].name@ != self.entries@[i].name@);
                }
            }
        }
        names.unique_seq_to_set();
        assert(names.to_set() =~= self.model@.dom()) by {
            assert forall|k: Seq<char>| self.model@.contains_key(k) implies names.to_set().contains(
                k,
            ) by {
                let i = choose|i: int| 0 <= i < self.entries@.len() && self.entries@[i].name@ == k;
                assert(names[i] == k);
            }
            assert forall|k: Seq<char>| names.to_set().contains(k) implies self.model@.contains_key(
                k,
            ) by {
                let i = choose|i: int| 0 <= i < names.len() && names[i] == k;
                assert(self.model@.contains_key(self.entries@[i].name@));
            }
        }
    }

    fn find(&self, name: &String) -> (r: Option<usize>)
        requires
            self.wf(),
        ensures
            match r {
                Some(i) => i < self.entries@.len() && self.entries@[i as int].name@ == name@,
                None => !self@.contains_key(name@),
            },
    {
        let mut i: usize = 0;
        while i < self.entries.len()
            invariant
                self.wf(),
                i <= self.entries@.len(),
                forall|j: int| 0 <= j < i ==> self.entries@[j].name@ != name@,
            decreases self.entries@.len() - i,
        {
            if self.entries[i].name == *name {
                return Some(i);
            }
            i = i + 1;
        }
        None
    }

    /// The handle registered under `name`, if any.
    pub fn get(&self, name: &String) -> (r: Option<&String>)
        requires
            self.wf(),
        ensures
            match r {
                Some(h) => self@.contains_key(name@) && h@ == self@[name@],
                None => !self@.contains_key(name@),
            },
    {
        match self.find(name) {
            Some(i) => {
                proof {
                    assert(self.model@.contains_key(self.entries@[i as int].name@));
                }
                Some(&self.entries[i].handle)
            },
            None => None,
        }
    }

    /// Registers `handle` under `name`, replacing what was there. Only discovery
    /// fills a registry: once built it is read, never changed.
    pub(crate) fn insert(&mut self, name: String, handle: String)
        requires
            old(self).wf(),
        ensures
            final(self).wf(),
            final(self)@ == old(self)@.insert(name@, handle@),
    {
        let ghost k = name@;
        let ghost v = handle@;
        let ghost m = self.model@.insert(k, v);
        match self.find(&name) {
            Some(i) => {
                self.entries.set(i, TemplateEntry { name, handle });
                self.model = Ghost(m);
                assert forall|a: int, b: int|
                    0 <= a < b < self.entries@.len() implies #[trigger] self.entries@[a].name@
                    != #[trigger] self.entries@[b].name@ by {
                    assert(old(self).entries@[a].name@ != old(self).entries@[b].name@);
                    if a == i {
                        assert(old(self).entries@[i as int].name@ != old(self).entries@[b].name@);
                    }
                    if b == i {
                        assert(old(self).entries@[a].name@ != old(self).entries@[i as int].name@);
                    }
                }
                assert forall|a: int| 0 <= a < self.entries@.len() implies #[trigger] self.model@.contains_key(
                    self.entries@[a].name@,
                ) && self.model@[self.entries@[a].name@] == self.entries@[a].handle@ by {
                    if a != i {
                        assert(old(self).model@.contains_key(old(self).entries@[a].name@));
                        if a < i {
                            assert(old(self).entries@[a].name@ != old(self).entries@[i as int].name@);
                        } else {
                            assert(old(self).entries@[i as int].name@ != old(self).entries@[a].name@);
                        }
                    }
                }
                assert forall|q: Seq<char>| #[trigger] self.model@.contains_key(q) implies exists|
                    j: int,
                | 0 <= j < self.entries@.len() && self.entries@[j].name@ == q by {
                    if q != k {
                        let j = choose|j: int|
                            0 <= j < old(self).entries@.len() && old(self).entries@[j].name@ == q;
                        assert(self.entries@[j].name@ == q);
                    } else {
                        assert(self.entries@[i as int].name@ == q);
                    }
                }
            },
            None => {
                self.entries.push(TemplateEntry { name, handle });
                self.model = Ghost(m);
                let ghost n = old(self).entries@.len() as int;
                assert forall|a: int, b: int|
                    0 <= a < b < self.entries@.len() implies #[trigger] self.entries@[a].name@
                    != #[trigger] self.entries@[b].name@ by {
                    if b == n {
                        assert(old(self).model@.contains_key(old(self).entries@[a].name@));
                    } else {
                        assert(old(self).entries@[a].name@ != old(self).entries@[b].name@);
                    }
                }
                assert forall|a: int| 0 <= a < self.entries@.len() implies #[trigger] self.model@.contains_key(
                    self.entries@[a].name@,
                ) && self.model@[self.entries@[a].name@] == self.entries@[a].handle@ by {
                    if a != n {
                        assert(old(self).model@.contains_key(old(self).entries@[a].name@));
                    }
                }
                assert forall|q: Seq<char>| #[trigger] self.model@.contains_key(q) implies exists|
                    j: int,
                | 0 <= j < self.entries@.len() && self.entries@[j].name@ == q by {
                    if q != k {
                        let j = choose|j: int|
                            0 <= j < old(self).entries@.len() && old(self).entries@[j].name@ == q;
                        assert(self.entries@[j].name@ == q);
                    } else {
                        assert(self.entries@[old(self).entries@.len() as int].name@ == q);
                    }
                }
            },
        }
    }

    /// The registry of the files found under a template root, each given as its
    /// path relative to that root with `/` between components. A later file whose
    /// identifier an earlier one already took replaces it.
    pub fn from_files(files: &Vec<String>) -> (r: Result<TemplateRegistry, DiscoveryError>)
        ensures
            match r {
                Ok(reg) => reg.wf() && all_named(files@.map_values(|f: String| f@)) && reg@
                    == registry_of(files@.map_values(|f: String| f@)),
                Err(e) => !all_named(files@.map_values(|f: String| f@))
                    && e is MalformedTemplateName,
            },
    {
        let ghost all = files@.map_values(|f: String| f@);
        let mut reg = TemplateRegistry::new();
        let mut i: usize = 0;
        while i < files.len()
            invariant
                i <= files@.len(),
                all == files@.map_values(|f: String| f@),
                reg.wf(),
                all_named(all.subrange(0, i as int)),
                reg@ == registry_of(all.subrange(0, i as int)),
            decreases files@.len() - i,
        {
            match remove_extension(files[i].as_str()) {
                Ok(name) => {
                    let handle = name.clone();
                    reg.insert(name, handle);
                    assert(all.subrange(0, i + 1).drop_last() =~= all.subrange(0, i as int));
                    i = i + 1;
                },
                Err(e) => {
                    assert(!strip_ok(all[i as int]));
                    return Err(e);
                },
            }
        }
        assert(all.subrange(0, i as int) =~= all);
        Ok(reg)
    }
}

} // verus!
