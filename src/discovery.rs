use vstd::prelude::*;

use crate::naming::DiscoveryError;
use crate::registry::{all_named, registry_of, TemplateRegistry};

verus! {

/// The path of the entry `name` of the directory at `dir`, both relative to the
/// template root (the root itself is the empty path).
pub open spec fn child_path(dir: Seq<char>, name: Seq<char>) -> Seq<char> {
    if dir.len() == 0 {
        name
    } else {
        dir + seq!['/'] + name
    }
}

/// A breadth-first walk of a template directory. The walk decides what to look
/// at next and what it has found; the caller reads the file system: it asks
/// [`Discovery::next_step`] for a path, and reports whether that path is a file
/// or a directory and, for a directory, the names of its entries.
pub struct Discovery {
    queue: Vec<String>,
    head: usize,
    files: Vec<String>,
}

impl Discovery {
    /// The paths still to look at, first to last.
    pub closed spec fn pending(&self) -> Seq<Seq<char>> {
        self.queue@.subrange(self.head as int, self.queue@.len() as int).map_values(
            |s: String| s@,
        )
    }

    /// The files found so far, in the order they were found.
    pub closed spec fn found(&self) -> Seq<Seq<char>> {
        self.files@.map_values(|s: String| s@)
    }

    pub closed spec fn wf(&self) -> bool {
        self.head <= self.queue@.len()
    }

    /// A walk that starts at the template root.
    pub fn new() -> (r: Discovery)
        ensures
            r.wf(),
            r.pending() == seq![Seq::<char>::empty()],
            r.found() == Seq::<Seq<char>>::empty(),
    {
        let r = Discovery { queue: vec![String::new()], head: 0, files: Vec::new() };
        assert(r.pending() =~= seq![Seq::<char>::empty()]);
        assert(r.found() =~= Seq::<Seq<char>>::empty());
        r
    }

    /// The next path to look at, taken from the front of the queue; `None` once
    /// the walk is over.
    pub fn next_step(&mut self) -> (r: Option<String>)
        requires
            old(self).wf(),
        ensures
            final(self).wf(),
            final(self).found() == old(self).found(),
            old(self).pending().len() == 0 ==> r is None && final(self).pending() == old(
                self,
            ).pending(),
            old(self).pending().len() > 0 ==> (r matches Some(p) && p@ == old(self).pending()[0]
                && final(self).pending() == old(self).pending().drop_first()),
    {
        if self.head < self.queue.len() {
            let p = self.queue[self.head].clone();
            self.head = self.head + 1;
            assert(self.pending() =~= old(self).pending().drop_first());
            Some(p)
        } else {
            None
        }
    }

    /// Records that `path` is a regular file.
    pub fn found_file(&mut self, path: String)
        requires
            old(self).wf(),
        ensures
            final(self).wf(),
            final(self).pending() == old(self).pending(),
            final(self).found() == old(self).found().push(path@),
    {
        self.files.push(path);
        assert(self.found() =~= old(self).found().push(path@));
    }

    /// Records that `dir` is a directory with the entries `names`, which join the
    /// back of the queue in their order.
    pub fn found_dir(&mut self, dir: &String, names: Vec<String>)
        requires
            old(self).wf(),
        ensures
            final(self).wf(),
            final(self).found() == old(self).found(),
            final(self).pending() == old(self).pending() + names@.map_values(
                |n: String| child_path(dir@, n@),
            ),
    {
        let ghost added = names@.map_values(|n: String| child_path(dir@, n@));
        let mut k: usize = 0;
        while k < names.len()
            invariant
                k <= names@.len(),
                self.wf(),
                self.head == old(self).head,
                self.found() == old(self).found(),
                added == names@.map_values(|n: String| child_path(dir@, n@)),
                self.pending() == old(self).pending() + added.subrange(0, k as int),
            decreases names@.len() - k,
        {
            let child = if dir.as_str().unicode_len() == 0 {
                names[k].clone()
            } else {
                proof {
                    reveal_strlit("/");
                }
                dir.clone().concat("/").concat(names[k].as_str())
            };
            proof {
                reveal_strlit("/");
                assert("/"@ =~= seq!['/']);
            }
            assert(child@ == added[k as int]);
            let ghost before = self.pending();
            self.queue.push(child);
            assert(self.pending() =~= before.push(child@));
            assert(added.subrange(0, k + 1) =~= added.subrange(0, k as int).push(child@));
            k = k + 1;
        }
        assert(added.subrange(0, k as int) =~= added);
    }

    /// The files found so far, in the order they were found.
    pub fn files(&self) -> (r: &Vec<String>)
        ensures
            r@.map_values(|s: String| s@) == self.found(),
    {
        &self.files
    }

    /// The registry of every file found.
    pub fn finish(&self) -> (r: Result<TemplateRegistry, DiscoveryError>)
        ensures
            match r {
                Ok(reg) => reg.wf() && all_named(self.found()) && reg@ == registry_of(self.found()),
                Err(e) => !all_named(self.found()) && e is MalformedTemplateName,
            },
    {
        TemplateRegistry::from_files(&self.files)
    }
}

} // verus!
