use vstd::prelude::*;

use crate::registry::TemplateRegistry;

verus! {

/// A template that a request resolved to: the handle to render.
#[derive(Debug)]
pub struct Templated(pub String);

/// What a router makes of one request path.
#[derive(Debug)]
pub enum Resolution {
    /// The path names a registered template.
    Hit(Templated),
    /// No template answers the path; the next handler of the chain should try.
    Decline,
    /// The path does not decode into segments.
    InvalidPath,
}

/// The segments finished so far, and the one being read, after reading `p`.
pub open spec fn split_state(p: Seq<char>) -> (Seq<Seq<char>>, Seq<char>)
    decreases p.len(),
{
    if p.len() == 0 {
        (Seq::empty(), Seq::empty())
    } else {
        let (done, cur) = split_state(p.drop_last());
        if p.last() == '/' {
            if cur.len() > 0 {
                (done.push(cur), Seq::empty())
            } else {
                (done, Seq::empty())
            }
        } else {
            (done, cur.push(p.last()))
        }
    }
}

/// The segments of a request path: the non-empty pieces between its `/`s, in order.
pub open spec fn path_segments(p: Seq<char>) -> Seq<Seq<char>> {
    let (done, cur) = split_state(p);
    if cur.len() > 0 {
        done.push(cur)
    } else {
        done
    }
}

/// `..`: the segment that steps back out of the directory before it.
pub open spec fn parent_segment() -> Seq<char> {
    seq!['.', '.']
}

/// A segment other than `..` that a request may hold: it starts with neither
/// `.` nor `*`, ends with none of `:`, `>`, `<`, and holds no `/` (the rules
/// of hosts other than Windows, which also refuse `\\` and `:` inside).
pub open spec fn segment_ok(s: Seq<char>) -> bool {
    &&& !(s.len() > 0 && (s[0] == '.' || s[0] == '*'))
    &&& !(s.len() > 0 && (s.last() == ':' || s.last() == '>' || s.last() == '<'))
    &&& forall|i: int| 0 <= i < s.len() ==> #[trigger] s[i] != '/'
}

/// The path that decoded segments stand for, read left to right: `..` drops the
/// segment before it (if any), and any other segment must be acceptable;
/// `None` when one is not.
pub open spec fn fold_segments(segs: Seq<Seq<char>>) -> Option<Seq<Seq<char>>>
    decreases segs.len(),
{
    if segs.len() == 0 {
        Some(Seq::empty())
    } else {
        match fold_segments(segs.drop_last()) {
            None => None,
            Some(buf) => if segs.last() == parent_segment() {
                Some(
                    if buf.len() > 0 {
                        buf.drop_last()
                    } else {
                        buf
                    },
                )
            } else if !segment_ok(segs.last()) {
                None
            } else {
                Some(buf.push(segs.last()))
            },
        }
    }
}

/// Once a prefix of the segments fails, all of them fail.
pub proof fn lemma_fold_none_extends(segs: Seq<Seq<char>>, k: int)
    requires
        0 <= k <= segs.len(),
        fold_segments(segs.subrange(0, k)) is None,
    ensures
        fold_segments(segs) is None,
    decreases segs.len(),
{
    if segs.len() == k {
        assert(segs.subrange(0, k) =~= segs);
    } else {
        assert(segs.drop_last().subrange(0, k) =~= segs.subrange(0, k));
        lemma_fold_none_extends(segs.drop_last(), k);
    }
}

/// The segments joined with `/`.
pub open spec fn join_segments(segs: Seq<Seq<char>>) -> Seq<char>
    decreases segs.len(),
{
    if segs.len() == 0 {
        Seq::empty()
    } else if segs.len() == 1 {
        segs[0]
    } else {
        join_segments(segs.drop_last()) + seq!['/'] + segs.last()
    }
}

/// The identifier that the root of a directory stands for when index files are on.
pub open spec fn index_name() -> Seq<char> {
    seq!['i', 'n', 'd', 'e', 'x']
}

/// `name` placed under the directory `root`.
pub open spec fn under_root(root: Seq<char>, name: Seq<char>) -> Seq<char> {
    if root.len() == 0 || root.last() == '/' {
        root + name
    } else {
        root + seq!['/'] + name
    }
}

/// The identifier looked up for the segments of a request.
pub open spec fn lookup_name(
    use_index_files: bool,
    sub_root: Option<Seq<char>>,
    segs: Seq<Seq<char>>,
) -> Seq<char> {
    let segs = if segs.len() == 0 && use_index_files {
        seq![index_name()]
    } else {
        segs
    };
    let name = join_segments(segs);
    match sub_root {
        Some(root) => under_root(root, name),
        None => name,
    }
}

/// What resolving decoded segments against `registry` gives, as a spec.
pub open spec fn resolves_segments_to(
    r: Resolution,
    registry: Map<Seq<char>, Seq<char>>,
    use_index_files: bool,
    sub_root: Option<Seq<char>>,
    segs: Seq<Seq<char>>,
) -> bool {
    match fold_segments(segs) {
        None => r is InvalidPath,
        Some(path) => {
            let name = lookup_name(use_index_files, sub_root, path);
            if registry.contains_key(name) {
                r matches Resolution::Hit(t) && t.0@ == registry[name]
            } else {
                r is Decline
            }
        },
    }
}

/// What resolving the request path `path` against `registry` gives, as a spec.
pub open spec fn resolves_to(
    r: Resolution,
    registry: Map<Seq<char>, Seq<char>>,
    use_index_files: bool,
    sub_root: Option<Seq<char>>,
    path: Seq<char>,
) -> bool {
    resolves_segments_to(r, registry, use_index_files, sub_root, path_segments(path))
}

/// The segments of a request path: its non-empty pieces between `/`s.
pub fn split_path(path: &str) -> (r: Vec<String>)
    ensures
        r@.map_values(|s: String| s@) == path_segments(path@),
{
    let n = path.unicode_len();
    let mut segs: Vec<String> = Vec::new();
    let mut start: usize = 0;
    let mut i: usize = 0;
    while i < n
        invariant
            start <= i <= n == path@.len(),
            split_state(path@.subrange(0, i as int)) == (
                segs@.map_values(|s: String| s@),
                path@.subrange(start as int, i as int),
            ),
        decreases n - i,
    {
        let c = path.get_char(i);
        let ghost pre = path@.subrange(0, i as int);
        let ghost next = path@.subrange(0, i + 1);
        assert(next.drop_last() =~= pre);
        if c == '/' {
            if i > start {
                let seg = String::from_str(path.substring_char(start, i));
                segs.push(seg);
                assert(segs@.map_values(|s: String| s@) =~= segs@.drop_last().map_values(
                    |s: String| s@,
                ).push(seg@));
            }
            start = i + 1;
        } else {
            assert(path@.subrange(start as int, i + 1) =~= path@.subrange(
                start as int,
                i as int,
            ).push(c));
        }
        i = i + 1;
    }
    assert(path@.subrange(0, n as int) =~= path@);
    if n > start {
        let seg = String::from_str(path.substring_char(start, n));
        segs.push(seg);
        assert(segs@.map_values(|s: String| s@) =~= segs@.drop_last().map_values(|s: String| s@).push(
            seg@,
        ));
    }
    segs
}

/// Whether `s` is `..`.
fn is_parent_segment(s: &str) -> (r: bool)
    ensures
        r == (s@ == parent_segment()),
{
    let n = s.unicode_len();
    if n != 2 {
        return false;
    }
    let r = s.get_char(0) == '.' && s.get_char(1) == '.';
    if r {
        assert(s@ =~= parent_segment());
    }
    r
}

/// Whether a segment other than `..` is acceptable.
pub fn is_segment_ok(s: &str) -> (r: bool)
    ensures
        r == segment_ok(s@),
{
    let n = s.unicode_len();
    if n > 0 {
        let first = s.get_char(0);
        let last = s.get_char(n - 1);
        if first == '.' || first == '*' || last == ':' || last == '>' || last == '<' {
            return false;
        }
    }
    let mut i: usize = 0;
    while i < n
        invariant
            i <= n == s@.len(),
            forall|j: int| 0 <= j < i ==> #[trigger] s@[j] != '/',
        decreases n - i,
    {
        if s.get_char(i) == '/' {
            return false;
        }
        i = i + 1;
    }
    true
}

/// Reads decoded segments as a path: `..` drops the segment before it, and a
/// segment that is not acceptable makes the whole path undecodable (`None`).
pub fn normalize_segments(segs: &Vec<String>) -> (r: Option<Vec<String>>)
    ensures
        match r {
            Some(path) => fold_segments(segs@.map_values(|s: String| s@)) == Some(
                path@.map_values(|s: String| s@),
            ),
            None => fold_segments(segs@.map_values(|s: String| s@)) is None,
        },
{
    let ghost all = segs@.map_values(|s: String| s@);
    let mut buf: Vec<String> = Vec::new();
    let mut k: usize = 0;
    while k < segs.len()
        invariant
            k <= segs@.len(),
            all == segs@.map_values(|s: String| s@),
            fold_segments(all.subrange(0, k as int)) == Some(buf@.map_values(|s: String| s@)),
        decreases segs@.len() - k,
    {
        let ghost before = buf@.map_values(|s: String| s@);
        assert(all.subrange(0, k + 1).drop_last() =~= all.subrange(0, k as int));
        assert(all.subrange(0, k + 1).last() == segs@[k as int]@);
        if is_parent_segment(segs[k].as_str()) {
            if buf.len() > 0 {
                buf.pop();
                assert(buf@.map_values(|s: String| s@) =~= before.drop_last());
            }
        } else if !is_segment_ok(segs[k].as_str()) {
            proof {
                lemma_fold_none_extends(all, k + 1);
            }
            return None;
        } else {
            buf.push(segs[k].clone());
            assert(buf@.map_values(|s: String| s@) =~= before.push(segs@[k as int]@));
        }
        k = k + 1;
    }
    assert(all.subrange(0, k as int) =~= all);
    Some(buf)
}

/// The segments joined with `/`.
pub fn join_segments_exec(segs: &Vec<String>) -> (r: String)
    ensures
        r@ == join_segments(segs@.map_values(|s: String| s@)),
{
    let ghost all = segs@.map_values(|s: String| s@);
    let mut out = String::new();
    let mut k: usize = 0;
    while k < segs.len()
        invariant
            k <= segs@.len(),
            all == segs@.map_values(|s: String| s@),
            out@ == join_segments(all.subrange(0, k as int)),
        decreases segs@.len() - k,
    {
        let ghost prev = out@;
        let ghost sub = all.subrange(0, k + 1);
        assert(sub.drop_last() =~= all.subrange(0, k as int));
        assert(sub.last() == segs@[k as int]@);
        if k > 0 {
            out.append("/");
        }
        out.append(segs[k].as_str());
        proof {
            reveal_strlit("/");
            assert("/"@ =~= seq!['/']);
            if k == 0 {
                assert(out@ =~= sub[0]);
            } else {
                assert(out@ =~= prev + seq!['/'] + sub.last());
            }
        }
        k = k + 1;
    }
    assert(all.subrange(0, k as int) =~= all);
    out
}

/// The identifier to look up for the segments of a request: `index` for the
/// root when index files are on, placed under `sub_root` when there is one.
pub fn lookup_name_exec(use_index_files: bool, sub_root: &Option<String>, segs: Vec<String>) -> (r:
    String)
    ensures
        r@ == lookup_name(
            use_index_files,
            match sub_root {
                Some(s) => Some(s@),
                None => None,
            },
            segs@.map_values(|s: String| s@),
        ),
{
    let mut segs = segs;
    if segs.len() == 0 && use_index_files {
        proof {
            reveal_strlit("index");
        }
        assert("index"@ =~= index_name());
        segs.push(String::from_str("index"));
        assert(segs@.map_values(|s: String| s@) =~= seq![index_name()]);
    }
    let name = join_segments_exec(&segs);
    match sub_root {
        Some(root) => {
            let n = root.as_str().unicode_len();
            if n == 0 || root.as_str().get_char(n - 1) == '/' {
                root.clone().concat(name.as_str())
            } else {
                proof {
                    reveal_strlit("/");
                }
                root.clone().concat("/").concat(name.as_str())
            }
        },
        None => name,
    }
}

/// Resolves decoded request segments against `registry`: they are read as a
/// path, turned into an identifier and looked up. A miss declines; only
/// segments that do not form a path fail.
pub fn resolve_segments_in(
    registry: &TemplateRegistry,
    use_index_files: bool,
    sub_root: &Option<String>,
    segs: &Vec<String>,
) -> (r: Resolution)
    requires
        registry.wf(),
    ensures
        resolves_segments_to(
            r,
            registry@,
            use_index_files,
            match sub_root {
                Some(s) => Some(s@),
                None => None,
            },
            segs@.map_values(|s: String| s@),
        ),
{
    match normalize_segments(segs) {
        None => Resolution::InvalidPath,
        Some(path) => {
            let name = lookup_name_exec(use_index_files, sub_root, path);
            match registry.get(&name) {
                Some(handle) => Resolution::Hit(Templated(handle.clone())),
                None => Resolution::Decline,
            }
        },
    }
}

/// Resolves a (percent-decoded) request path against `registry`: its pieces
/// between `/`s are the segments.
pub fn resolve_in(
    registry: &TemplateRegistry,
    use_index_files: bool,
    sub_root: &Option<String>,
    path: &str,
) -> (r: Resolution)
    requires
        registry.wf(),
    ensures
        resolves_to(
            r,
            registry@,
            use_index_files,
            match sub_root {
                Some(s) => Some(s@),
                None => None,
            },
            path@,
        ),
{
    let segs = split_path(path);
    resolve_segments_in(registry, use_index_files, sub_root, &segs)
}

impl Templated {
    /// The template that a request path names exactly, with no index file and no
    /// sub-root.
    pub fn from_request_path(registry: &TemplateRegistry, path: &str) -> (r: Resolution)
        requires
            registry.wf(),
        ensures
            resolves_to(r, registry@, false, None, path@),
    {
        resolve_in(registry, false, &None, path)
    }
}

} // verus!
