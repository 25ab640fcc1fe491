use vstd::prelude::*;

verus! {

/// Why a template directory could not be turned into a registry.
#[derive(Debug)]
pub enum DiscoveryError {
    /// A directory could not be read; the message describes the failure.
    Io(String),
    /// A file's name is nothing but suffixes, so it leaves an empty identifier.
    MalformedTemplateName,
}

/// Index where the final component of a slash-separated path starts:
/// just past its last `/`, or `0` when it has none.
pub open spec fn component_start(p: Seq<char>) -> int
    decreases p.len(),
{
    if p.len() == 0 {
        0
    } else if p.last() == '/' {
        p.len() as int
    } else {
        component_start(p.drop_last())
    }
}

/// Index of the first `.` at or after `from`, or the length of `p` when there is none.
pub open spec fn first_dot_from(p: Seq<char>, from: int) -> int
    decreases p.len() - from,
{
    if from >= p.len() {
        p.len() as int
    } else if p[from] == '.' {
        from
    } else {
        first_dot_from(p, from + 1)
    }
}

/// Where the identifier of `p` ends: at the first `.` of its final component.
pub open spec fn name_end(p: Seq<char>) -> int {
    first_dot_from(p, component_start(p))
}

/// The identifier of a relative path: its directories kept, its final component
/// cut at the first `.`.
pub open spec fn strip(p: Seq<char>) -> Seq<char> {
    p.subrange(0, name_end(p))
}

/// The final component of `p` keeps at least one character once stripped.
pub open spec fn strip_ok(p: Seq<char>) -> bool {
    name_end(p) > component_start(p)
}

pub proof fn lemma_component_start(p: Seq<char>)
    ensures
        0 <= component_start(p) <= p.len(),
        component_start(p) > 0 ==> p[component_start(p) - 1] == '/',
        forall|i: int| component_start(p) <= i < p.len() ==> p[i] != '/',
    decreases p.len(),
{
    if p.len() > 0 && p.last() != '/' {
        let q = p.drop_last();
        lemma_component_start(q);
        assert forall|i: int| component_start(p) <= i < p.len() implies p[i] != '/' by {
            if i < q.len() {
                assert(p[i] == q[i]);
            }
        }
    }
}

/// `c` is the start of the final component as soon as it follows a `/` (or is `0`)
/// and no `/` comes after it.
pub proof fn lemma_component_start_unique(p: Seq<char>, c: int)
    requires
        0 <= c <= p.len(),
        c > 0 ==> p[c - 1] == '/',
        forall|i: int| c <= i < p.len() ==> p[i] != '/',
    ensures
        component_start(p) == c,
    decreases p.len(),
{
    if p.len() > 0 && p.last() != '/' {
        assert(c < p.len()) by {
            if c == p.len() {
                assert(p[c - 1] == '/');
            }
        }
        lemma_component_start_unique(p.drop_last(), c);
    } else if p.len() > 0 {
        if c < p.len() {
            assert(p[p.len() - 1] != '/');
        }
    }
}

pub proof fn lemma_first_dot_from(p: Seq<char>, from: int)
    requires
        0 <= from <= p.len(),
    ensures
        from <= first_dot_from(p, from) <= p.len(),
        first_dot_from(p, from) < p.len() ==> p[first_dot_from(p, from)] == '.',
        forall|i: int| from <= i < first_dot_from(p, from) ==> p[i] != '.',
    decreases p.len() - from,
{
    if from < p.len() && p[from] != '.' {
        lemma_first_dot_from(p, from + 1);
    }
}

pub proof fn lemma_first_dot_none(p: Seq<char>, from: int)
    requires
        0 <= from <= p.len(),
        forall|i: int| from <= i < p.len() ==> p[i] != '.',
    ensures
        first_dot_from(p, from) == p.len(),
    decreases p.len() - from,
{
    if from < p.len() {
        lemma_first_dot_none(p, from + 1);
    }
}

/// Stripping is idempotent: an identifier holds no `.` in its final component,
/// so naming it once more leaves it as it is.
pub proof fn lemma_strip_idempotent(p: Seq<char>)
    requires
        strip_ok(p),
    ensures
        strip_ok(strip(p)),
        strip(strip(p)) == strip(p),
{
    let c = component_start(p);
    let q = strip(p);
    lemma_component_start(p);
    lemma_first_dot_from(p, c);
    lemma_component_start_unique(q, c);
    lemma_first_dot_none(q, c);
    assert(q.subrange(0, q.len() as int) =~= q);
}

/// Where the final component of `path` starts.
pub fn final_component_start(path: &str) -> (r: usize)
    ensures
        r == component_start(path@),
{
    let n = path.unicode_len();
    let mut start: usize = n;
    assert(path@.subrange(0, n as int) =~= path@);
    while start > 0 && path.get_char(start - 1) != '/'
        invariant
            start <= n == path@.len(),
            component_start(path@) == component_start(path@.subrange(0, start as int)),
        decreases start,
    {
        assert(path@.subrange(0, start as int).drop_last() =~= path@.subrange(0, start - 1));
        start = start - 1;
    }
    start
}

/// The identifier of the template at `path`, a path relative to the template root
/// with `/` between its components: the final component loses every suffix from
/// its first `.` on (`a/index.html.hbs` names `a/index`).
pub fn remove_extension(path: &str) -> (r: Result<String, DiscoveryError>)
    ensures
        match r {
            Ok(name) => strip_ok(path@) && name@ == strip(path@),
            Err(e) => !strip_ok(path@) && e is MalformedTemplateName,
        },
{
    let n = path.unicode_len();
    let start = final_component_start(path);
    proof {
        lemma_component_start(path@);
    }
    let mut end: usize = start;
    while end < n && path.get_char(end) != '.'
        invariant
            start <= end <= n == path@.len(),
            first_dot_from(path@, start as int) == first_dot_from(path@, end as int),
        decreases n - end,
    {
        end = end + 1;
    }
    if end == start {
        Err(DiscoveryError::MalformedTemplateName)
    } else {
        Ok(String::from_str(path.substring_char(0, end)))
    }
}

} // verus!
