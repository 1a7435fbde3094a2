//! Paths on a device. Components are separated by `/`, whatever the machine
//! that this library runs on. A component that is empty or `.` names nothing:
//! `a//b`, `a/./b` and `a/b/` all name `b` in `a`. Only a `.` that opens a
//! path names the current directory.

use crate::text::{chars_of, string_of};
use vstd::prelude::*;
use vstd::string::StringExecFns;

verus! {

/// The length of what stands before the components of `p`: one character
/// for the root `/`, one for a `.` that opens the path, else none.
pub open spec fn head_len(p: Seq<char>) -> int {
    if p.len() > 0 && (p[0] == '/' || (p[0] == '.' && (p.len() == 1 || p[1] == '/'))) {
        1
    } else {
        0
    }
}

/// Where the last component of the first `n` characters of `p` starts:
/// behind the last `/` at or after position `b`, or at `b`.
pub open spec fn last_component_start(p: Seq<char>, b: int, n: int) -> int
    decreases n - b,
{
    if n <= b || n > p.len() {
        b
    } else if p[n - 1] == '/' {
        n
    } else {
        last_component_start(p, b, n - 1)
    }
}

/// The length that is left of the first `n` characters of `p` without their
/// last component and the `/` before it.
pub open spec fn without_last_component(p: Seq<char>, b: int, n: int) -> int {
    let k = last_component_start(p, b, n);
    if k > b {
        k - 1
    } else {
        b
    }
}

/// Whether the component `c` names nothing.
pub open spec fn is_blank_component(c: Seq<char>) -> bool {
    c.len() == 0 || (c.len() == 1 && c[0] == '.')
}

/// The length that is left of the first `n` characters of `p` once the
/// components at their end that name nothing are taken away.
pub open spec fn settled_len(p: Seq<char>, b: int, n: int) -> int
    decreases n,
{
    if n <= b || n > p.len() || b < 0 {
        n
    } else {
        let k = last_component_start(p, b, n);
        if is_blank_component(p.subrange(k, n)) {
            proof {
                lemma_last_component_start(p, b, n);
            }
            settled_len(p, b, without_last_component(p, b, n))
        } else {
            n
        }
    }
}

/// Whether `p` ends in a component that names something, or is `/` or `.`.
pub open spec fn is_settled(p: Seq<char>) -> bool {
    p.len() > 0 && settled_len(p, head_len(p), p.len() as int) == p.len()
}

/// The path above `p`: `p` without its last component that names something,
/// and without what names nothing before it. The root and the empty path
/// have none. The path above `.` is the empty path.
pub open spec fn parent_of(p: Seq<char>) -> Option<Seq<char>> {
    let b = head_len(p);
    let n = settled_len(p, b, p.len() as int);
    if n <= b {
        if b == 1 && p[0] == '.' {
            Some(Seq::empty())
        } else {
            None
        }
    } else {
        Some(p.take(settled_len(p, b, without_last_component(p, b, n))))
    }
}

/// The path of the entry `name` in the directory `p`.
pub open spec fn child_of(p: Seq<char>, name: Seq<char>) -> Seq<char> {
    p + seq!['/'] + name
}

/// Whether the path `p` lies within the directory `root`: it is `root`
/// itself, or `root`, a `/` and more. A path that only begins with the text
/// of `root`, as a neighbour of `root` may, does not lie within it.
pub open spec fn is_within(p: Seq<char>, root: Seq<char>) -> bool {
    p == root || (root + seq!['/']).is_prefix_of(p)
}

/// Where the last component starts: within bounds, behind a `/` unless at
/// `b`, and with no `/` in the component.
pub proof fn lemma_last_component_start(p: Seq<char>, b: int, n: int)
    requires
        0 <= b <= n <= p.len(),
    ensures
        b <= last_component_start(p, b, n) <= n,
        last_component_start(p, b, n) > b ==> p[last_component_start(p, b, n) - 1] == '/',
        forall|i: int| last_component_start(p, b, n) <= i < n ==> p[i] != '/',
        b <= without_last_component(p, b, n) <= n,
        n > b ==> without_last_component(p, b, n) < n,
    decreases n,
{
    if n > b && p[n - 1] != '/' {
        lemma_last_component_start(p, b, n - 1);
    }
}

/// What settling leaves: a length between `b` and `n`.
pub proof fn lemma_settled_len(p: Seq<char>, b: int, n: int)
    requires
        0 <= b <= n <= p.len(),
    ensures
        b <= settled_len(p, b, n) <= n,
    decreases n,
{
    if n > b {
        let k = last_component_start(p, b, n);
        lemma_last_component_start(p, b, n);
        if is_blank_component(p.subrange(k, n)) {
            lemma_settled_len(p, b, without_last_component(p, b, n));
        }
    }
}

/// The path above `p` begins `p` and is shorter than `p`.
pub proof fn lemma_parent_is_shorter(p: Seq<char>)
    ensures
        parent_of(p) matches Some(q) ==> q.len() < p.len() && q.is_prefix_of(p),
{
    let b = head_len(p);
    let n = settled_len(p, b, p.len() as int);
    lemma_settled_len(p, b, p.len() as int);
    if n > b {
        lemma_last_component_start(p, b, n);
        lemma_settled_len(p, b, without_last_component(p, b, n));
    }
}

/// Where a component starts and what settling leaves depend only on the
/// characters before `n`.
pub proof fn lemma_same_prefix(p: Seq<char>, q: Seq<char>, b: int, n: int)
    requires
        0 <= b <= n,
        n <= p.len(),
        n <= q.len(),
        p.take(n) == q.take(n),
    ensures
        last_component_start(p, b, n) == last_component_start(q, b, n),
        settled_len(p, b, n) == settled_len(q, b, n),
    decreases n,
{
    assert forall|i: int| 0 <= i < n implies p[i] == q[i] by {
        assert(p.take(n)[i] == p[i]);
        assert(q.take(n)[i] == q[i]);
    }
    lemma_component_same_prefix(p, q, b, n);
    if n > b {
        let k = last_component_start(p, b, n);
        lemma_last_component_start(p, b, n);
        assert(p.subrange(k, n) =~= q.subrange(k, n));
        let m = without_last_component(p, b, n);
        assert(p.take(m) =~= q.take(m));
        lemma_same_prefix(p, q, b, m);
    }
}

proof fn lemma_component_same_prefix(p: Seq<char>, q: Seq<char>, b: int, n: int)
    requires
        0 <= b <= n,
        n <= p.len(),
        n <= q.len(),
        forall|i: int| 0 <= i < n ==> p[i] == q[i],
    ensures
        last_component_start(p, b, n) == last_component_start(q, b, n),
    decreases n,
{
    if n > b && p[n - 1] != '/' {
        lemma_component_same_prefix(p, q, b, n - 1);
    }
}

/// Whether `name` is one component that names something: not empty, not
/// `.`, and without a `/`.
pub open spec fn is_plain_name(name: Seq<char>) -> bool {
    &&& !is_blank_component(name)
    &&& forall|i: int| 0 <= i < name.len() ==> name[i] != '/'
}

/// Whether `name` holds exactly one component that names something: one is
/// left when what names nothing is taken from its end, and nothing is left
/// when that one is taken too.
pub open spec fn names_one_entry(name: Seq<char>) -> bool {
    let n = settled_len(name, 0, name.len() as int);
    n > 0 && settled_len(name, 0, without_last_component(name, 0, n)) == 0
}

/// Whether `c` ends in a `/` at position `at - 1` followed by `name`.
spec fn ends_in_name(c: Seq<char>, name: Seq<char>, at: int) -> bool {
    &&& 1 <= at
    &&& c.len() == at + name.len()
    &&& c[at - 1] == '/'
    &&& forall|i: int| 0 <= i < name.len() ==> c[at + i] == name[i]
}

/// Within a name at the end of a path, components start where they start
/// in the name alone.
proof fn lemma_component_in_name(c: Seq<char>, name: Seq<char>, b: int, at: int, m: int)
    requires
        ends_in_name(c, name, at),
        0 <= b < at,
        0 <= m <= name.len(),
    ensures
        last_component_start(c, b, at + m) == at + last_component_start(name, 0, m),
    decreases m,
{
    if m > 0 {
        assert(c[at + m - 1] == name[m - 1]);
        if name[m - 1] != '/' {
            lemma_component_in_name(c, name, b, at, m - 1);
        }
    }
}

/// Settling a path that ends in a name stops in the name where settling the
/// name alone leaves something, and goes on before the name where it leaves
/// nothing.
proof fn lemma_settled_in_name(c: Seq<char>, name: Seq<char>, b: int, at: int, m: int)
    requires
        ends_in_name(c, name, at),
        0 <= b < at,
        0 <= m <= name.len(),
    ensures
        0 <= settled_len(name, 0, m) <= m,
        settled_len(name, 0, m) > 0 ==> settled_len(c, b, at + m) == at + settled_len(name, 0, m),
        settled_len(name, 0, m) == 0 ==> settled_len(c, b, at + m) == settled_len(c, b, at - 1),
    decreases m,
{
    lemma_component_in_name(c, name, b, at, m);
    lemma_last_component_start(name, 0, m);
    lemma_last_component_start(c, b, at + m);
    let k = last_component_start(name, 0, m);
    assert(last_component_start(c, b, at + m) == at + k);
    assert(without_last_component(c, b, at + m) == at + k - 1);
    assert(c.subrange(at + k, at + m) =~= name.subrange(k, m));
    if m == 0 {
        assert(settled_len(name, 0, m) == 0);
        assert(is_blank_component(c.subrange(at + k, at + m)));
        assert(settled_len(c, b, at + m) == settled_len(c, b, at - 1));
    } else if is_blank_component(name.subrange(k, m)) {
        let rest = without_last_component(name, 0, m);
        assert(settled_len(name, 0, m) == settled_len(name, 0, rest));
        assert(settled_len(c, b, at + m) == settled_len(c, b, at + k - 1));
        if k > 0 {
            assert(rest == k - 1);
            lemma_settled_in_name(c, name, b, at, k - 1);
        } else {
            assert(rest == 0);
            assert(settled_len(name, 0, 0) == 0);
        }
    } else {
        assert(settled_len(name, 0, m) == m);
        assert(settled_len(c, b, at + m) == at + m);
    }
}

/// What stands before the components is the same for a directory and for
/// an entry in it, unless the directory's path is empty.
proof fn lemma_head_of_child(p: Seq<char>, name: Seq<char>)
    requires
        p.len() > 0,
    ensures
        head_len(child_of(p, name)) == head_len(p),
{
    let c = child_of(p, name);
    assert(c[0] == p[0]);
    if p.len() > 1 {
        assert(c[1] == p[1]);
    } else {
        assert(c[1] == '/');
    }
}

/// The length of the path above the entry `name` of the directory `p`,
/// where `name` holds one component that names something: what settling
/// leaves of `p`.
proof fn lemma_parent_of_one_entry(p: Seq<char>, name: Seq<char>)
    requires
        p.len() > 0,
        names_one_entry(name),
    ensures
        parent_of(child_of(p, name)) == Some(
            p.take(settled_len(p, head_len(p), p.len() as int)),
        ),
{
    let c = child_of(p, name);
    let at = p.len() as int + 1;
    let b = head_len(p);
    let whole = name.len() as int;
    let n = settled_len(name, 0, whole);
    let k = last_component_start(name, 0, n);
    let rest = without_last_component(name, 0, n);
    lemma_head_of_child(p, name);
    assert(ends_in_name(c, name, at));
    lemma_settled_in_name(c, name, b, at, whole);
    assert(settled_len(c, b, c.len() as int) == at + n);
    lemma_component_in_name(c, name, b, at, n);
    lemma_last_component_start(name, 0, n);
    assert(without_last_component(c, b, at + n) == at + k - 1);
    if k > 0 {
        lemma_settled_in_name(c, name, b, at, rest);
    }
    assert(settled_len(c, b, at + k - 1) == settled_len(c, b, at - 1));
    assert(c.take(at - 1) =~= p);
    assert(p.take(at - 1) =~= p);
    lemma_same_prefix(c, p, b, at - 1);
    lemma_settled_len(p, b, at - 1);
    let above = settled_len(p, b, at - 1);
    assert(c.take(above) =~= p.take(above));
}

/// The path above the entry `name` of the directory `p` is not `p` where
/// `name` does not hold exactly one component that names something.
proof fn lemma_parent_of_other_names(p: Seq<char>, name: Seq<char>)
    requires
        p.len() > 0,
        !names_one_entry(name),
    ensures
        parent_of(child_of(p, name)) != Some(p),
{
    let c = child_of(p, name);
    let at = p.len() as int + 1;
    let b = head_len(p);
    let whole = name.len() as int;
    let n = settled_len(name, 0, whole);
    lemma_head_of_child(p, name);
    assert(ends_in_name(c, name, at));
    lemma_settled_in_name(c, name, b, at, whole);
    if n > 0 {
        let k = last_component_start(name, 0, n);
        let rest = without_last_component(name, 0, n);
        lemma_component_in_name(c, name, b, at, n);
        lemma_last_component_start(name, 0, n);
        assert(settled_len(c, b, c.len() as int) == at + n);
        assert(without_last_component(c, b, at + n) == at + k - 1);
        assert(k > 0) by {
            if k <= 0 {
                assert(rest == 0);
                assert(settled_len(name, 0, 0) == 0);
            }
        }
        lemma_settled_in_name(c, name, b, at, rest);
        assert(settled_len(c, b, at + k - 1) == at + settled_len(name, 0, rest));
        assert(parent_of(c)->Some_0.len() > p.len());
    } else {
        lemma_settled_len(c, b, at - 1);
        let m = settled_len(c, b, c.len() as int);
        assert(m == settled_len(c, b, at - 1));
        if m > b {
            lemma_last_component_start(c, b, m);
            lemma_settled_len(c, b, without_last_component(c, b, m));
            assert(parent_of(c)->Some_0.len() < p.len());
        }
    }
}

/// The path above an entry of a directory is that directory exactly where
/// the directory's path is settled and the entry's name holds one component
/// that names something.
pub proof fn lemma_parent_of_child(p: Seq<char>, name: Seq<char>)
    ensures
        parent_of(child_of(p, name)) == Some(p) <==> is_settled(p) && names_one_entry(name),
{
    let c = child_of(p, name);
    if p.len() == 0 {
        let b = head_len(c);
        let n = settled_len(c, b, c.len() as int);
        assert(c[0] == '/');
        lemma_settled_len(c, b, c.len() as int);
        if n > b {
            lemma_last_component_start(c, b, n);
            lemma_settled_len(c, b, without_last_component(c, b, n));
        }
    } else if names_one_entry(name) {
        lemma_parent_of_one_entry(p, name);
        let above = settled_len(p, head_len(p), p.len() as int);
        lemma_settled_len(p, head_len(p), p.len() as int);
        if above == p.len() {
            assert(p.take(above) =~= p);
        } else {
            assert(p.take(above).len() != p.len());
        }
    } else {
        lemma_parent_of_other_names(p, name);
    }
}

/// A plain name holds exactly one component that names something.
pub proof fn lemma_plain_name_names_one_entry(name: Seq<char>)
    requires
        is_plain_name(name),
    ensures
        names_one_entry(name),
{
    let whole = name.len() as int;
    lemma_no_slash_is_one_component(name, whole);
    assert(name.subrange(0, whole) =~= name);
}

/// Without a `/` the whole text is one component.
proof fn lemma_no_slash_is_one_component(name: Seq<char>, n: int)
    requires
        0 <= n <= name.len(),
        forall|i: int| 0 <= i < name.len() ==> name[i] != '/',
    ensures
        last_component_start(name, 0, n) == 0,
    decreases n,
{
    if n > 0 {
        lemma_no_slash_is_one_component(name, n - 1);
    }
}

/// Finds where the last component of `v[..n]` starts.
fn component_start(v: &Vec<char>, b: usize, n: usize) -> (k: usize)
    requires
        b <= n <= v.len(),
    ensures
        k == last_component_start(v@, b as int, n as int),
        b <= k <= n,
{
    let mut k: usize = n;
    while k > b && v[k - 1] != '/'
        invariant
            b <= k <= n <= v.len(),
            last_component_start(v@, b as int, k as int) == last_component_start(
                v@,
                b as int,
                n as int,
            ),
        decreases k,
    {
        k -= 1;
    }
    k
}

/// Takes the components that name nothing from the end of `v[..n]`.
fn settle(v: &Vec<char>, b: usize, n: usize) -> (m: usize)
    requires
        b <= n <= v.len(),
    ensures
        m == settled_len(v@, b as int, n as int),
        b <= m <= n,
{
    let mut m: usize = n;
    while m > b
        invariant
            b <= m <= n <= v.len(),
            settled_len(v@, b as int, m as int) == settled_len(v@, b as int, n as int),
        decreases m,
    {
        let k = component_start(v, b, m);
        let blank = k == m || (k + 1 == m && v[k] == '.');
        assert(blank == is_blank_component(v@.subrange(k as int, m as int)));
        if !blank {
            return m;
        }
        m = if k > b {
            k - 1
        } else {
            b
        };
    }
    m
}

/// The path above `path`, if it has one.
pub fn parent(path: &str) -> (r: Option<String>)
    ensures
        r.deep_view() == parent_of(path@),
{
    let v = chars_of(path);
    let b: usize = if v.len() > 0 && (v[0] == '/' || (v[0] == '.' && (v.len() == 1 || v[1]
        == '/'))) {
        1
    } else {
        0
    };
    let n = settle(&v, b, v.len());
    if n <= b {
        if b == 1 && v[0] == '.' {
            Some(String::new())
        } else {
            None
        }
    } else {
        let k = component_start(&v, b, n);
        let rest: usize = if k > b {
            k - 1
        } else {
            b
        };
        let m = settle(&v, b, rest);
        let above = string_of(&v, 0, m);
        assert(v@.subrange(0, m as int) == v@.take(m as int));
        Some(above)
    }
}

/// The path of the entry `name` in the directory `path`: the two with a `/`
/// between them.
pub fn join(path: &str, name: &str) -> (r: String)
    ensures
        r@ == child_of(path@, name@),
{
    let r = String::from_str(path).concat("/").concat(name);
    proof {
        reveal_strlit("/");
        assert("/"@ =~= seq!['/']);
    }
    r
}

/// Whether `text` begins with `prefix`.
pub fn starts_with(text: &str, prefix: &str) -> (r: bool)
    ensures
        r == prefix@.is_prefix_of(text@),
{
    let t = chars_of(text);
    let p = chars_of(prefix);
    if p.len() > t.len() {
        return false;
    }
    let mut i: usize = 0;
    while i < p.len()
        invariant
            i <= p.len() <= t.len(),
            t@ == text@,
            p@ == prefix@,
            forall|k: int| 0 <= k < i ==> t@[k] == p@[k],
        decreases p.len() - i,
    {
        if t[i] != p[i] {
            assert(p@[i as int] != t@.subrange(0, p@.len() as int)[i as int]);
            return false;
        }
        i += 1;
    }
    assert(p@ =~= t@.subrange(0, p@.len() as int));
    true
}

/// Whether the path `path` lies within the directory `root`.
pub fn within(path: &str, root: &str) -> (r: bool)
    ensures
        r == is_within(path@, root@),
{
    let below = String::from_str(root).concat("/");
    proof {
        reveal_strlit("/");
        assert("/"@ =~= seq!['/']);
    }
    if starts_with(path, below.as_str()) {
        return true;
    }
    let same = starts_with(path, root) && starts_with(root, path);
    proof {
        if same {
            assert(path@ =~= root@.subrange(0, path@.len() as int));
            assert(root@ =~= root@.subrange(0, root@.len() as int));
        }
    }
    same
}

} // verus!
