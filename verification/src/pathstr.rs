//! Paths as plain strings, with the few operations the planners need:
//! absoluteness, joining, scope containment, and a lexicographic order.
//!
//! A path is absolute when it starts with `/`. Joining adds a single `/`
//! separator unless the directory part is empty or already ends with one.
//! A path lies in a scope when the scope is a whole-component prefix of
//! it, mirroring how path prefixes are compared component-wise: a scope
//! carrying one trailing `/` contains the same paths as the scope
//! without it. The order compares code points left to right, which for
//! strings agrees with comparing their UTF-8 bytes.

use vstd::prelude::*;

verus! {

/// Whether a path string is absolute.
pub open spec fn spec_is_absolute(path: Seq<char>) -> bool {
    path.len() > 0 && path[0] == '/'
}

/// The path obtained by placing `name` under the directory `dir`.
pub open spec fn spec_join_path(dir: Seq<char>, name: Seq<char>) -> Seq<char> {
    if dir.len() == 0 {
        name
    } else if dir[dir.len() - 1] == '/' {
        dir + name
    } else {
        dir + seq!['/'] + name
    }
}

/// Whether `path` lies under `scope`: the scope is empty, equals the
/// path (up to one trailing `/` on the scope), or is a prefix of the
/// path that ends at a component boundary.
pub open spec fn spec_in_scope(path: Seq<char>, scope: Seq<char>) -> bool {
    ||| scope.len() == 0
    ||| path == scope
    ||| scope == path + seq!['/']
    ||| (path.len() > scope.len() && path.subrange(0, scope.len() as int) == scope && (scope[
        scope.len() - 1
    ] == '/' || path[scope.len() as int] == '/'))
}

/// Tests whether a path string is absolute.
pub fn is_absolute_path(path: &str) -> (r: bool)
    ensures
        r == spec_is_absolute(path@),
{
    let n = path.unicode_len();
    if n == 0 {
        false
    } else {
        path.get_char(0) == '/'
    }
}

/// Places `name` under the directory `dir`, inserting a `/` separator
/// unless `dir` is empty or already ends with one.
pub fn join_path(dir: &str, name: &str) -> (r: String)
    ensures
        r@ == spec_join_path(dir@, name@),
{
    let n = dir.unicode_len();
    if n == 0 {
        return name.to_owned();
    }
    let last = dir.get_char(n - 1);
    let mut out = dir.to_owned();
    if last != '/' {
        out.append("/");
        proof {
            reveal_strlit("/");
            assert(out@ =~= dir@ + seq!['/']);
        }
    }
    out.append(name);
    proof {
        if last == '/' {
            assert(out@ =~= dir@ + name@);
        } else {
            assert(out@ =~= dir@ + seq!['/'] + name@);
        }
    }
    out
}

/// Tests whether `path` lies under `scope` (see [`spec_in_scope`]).
#[verifier::loop_isolation(false)]
pub fn path_in_scope(path: &str, scope: &str) -> (r: bool)
    ensures
        r == spec_in_scope(path@, scope@),
{
    let slen = scope.unicode_len();
    if slen == 0 {
        return true;
    }
    let plen = path.unicode_len();
    if plen == slen - 1 && scope.get_char(slen - 1) == '/' {
        // The scope may be the path itself with one trailing slash.
        let mut i: usize = 0;
        while i < plen
            invariant
                0 <= i <= plen,
                forall|j: int| 0 <= j < i ==> path@[j] == scope@[j],
            decreases plen - i,
        {
            if path.get_char(i) != scope.get_char(i) {
                proof {
                    assert(scope@ != path@ + seq!['/']) by {
                        assert((path@ + seq!['/'])[i as int] != scope@[i as int]);
                    }
                    assert(path@ != scope@) by {
                        assert(path@.len() != scope@.len());
                    }
                }
                return false;
            }
            i += 1;
        }
        proof {
            assert(scope@ =~= path@ + seq!['/']);
        }
        return true;
    }
    if plen < slen {
        proof {
            assert(path@ != scope@) by {
                assert(path@.len() != scope@.len());
            }
            assert(scope@ != path@ + seq!['/']) by {
                if scope@ == path@ + seq!['/'] {
                    assert(scope@.len() == path@.len() + 1);
                    assert(scope@[scope@.len() - 1] == '/');
                }
            }
        }
        return false;
    }
    let mut i: usize = 0;
    while i < slen
        invariant
            0 <= i <= slen,
            slen <= plen,
            forall|j: int| 0 <= j < i ==> path@[j] == scope@[j],
        decreases slen - i,
    {
        if path.get_char(i) != scope.get_char(i) {
            proof {
                assert(path@ != scope@);
                assert(path@.subrange(0, slen as int) != scope@) by {
                    assert(path@.subrange(0, slen as int)[i as int] != scope@[i as int]);
                }
                assert(scope@ != path@ + seq!['/']) by {
                    assert(scope@.len() <= path@.len());
                }
            }
            return false;
        }
        i += 1;
    }
    if plen == slen {
        proof {
            assert(path@ =~= scope@);
        }
        return true;
    }
    proof {
        assert(path@.subrange(0, slen as int) =~= scope@);
        assert(scope@ != path@ + seq!['/']) by {
            assert(scope@.len() < path@.len() + 1);
        }
    }
    if scope.get_char(slen - 1) == '/' {
        return true;
    }
    path.get_char(slen) == '/'
}

// ------------------------------------------------------------------
// Lexicographic order on strings.
// ------------------------------------------------------------------
/// Whether `a` is at most `b` in the order that compares code points
/// from index `i` on, a proper prefix coming first.
pub open spec fn spec_str_le_from(a: Seq<char>, b: Seq<char>, i: int) -> bool
    decreases a.len() - i,
{
    if i < 0 || i >= a.len() {
        true
    } else if i >= b.len() {
        false
    } else if a[i] == b[i] {
        spec_str_le_from(a, b, i + 1)
    } else {
        a[i] < b[i]
    }
}

/// Whether `a` is at most `b` lexicographically by code points, which
/// for strings is the same order as comparing their UTF-8 bytes.
pub open spec fn spec_str_le(a: Seq<char>, b: Seq<char>) -> bool {
    spec_str_le_from(a, b, 0)
}

/// The order is total: of any two strings, one is at most the other.
pub proof fn lemma_str_le_total(a: Seq<char>, b: Seq<char>)
    ensures
        spec_str_le(a, b) || spec_str_le(b, a),
{
    lemma_str_le_from_total(a, b, 0);
}

proof fn lemma_str_le_from_total(a: Seq<char>, b: Seq<char>, i: int)
    requires
        0 <= i,
    ensures
        spec_str_le_from(a, b, i) || spec_str_le_from(b, a, i),
    decreases a.len() - i,
{
    if i < a.len() && i < b.len() {
        if a[i] == b[i] {
            lemma_str_le_from_total(a, b, i + 1);
        }
    }
}

/// The order is transitive.
pub proof fn lemma_str_le_trans(a: Seq<char>, b: Seq<char>, c: Seq<char>)
    requires
        spec_str_le(a, b),
        spec_str_le(b, c),
    ensures
        spec_str_le(a, c),
{
    lemma_str_le_from_trans(a, b, c, 0);
}

proof fn lemma_str_le_from_trans(a: Seq<char>, b: Seq<char>, c: Seq<char>, i: int)
    requires
        0 <= i,
        spec_str_le_from(a, b, i),
        spec_str_le_from(b, c, i),
    ensures
        spec_str_le_from(a, c, i),
    decreases a.len() - i,
{
    if i < a.len() && i < b.len() && i < c.len() && a[i] == b[i] && b[i] == c[i] {
        lemma_str_le_from_trans(a, b, c, i + 1);
    }
}

/// Compares two strings in the order of [`spec_str_le`].
#[verifier::loop_isolation(false)]
pub fn str_le(a: &str, b: &str) -> (r: bool)
    ensures
        r == spec_str_le(a@, b@),
{
    let alen = a.unicode_len();
    let blen = b.unicode_len();
    let mut i: usize = 0;
    while i < alen && i < blen
        invariant
            0 <= i <= alen,
            i <= blen,
            spec_str_le_from(a@, b@, 0) == spec_str_le_from(a@, b@, i as int),
        decreases alen - i,
    {
        let ca = a.get_char(i);
        let cb = b.get_char(i);
        if ca != cb {
            return ca < cb;
        }
        i += 1;
    }
    alen <= blen
}

} // verus!
