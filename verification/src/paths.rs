//! Paths, as text.

use vstd::prelude::*;
use vstd::string::*;

verus! {

/// A path below a directory. A path that begins at the root stands for itself.
pub open spec fn joined(dir: Seq<char>, leaf: Seq<char>) -> Seq<char> {
    if leaf.len() > 0 && leaf[0] == '/' {
        leaf
    } else if dir.len() == 0 || dir.last() == '/' {
        dir + leaf
    } else {
        dir + seq!['/'] + leaf
    }
}

/// A path below a directory.
pub fn join_path(dir: &str, leaf: &str) -> (r: String)
    ensures
        r@ == joined(dir@, leaf@),
{
    if leaf.unicode_len() > 0 && leaf.get_char(0) == '/' {
        return leaf.to_owned();
    }
    let n = dir.unicode_len();
    let mut r = dir.to_owned();
    if n > 0 && dir.get_char(n - 1) != '/' {
        r.push('/');
    }
    r.append(leaf);
    assert(r@ =~= joined(dir@, leaf@));
    r
}

/// Two different names below one directory are two different paths.
pub proof fn law_names_do_not_share_a_path(dir: Seq<char>, a: Seq<char>, b: Seq<char>)
    requires
        a.len() == 0 || a[0] != '/',
        b.len() == 0 || b[0] != '/',
        joined(dir, a) == joined(dir, b),
    ensures
        a == b,
{
    let base = if dir.len() == 0 || dir.last() == '/' {
        dir
    } else {
        dir + seq!['/']
    };
    assert(joined(dir, a).skip(base.len() as int) =~= a);
    assert(joined(dir, b).skip(base.len() as int) =~= b);
}

} // verus!
