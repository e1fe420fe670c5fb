//! Where a package's record lives inside a registry index.

use vstd::prelude::*;
use vstd::string::*;

verus! {

/// The ASCII lower-case form of one character: `A`..`Z` move to `a`..`z`,
/// every other character stays.
pub open spec fn ascii_lower(c: char) -> char {
    if 65 <= c as u32 && c as u32 <= 90 {
        ((c as u32) + 32) as char
    } else {
        c
    }
}

/// The ASCII lower-case form of a text, character by character.
pub open spec fn lowered(s: Seq<char>) -> Seq<char> {
    Seq::new(s.len(), |i: int| ascii_lower(s[i]))
}

/// The index path of a package name, by the length of the name.
pub open spec fn index_path_of(name: Seq<char>) -> Seq<char> {
    let n = lowered(name);
    if n.len() == 1 {
        seq!['1', '/'] + n
    } else if n.len() == 2 {
        seq!['2', '/'] + n
    } else if n.len() == 3 {
        seq!['3', '/', n[0], '/'] + n
    } else {
        n.subrange(0, 2) + seq!['/'] + n.subrange(2, 4) + seq!['/'] + n
    }
}

/// `str::to_ascii_lowercase`: a copy of the text in which the ASCII letters
/// `A`..`Z` are replaced by `a`..`z` and all other characters are kept.
pub assume_specification[ str::to_ascii_lowercase ](s: &str) -> (r: String)
    ensures
        r@ == lowered(s@),
;

/// Get the index path for a package.
///
/// Names of one, two and three characters live under `1/`, `2/` and
/// `3/<first character>/`; longer names under their first two and next two
/// characters. The path is lower-cased as a whole.
pub fn get_index_path(package: &str) -> (path: String)
    requires
        package@.len() > 0,
    ensures
        path@ == index_path_of(package@),
{
    let n: usize = package.unicode_len();
    let mut path = String::new();
    proof {
        reveal_strlit("1/");
        reveal_strlit("2/");
        reveal_strlit("3/");
        reveal_strlit("/");
    }
    if n == 1 {
        path.append("1/");
    } else if n == 2 {
        path.append("2/");
    } else if n == 3 {
        path.append("3/");
        path.append(package.substring_char(0, 1));
        path.append("/");
    } else {
        path.append(package.substring_char(0, 2));
        path.append("/");
        path.append(package.substring_char(2, 4));
        path.append("/");
    }
    path.append(package);
    let lower = path.as_str().to_ascii_lowercase();
    assert(lower@ =~= index_path_of(package@));
    lower
}

/// The index path of a name that is not empty does not depend on the case of
/// the name's ASCII letters, and holds no ASCII capital itself.
pub proof fn lemma_index_path_ignores_case(name: Seq<char>)
    requires
        name.len() > 0,
    ensures
        index_path_of(lowered(name)) == index_path_of(name),
        lowered(index_path_of(name)) == index_path_of(name),
{
    let n = lowered(name);
    assert(lowered(n) =~= n);
    assert forall|i: int| 0 <= i < n.len() implies ascii_lower(#[trigger] n[i]) == n[i] by {}
    let path = index_path_of(name);
    assert forall|i: int| 0 <= i < path.len() implies ascii_lower(#[trigger] path[i]) == path[i] by {
        if n.len() == 1 || n.len() == 2 {
            if i >= 2 {
                assert(path[i] == n[i - 2]);
            }
        } else if n.len() == 3 {
            if i >= 4 {
                assert(path[i] == n[i - 4]);
            }
        } else if i < 2 {
            assert(path[i] == n.subrange(0, 2)[i]);
        } else if 3 <= i < 5 {
            assert(path[i] == n.subrange(2, 4)[i - 3]);
        } else if i >= 6 {
            assert(path[i] == n[i - 6]);
        }
    }
    assert(lowered(path) =~= path);
}

} // verus!
