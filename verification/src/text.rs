//! Text matching rules: ASCII case folding, and the file-name component of
//! an executable's path.

use vstd::prelude::*;
use vstd::std_specs::iter::IteratorSpec;

verus! {

/// `c` with the letters `A` to `Z` mapped to `a` to `z`; every other
/// character, accented letters included, is left as it is.
pub open spec fn ascii_lower(c: char) -> char {
    if 'A' <= c && c <= 'Z' {
        ((c as u8) + 32u8) as char
    } else {
        c
    }
}

/// `s` with each character replaced by its [`ascii_lower`].
pub open spec fn ascii_folded(s: Seq<char>) -> Seq<char> {
    s.map_values(|c: char| ascii_lower(c))
}

/// Two texts are the same up to ASCII case when their folded forms agree.
pub open spec fn same_ignoring_ascii_case(a: Seq<char>, b: Seq<char>) -> bool {
    ascii_folded(a) == ascii_folded(b)
}

/// Characters that end a directory name in a path: `\` and `/`.
pub open spec fn is_separator(c: char) -> bool {
    c == '\\' || c == '/'
}

/// Position just behind the last separator of `path`, or 0 where it has none.
pub open spec fn file_name_start(path: Seq<char>) -> nat
    decreases path.len(),
{
    if path.len() == 0 {
        0
    } else if is_separator(path.last()) {
        path.len()
    } else {
        file_name_start(path.drop_last())
    }
}

/// What follows the last separator of `path`: the whole of `path` where it
/// has none, nothing where it ends in one.
pub open spec fn file_name_of(path: Seq<char>) -> Seq<char> {
    path.skip(file_name_start(path) as int)
}

/// `name` is the longest tail of `path` that is free of separators.
pub open spec fn is_file_name(name: Seq<char>, path: Seq<char>) -> bool {
    &&& name.len() <= path.len()
    &&& name == path.skip(path.len() - name.len())
    &&& forall|i: int| 0 <= i < name.len() ==> !is_separator(#[trigger] name[i])
    &&& name.len() < path.len() ==> is_separator(path[path.len() - name.len() - 1])
}

/// The file name starts within the path, right behind a separator unless
/// at the path's beginning, and holds no separator itself.
pub proof fn lemma_file_name_start_bounds(path: Seq<char>)
    ensures
        file_name_start(path) <= path.len(),
        file_name_start(path) > 0 ==> is_separator(path[file_name_start(path) - 1]),
        forall|i: int|
            file_name_start(path) <= i < path.len() ==> !is_separator(#[trigger] path[i]),
    decreases path.len(),
{
    if path.len() > 0 && !is_separator(path.last()) {
        let front = path.drop_last();
        lemma_file_name_start_bounds(front);
        assert forall|i: int| file_name_start(path) <= i < path.len() implies !is_separator(
            #[trigger] path[i],
        ) by {
            if i < front.len() {
                assert(path[i] == front[i]);
            }
        }
    }
}

/// [`file_name_of`] yields a file name of its path, and no other text is one.
pub proof fn lemma_file_name_is_unique(name: Seq<char>, path: Seq<char>)
    ensures
        is_file_name(name, path) <==> name == file_name_of(path),
{
    lemma_file_name_start_bounds(path);
    let start = file_name_start(path) as int;
    if is_file_name(name, path) {
        let cut = path.len() - name.len();
        if cut < start {
            assert(is_separator(name[start - 1 - cut]));
        }
        if cut > start {
            assert(!is_separator(path[cut - 1]));
        }
        assert(cut == start);
    }
    if name == file_name_of(path) {
        assert(path.skip(path.len() - name.len()) == name);
        assert forall|i: int| 0 <= i < name.len() implies !is_separator(#[trigger] name[i]) by {
            assert(name[i] == path[start + i]);
        }
    }
}

/// A bare name, free of separators, is its own file name.
pub proof fn lemma_file_name_of_plain(path: Seq<char>)
    requires
        forall|i: int| 0 <= i < path.len() ==> !is_separator(#[trigger] path[i]),
    ensures
        file_name_start(path) == 0,
        file_name_of(path) == path,
    decreases path.len(),
{
    if path.len() > 0 {
        let front = path.drop_last();
        assert forall|i: int| 0 <= i < front.len() implies !is_separator(#[trigger] front[i]) by {
            assert(front[i] == path[i]);
        }
        lemma_file_name_of_plain(front);
    }
    assert(path.skip(0) =~= path);
}

/// Folding is blind to ASCII case and to nothing else: an equivalence on texts.
pub proof fn lemma_same_ignoring_ascii_case_is_equivalence(
    a: Seq<char>,
    b: Seq<char>,
    c: Seq<char>,
)
    ensures
        same_ignoring_ascii_case(a, a),
        same_ignoring_ascii_case(a, b) ==> same_ignoring_ascii_case(b, a),
        same_ignoring_ascii_case(a, b) && same_ignoring_ascii_case(b, c)
            ==> same_ignoring_ascii_case(a, c),
        same_ignoring_ascii_case(a, b) ==> a.len() == b.len(),
{
    assert(ascii_folded(a).len() == a.len());
    assert(ascii_folded(b).len() == b.len());
}

/// Lower-cases one character by the ASCII rule.
pub fn to_ascii_lower(c: char) -> (r: char)
    ensures
        r == ascii_lower(c),
{
    if 'A' <= c && c <= 'Z' {
        let b: u8 = c as u8;
        (b + 32) as char
    } else {
        c
    }
}

/// Compares two texts character by character, letters `A` to `Z` counting as
/// equal to `a` to `z`.
pub fn eq_ignore_ascii_case(a: &str, b: &str) -> (same: bool)
    ensures
        same == same_ignoring_ascii_case(a@, b@),
{
    let mut left = a.chars();
    let mut right = b.chars();
    let ghost mut seen: int = 0;
    loop
        invariant
            0 <= seen <= a@.len(),
            seen <= b@.len(),
            left.remaining() == a@.skip(seen),
            right.remaining() == b@.skip(seen),
            forall|i: int| 0 <= i < seen ==> ascii_lower(#[trigger] a@[i]) == ascii_lower(b@[i]),
        decreases a@.len() - seen,
    {
        let x = left.next();
        let y = right.next();
        match (x, y) {
            (Some(p), Some(q)) => {
                if to_ascii_lower(p) != to_ascii_lower(q) {
                    proof {
                        assert(ascii_folded(a@)[seen] == ascii_lower(a@[seen]));
                        assert(ascii_folded(b@)[seen] == ascii_lower(b@[seen]));
                    }
                    return false;
                }
                proof {
                    assert(a@.skip(seen).drop_first() =~= a@.skip(seen + 1));
                    assert(b@.skip(seen).drop_first() =~= b@.skip(seen + 1));
                    seen = seen + 1;
                }
            },
            (None, None) => {
                proof {
                    assert(ascii_folded(a@) =~= ascii_folded(b@));
                }
                return true;
            },
            _ => {
                proof {
                    assert(ascii_folded(a@).len() == a@.len());
                    assert(ascii_folded(b@).len() == b@.len());
                }
                return false;
            },
        }
    }
}

/// The file-name component of `path`: what follows its last `\` or `/`.
pub fn file_name<'a>(path: &'a str) -> (name: &'a str)
    ensures
        name@ == file_name_of(path@),
{
    let len = path.unicode_len();
    let mut start: usize = 0;
    let mut at: usize = 0;
    for c in it: path.chars()
        invariant
            it.seq() == path@,
            len == path@.len(),
            at == it.index(),
            start == file_name_start(path@.take(at as int)),
            start <= at,
    {
        proof {
            assert(path@.take(at + 1).drop_last() =~= path@.take(at as int));
        }
        at = at + 1;
        if c == '\\' || c == '/' {
            start = at;
        }
    }
    proof {
        assert(path@.take(len as int) =~= path@);
        assert(path@.subrange(start as int, len as int) =~= path@.skip(start as int));
    }
    path.substring_char(start, len)
}

} // verus!
