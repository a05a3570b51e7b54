//! Path text.

use vstd::prelude::*;
use vstd::string::{StrSliceExecFns, StringExecFns};

verus! {

/// Whether `s` begins with the four characters `\\?\`, the mark that some
/// systems put in front of a canonical path.
pub open spec fn starts_with_marker(s: Seq<char>) -> bool {
    &&& s.len() >= 4
    &&& s[0] == '\\'
    &&& s[1] == '\\'
    &&& s[2] == '?'
    &&& s[3] == '\\'
}

/// `s` without its marks, found from left to right: where a mark begins, its
/// four characters are left out and the search goes on behind them.
pub open spec fn without_markers(s: Seq<char>) -> Seq<char>
    decreases s.len(),
{
    if s.len() == 0 {
        s
    } else if starts_with_marker(s) {
        without_markers(s.skip(4))
    } else {
        seq![s[0]] + without_markers(s.skip(1))
    }
}

/// The plain form of a canonical path: every mark `\\?\` is taken out.
///
/// The caller resolves the path against the file system first; this function
/// only works on the text it is given.
pub fn get_absolute_path(path: &str) -> (clean: String)
    ensures
        clean@ == without_markers(path@),
{
    let len = path.unicode_len();
    let mut clean = String::new();
    let mut i: usize = 0;
    proof {
        assert(path@.skip(0) =~= path@);
        assert(clean@ + without_markers(path@) =~= without_markers(path@));
    }
    while i < len
        invariant
            i <= len,
            len == path@.len(),
            without_markers(path@) == clean@ + without_markers(path@.skip(i as int)),
        decreases len - i,
    {
        let ghost rest = path@.skip(i as int);
        if len - i >= 4 && path.get_char(i) == '\\' && path.get_char(i + 1) == '\\'
            && path.get_char(i + 2) == '?' && path.get_char(i + 3) == '\\' {
            proof {
                assert(starts_with_marker(rest));
                assert(rest.skip(4) =~= path@.skip(i + 4));
            }
            i = i + 4;
        } else {
            proof {
                assert(!starts_with_marker(rest));
                assert(rest.skip(1) =~= path@.skip(i + 1));
                assert(path@.subrange(i as int, i + 1) =~= seq![rest[0]]);
                assert((clean@ + seq![rest[0]]) + without_markers(rest.skip(1)) =~= clean@ + (
                seq![rest[0]] + without_markers(rest.skip(1))));
            }
            clean.append(path.substring_char(i, i + 1));
            i = i + 1;
        }
    }
    proof {
        assert(path@.skip(i as int) =~= Seq::<char>::empty());
        assert(clean@ + Seq::<char>::empty() =~= clean@);
    }
    clean
}

} // verus!
