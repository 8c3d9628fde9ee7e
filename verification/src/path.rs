//! Unix paths, as the bytes that they are made of.
use vstd::prelude::*;

use crate::bytes::append_bytes;
use crate::text::{
    char_pieces, lacks, lemma_index_of_is, split, split_last_piece, split_of_one_piece,
};

verus! {

/// The byte that separates the components of a path.
pub const SLASH: u8 = 47;

/// Tells whether a path is absolute.
pub open spec fn is_absolute(path: Seq<u8>) -> bool {
    path.len() > 0 && path[0] == SLASH
}

/// `path` below `base`: an absolute path stands for itself, any other follows `base`, with a
/// slash between the two unless `base` is empty or ends in one.
pub open spec fn joined(base: Seq<u8>, path: Seq<u8>) -> Seq<u8> {
    if is_absolute(path) {
        path
    } else if base.len() > 0 && base.last() != SLASH {
        base.push(SLASH) + path
    } else {
        base + path
    }
}

/// `path` below `base`.
pub fn join(base: &[u8], path: &[u8]) -> (r: Vec<u8>)
    ensures
        r@ == joined(base@, path@),
{
    let mut r: Vec<u8> = Vec::new();
    if path.len() == 0 || path[0] != SLASH {
        append_bytes(&mut r, base);
        if base.len() > 0 && base[base.len() - 1] != SLASH {
            r.push(SLASH);
        }
    }
    append_bytes(&mut r, path);
    assert(r@ =~= joined(base@, path@));
    r
}

/// Joining is associative: it does not matter which two of three paths are joined first.
pub proof fn joined_is_associative(a: Seq<u8>, b: Seq<u8>, c: Seq<u8>)
    ensures
        joined(joined(a, b), c) == joined(a, joined(b, c)),
{
    assert(joined(joined(a, b), c) =~= joined(a, joined(b, c)));
}

/// An absolute base gives an absolute path.
pub proof fn joined_stays_absolute(base: Seq<u8>, path: Seq<u8>)
    requires
        is_absolute(base),
    ensures
        is_absolute(joined(base, path)),
{
}

/// Tells whether a path neither is empty nor begins or ends with a slash.
pub open spec fn is_bare(path: Seq<u8>) -> bool {
    path.len() > 0 && path[0] != SLASH && path.last() != SLASH
}

/// Names that are joined are separated by one slash each.
pub proof fn joined_names(base: Seq<u8>, first: Seq<u8>, second: Seq<u8>)
    requires
        base.len() > 0,
        base.last() != SLASH,
        is_bare(first),
        is_bare(second),
    ensures
        joined(base, first) == base + seq![SLASH] + first,
        joined(base, joined(first, second)) == base + seq![SLASH] + first + seq![SLASH] + second,
{
    assert(joined(base, first) =~= base + seq![SLASH] + first);
    let both = joined(first, second);
    assert(both[0] == first[0]);
    assert(joined(base, both) =~= base + seq![SLASH] + first + seq![SLASH] + second);
}

/// Tells whether a piece of a path adds nothing to it: it is empty or names the directory itself.
pub open spec fn is_idle(piece: Seq<char>) -> bool {
    piece.len() == 0 || piece == seq!['.']
}

/// The last of the pieces that adds something to the path, unless it leads to a parent directory.
pub open spec fn last_name(pieces: Seq<Seq<char>>) -> Option<Seq<char>>
    decreases pieces.len(),
{
    if pieces.len() == 0 {
        None
    } else if is_idle(pieces.last()) {
        last_name(pieces.drop_last())
    } else if pieces.last() == seq!['.', '.'] {
        None
    } else {
        Some(pieces.last())
    }
}

/// The name in which a path ends, if it does not end in `..` and is not made of slashes and dots
/// alone.
pub open spec fn final_name(path: Seq<char>) -> Option<Seq<char>> {
    last_name(split(path, '/'))
}

/// A name is the name in which it ends.
pub proof fn lemma_plain_name(name: Seq<char>)
    requires
        lacks(name, '/'),
        !is_idle(name),
        name != seq!['.', '.'],
    ensures
        final_name(name) == Some(name),
{
    lemma_index_of_is(name, '/', name.len() as int);
    assert(split(name, '/') == seq![name]);
}

/// Where the name lies in which a path ends.
pub fn final_name_range(path: &Vec<char>) -> (r: Option<(usize, usize)>)
    ensures
        r is Some <==> final_name(path@) is Some,
        r matches Some((from, to)) ==> {
            &&& from <= to <= path@.len()
            &&& final_name(path@) == Some(path@.subrange(from as int, to as int))
        },
{
    let pieces = char_pieces(path, '/');
    let ghost all = split(path@, '/');
    let mut n: usize = pieces.len();
    assert(all.take(n as int) == all);
    while n > 0
        invariant
            n <= pieces@.len() == all.len(),
            all == split(path@, '/'),
            last_name(all.take(n as int)) == final_name(path@),
            forall|i: int| #![trigger pieces@[i]]
                0 <= i < pieces@.len() ==> {
                    &&& pieces@[i].0 <= pieces@[i].1 <= path@.len()
                    &&& path@.subrange(pieces@[i].0 as int, pieces@[i].1 as int) == all[i]
                },
        decreases n,
    {
        let (from, to) = pieces[n - 1];
        let ghost piece = all[n - 1];
        assert(all.take(n as int).last() == piece);
        assert(all.take(n as int).drop_last() == all.take(n - 1));
        let len: usize = to - from;
        assert(piece.len() == len);
        if len == 0 {
            n = n - 1;
        } else if len == 1 && path[from] == '.' {
            assert(piece[0] == path@[from as int]);
            assert(piece == seq!['.']);
            n = n - 1;
        } else {
            assert(piece[0] == path@[from as int]);
            assert(piece != seq!['.']);
            if len == 2 && path[from] == '.' && path[from + 1] == '.' {
                assert(piece[1] == path@[from + 1]);
                assert(piece == seq!['.', '.']);
                return None;
            }
            assert(piece != seq!['.', '.']) by {
                if piece == seq!['.', '.'] {
                    assert(piece[1] == path@[from + 1]);
                }
            }
            return Some((from, to));
        }
    }
    None
}

/// How a path is joined to a base: an absolute path stands for itself; any other follows the base,
/// behind exactly one slash, unless the base is empty.
pub proof fn paths_are_joined_by_one_slash(base: Seq<u8>, path: Seq<u8>)
    ensures
        joined(base, seq![SLASH] + path) == seq![SLASH] + path,
        !is_absolute(path) ==> {
            &&& joined(seq![], path) == path
            &&& joined(base.push(SLASH), path) == base.push(SLASH) + path
            &&& base.len() > 0 && base.last() != SLASH ==> joined(base, path) == base + seq![SLASH]
                + path
        },
{
    if !is_absolute(path) {
        assert(joined(seq![], path) =~= path);
        assert(joined(base.push(SLASH), path) =~= base.push(SLASH) + path);
        if base.len() > 0 && base.last() != SLASH {
            assert(joined(base, path) =~= base + seq![SLASH] + path);
        }
    }
}

/// The name in which a path ends: the one behind the last slash, slashes and dots at the end left
/// out; none if that leads to a parent directory.
pub proof fn the_name_behind_the_last_slash(directory: Seq<char>, name: Seq<char>)
    requires
        lacks(name, '/'),
    ensures
        !is_idle(name) && name != seq!['.', '.'] ==> final_name(directory.push('/') + name) == Some(
            name,
        ),
        final_name(directory.push('/')) == final_name(directory),
        final_name(directory + seq!['/', '.']) == final_name(directory),
        final_name(directory + seq!['/', '.', '.']) is None,
        final_name(seq![]) is None,
        final_name(seq!['.']) is None,
        final_name(seq!['.', '.']) is None,
{
    let none = Seq::<char>::empty();
    let pieces = split(directory, '/');
    let dot = seq!['.'];
    let dots = seq!['.', '.'];
    split_last_piece(directory, name, '/');
    assert(pieces.push(name).drop_last() == pieces);
    split_last_piece(directory, none, '/');
    assert(directory.push('/') + none =~= directory.push('/'));
    assert(pieces.push(none).drop_last() == pieces);
    split_last_piece(directory, dot, '/');
    assert(directory + seq!['/', '.'] =~= directory.push('/') + dot);
    assert(pieces.push(dot).drop_last() == pieces);
    split_last_piece(directory, dots, '/');
    assert(directory + seq!['/', '.', '.'] =~= directory.push('/') + dots);
    assert(!(dots =~= dot));
    split_of_one_piece(none, '/');
    split_of_one_piece(dot, '/');
    split_of_one_piece(dots, '/');
    assert(seq![none].drop_last() == Seq::<Seq<char>>::empty());
    assert(seq![dot].drop_last() == Seq::<Seq<char>>::empty());
    assert(last_name(Seq::<Seq<char>>::empty()) is None);
    assert(last_name(seq![none]) is None);
    assert(last_name(seq![dot]) is None);
}

} // verus!
