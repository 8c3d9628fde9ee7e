//! The command line of a process.
use vstd::prelude::*;

use crate::text::{
    char_pieces, chars_of, lacks, pieces_lack_the_separator, split, split_first_piece,
    split_of_one_piece, string_of,
};

verus! {

/// The texts of the strings.
pub open spec fn texts(strings: Seq<String>) -> Seq<Seq<char>> {
    strings.map_values(|s: String| s@)
}

/// The arguments in a command line: what stands between the NUL characters and is not empty.
pub open spec fn arguments(line: Seq<char>) -> Seq<Seq<char>> {
    split(line, '\0').filter(|piece: Seq<char>| piece.len() > 0)
}

/// Takes a command line apart into its arguments.
pub fn read_arguments(line: &str) -> (r: Vec<String>)
    ensures
        texts(r@) == arguments(line@),
{
    let chars = chars_of(line);
    let pieces = char_pieces(&chars, '\0');
    let ghost all = split(line@, '\0');
    let ghost keep = |piece: Seq<char>| piece.len() > 0;
    let mut r: Vec<String> = Vec::new();
    let mut i: usize = 0;
    assert(all.take(0).filter(keep) == Seq::<Seq<char>>::empty()) by {
        reveal(Seq::filter);
    }
    while i < pieces.len()
        invariant
            i <= pieces@.len() == all.len(),
            all == split(chars@, '\0'),
            keep == (|piece: Seq<char>| piece.len() > 0),
            forall|k: int| #![trigger pieces@[k]]
                0 <= k < pieces@.len() ==> {
                    &&& pieces@[k].0 <= pieces@[k].1 <= chars@.len()
                    &&& chars@.subrange(pieces@[k].0 as int, pieces@[k].1 as int) == all[k]
                },
            texts(r@) == all.take(i as int).filter(keep),
        decreases pieces@.len() - i,
    {
        let (from, to) = pieces[i];
        let ghost before = r@;
        if from < to {
            r.push(string_of(&chars, from, to));
        }
        proof {
            reveal(Seq::filter);
            assert(all.take(i + 1).drop_last() == all.take(i as int));
            assert(all.take(i + 1).last() == all[i as int]);
            if from < to {
                assert(texts(r@) =~= texts(before).push(all[i as int]));
            }
        }
        i = i + 1;
    }
    assert(all.take(i as int) == all);
    r
}

/// No argument is empty or holds a NUL character.
pub proof fn arguments_are_proper(line: Seq<char>)
    ensures
        forall|i: int| #![trigger arguments(line)[i]]
            0 <= i < arguments(line).len() ==> {
                &&& arguments(line)[i].len() > 0
                &&& lacks(arguments(line)[i], '\0')
            },
{
    let keep = |piece: Seq<char>| piece.len() > 0;
    let all = split(line, '\0');
    pieces_lack_the_separator(line, '\0');
    assert forall|i: int| #![trigger arguments(line)[i]] 0 <= i < arguments(line).len() implies {
        &&& arguments(line)[i].len() > 0
        &&& lacks(arguments(line)[i], '\0')
    } by {
        all.lemma_filter_pred(keep, i);
        lemma_filtered_is_there(all, keep, i);
    }
}

proof fn lemma_filtered_is_there<T>(s: Seq<T>, keep: spec_fn(T) -> bool, i: int)
    requires
        0 <= i < s.filter(keep).len(),
    ensures
        exists|k: int| 0 <= k < s.len() && s[k] == s.filter(keep)[i],
    decreases s.len(),
{
    reveal(Seq::filter);
    let short = s.drop_last();
    if i < short.filter(keep).len() {
        lemma_filtered_is_there(short, keep, i);
        let k = choose|k: int| 0 <= k < short.len() && short[k] == short.filter(keep)[i];
        assert(s[k] == s.filter(keep)[i]);
    } else {
        assert(s[s.len() - 1] == s.filter(keep)[i]);
    }
}

/// The arguments, each with a NUL character after it, as the kernel writes them.
pub open spec fn command_line(args: Seq<Seq<char>>) -> Seq<char>
    decreases args.len(),
{
    if args.len() == 0 {
        seq![]
    } else {
        args[0].push('\0') + command_line(args.drop_first())
    }
}

/// The arguments that the kernel wrote are the arguments that are read.
pub proof fn arguments_read_back(args: Seq<Seq<char>>)
    requires
        forall|i: int| #![trigger args[i]]
            0 <= i < args.len() ==> args[i].len() > 0 && lacks(args[i], '\0'),
    ensures
        arguments(command_line(args)) == args,
    decreases args.len(),
{
    let keep = |piece: Seq<char>| piece.len() > 0;
    reveal(Seq::filter);
    if args.len() == 0 {
        let none = Seq::<char>::empty();
        assert(split(none, '\0') == seq![none]);
        assert(seq![none].drop_last().filter(keep) == Seq::<Seq<char>>::empty());
        assert(seq![none].last() == none);
        assert(arguments(command_line(args)) =~= args);
    } else {
        let rest = args.drop_first();
        assert forall|i: int| #![trigger rest[i]] 0 <= i < rest.len() implies rest[i].len() > 0
            && lacks(rest[i], '\0') by {
            assert(rest[i] == args[i + 1]);
        }
        arguments_read_back(rest);
        split_first_piece(args[0], command_line(rest), '\0');
        Seq::filter_distributes_over_add(
            seq![args[0]],
            split(command_line(rest), '\0'),
            keep,
        );
        let one = seq![args[0]];
        assert(one.drop_last() == Seq::<Seq<char>>::empty());
        assert(one.drop_last().filter(keep) == Seq::<Seq<char>>::empty());
        assert(one.last() == args[0]);
        assert(one.filter(keep) == one);
        assert(one + rest == args);
    }
}

/// A command line is taken apart at its NUL characters: what is in front of the first is an
/// argument unless it is empty, and the rest is taken apart in the same way.
pub proof fn arguments_stand_between_nul_characters(first: Seq<char>, rest: Seq<char>)
    requires
        lacks(first, '\0'),
    ensures
        arguments(first) == if first.len() == 0 {
            Seq::<Seq<char>>::empty()
        } else {
            seq![first]
        },
        arguments(first.push('\0') + rest) == arguments(first) + arguments(rest),
{
    let keep = |piece: Seq<char>| piece.len() > 0;
    reveal(Seq::filter);
    split_first_piece(first, rest, '\0');
    split_of_one_piece(first, '\0');
    let later = split(rest, '\0');
    Seq::filter_distributes_over_add(seq![first], later, keep);
    let one = seq![first];
    assert(one.drop_last() == Seq::<Seq<char>>::empty());
    assert(one.drop_last().filter(keep) == Seq::<Seq<char>>::empty());
    assert(one.filter(keep) =~= if first.len() == 0 {
        Seq::<Seq<char>>::empty()
    } else {
        seq![first]
    });
}

} // verus!
