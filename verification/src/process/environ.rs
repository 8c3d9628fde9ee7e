//! The environment of a process.
use vstd::prelude::*;

use crate::bytes::{copy_range, same_bytes};
use crate::text::{
    byte_pieces, index_of, lacks, lemma_index_of, lemma_index_of_is, pieces_lack_the_separator,
    split, split_last_piece, split_of_one_piece,
};

verus! {

/// The byte between the name and the value of a variable.
pub const EQUALS: u8 = 61;

/// A variable: its name and its value.
pub type Variable = (Vec<u8>, Vec<u8>);

/// The environment with one more entry: what stands before the first `=` is bound to what follows
/// it. An entry without a `=` adds nothing.
pub open spec fn bind(env: Map<Seq<u8>, Seq<u8>>, entry: Seq<u8>) -> Map<Seq<u8>, Seq<u8>> {
    let n = index_of(entry, EQUALS) as int;
    if n < entry.len() {
        env.insert(entry.take(n), entry.skip(n + 1))
    } else {
        env
    }
}

/// The environment that the entries bind one after the other.
pub open spec fn bind_all(entries: Seq<Seq<u8>>) -> Map<Seq<u8>, Seq<u8>>
    decreases entries.len(),
{
    if entries.len() == 0 {
        Map::empty()
    } else {
        bind(bind_all(entries.drop_last()), entries.last())
    }
}

/// The environment in the contents of an `environ` file, whose entries end in zero bytes.
pub open spec fn environment(content: Seq<u8>) -> Map<Seq<u8>, Seq<u8>> {
    bind_all(split(content, 0))
}

/// The variables as a map from names to values.
pub open spec fn as_map(variables: Seq<Variable>) -> Map<Seq<u8>, Seq<u8>>
    decreases variables.len(),
{
    if variables.len() == 0 {
        Map::empty()
    } else {
        as_map(variables.drop_last()).insert(variables.last().0@, variables.last().1@)
    }
}

/// Tells whether no two variables have the same name.
pub open spec fn distinct_names(variables: Seq<Variable>) -> bool {
    forall|i: int, j: int|
        0 <= i < j < variables.len() ==> #[trigger] variables[i].0@ != #[trigger] variables[j].0@
}

proof fn lemma_rebind(variables: Seq<Variable>, i: int, changed: Variable)
    requires
        distinct_names(variables),
        0 <= i < variables.len(),
        changed.0@ == variables[i].0@,
    ensures
        as_map(variables.update(i, changed)) == as_map(variables).insert(changed.0@, changed.1@),
        distinct_names(variables.update(i, changed)),
    decreases variables.len(),
{
    let after = variables.update(i, changed);
    let short = variables.drop_last();
    if i < short.len() {
        lemma_rebind(short, i, changed);
        assert(after.drop_last() == short.update(i, changed));
        assert(variables.last().0@ != variables[i].0@);
        assert(as_map(after) =~= as_map(variables).insert(changed.0@, changed.1@));
    } else {
        assert(after.drop_last() == short);
        assert(as_map(after) =~= as_map(variables).insert(changed.0@, changed.1@));
    }
}

/// Binds `name` to `value`: the value of the variable of that name changes, or there is a new one.
fn set_variable(variables: &mut Vec<Variable>, name: Vec<u8>, value: Vec<u8>)
    requires
        distinct_names(old(variables)@),
    ensures
        distinct_names(final(variables)@),
        as_map(final(variables)@) == as_map(old(variables)@).insert(name@, value@),
{
    let mut i: usize = 0;
    while i < variables.len()
        invariant
            i <= variables@.len(),
            variables@ == old(variables)@,
            distinct_names(variables@),
            forall|k: int| 0 <= k < i ==> #[trigger] variables@[k].0@ != name@,
        decreases variables@.len() - i,
    {
        if same_bytes(&variables[i].0, &name) {
            proof {
                lemma_rebind(variables@, i as int, (name, value));
            }
            variables.set(i, (name, value));
            return ;
        }
        i = i + 1;
    }
    variables.push((name, value));
    assert(variables@.drop_last() == old(variables)@);
}

/// The position of the first `sep` in `bytes[from..to]`, or `to`.
fn find_byte(bytes: &Vec<u8>, from: usize, to: usize, sep: u8) -> (r: usize)
    requires
        from <= to <= bytes@.len(),
    ensures
        from <= r <= to,
        r - from == index_of(bytes@.subrange(from as int, to as int), sep),
{
    let ghost piece = bytes@.subrange(from as int, to as int);
    let mut i: usize = from;
    while i < to && bytes[i] != sep
        invariant
            from <= i <= to <= bytes@.len(),
            piece == bytes@.subrange(from as int, to as int),
            forall|k: int| 0 <= k < i - from ==> piece[k] != sep,
        decreases to - i,
    {
        assert(piece[i - from] == bytes@[i as int]);
        i = i + 1;
    }
    proof {
        if i < to {
            assert(piece[i - from] == bytes@[i as int]);
        }
        lemma_index_of_is(piece, sep, i - from);
    }
    i
}

/// Reads the contents of an `environ` file. The names of the variables are all different.
pub fn read_environment(content: &Vec<u8>) -> (r: Vec<Variable>)
    ensures
        distinct_names(r@),
        as_map(r@) == environment(content@),
{
    let pieces = byte_pieces(content, 0);
    let ghost all = split(content@, 0);
    let mut r: Vec<Variable> = Vec::new();
    let mut i: usize = 0;
    while i < pieces.len()
        invariant
            i <= pieces@.len() == all.len(),
            all == split(content@, 0),
            forall|k: int| #![trigger pieces@[k]]
                0 <= k < pieces@.len() ==> {
                    &&& pieces@[k].0 <= pieces@[k].1 <= content@.len()
                    &&& content@.subrange(pieces@[k].0 as int, pieces@[k].1 as int) == all[k]
                },
            distinct_names(r@),
            as_map(r@) == bind_all(all.take(i as int)),
        decreases pieces@.len() - i,
    {
        let (from, to) = pieces[i];
        let ghost entry = all[i as int];
        assert(all.take(i + 1).drop_last() == all.take(i as int));
        assert(all.take(i + 1).last() == entry);
        let mid: usize = find_byte(content, from, to, EQUALS);
        if mid < to {
            let name = copy_range(content, from, mid);
            let value = copy_range(content, mid + 1, to);
            assert(name@ == entry.take(mid - from));
            assert(value@ == entry.skip(mid - from + 1));
            set_variable(&mut r, name, value);
        }
        i = i + 1;
    }
    assert(all.take(i as int) == all);
    r
}

/// No name holds a `=` or a zero byte, and no value a zero byte.
pub proof fn variables_are_proper(content: Seq<u8>)
    ensures
        forall|name: Seq<u8>| #[trigger]
            environment(content).dom().contains(name) ==> {
                &&& lacks(name, EQUALS)
                &&& lacks(name, 0)
                &&& lacks(environment(content)[name], 0)
            },
{
    pieces_lack_the_separator(content, 0);
    lemma_bound_are_proper(split(content, 0));
}

proof fn lemma_bound_are_proper(entries: Seq<Seq<u8>>)
    requires
        forall|i: int| 0 <= i < entries.len() ==> lacks(#[trigger] entries[i], 0u8),
    ensures
        forall|name: Seq<u8>| #[trigger]
            bind_all(entries).dom().contains(name) ==> {
                &&& lacks(name, EQUALS)
                &&& lacks(name, 0)
                &&& lacks(bind_all(entries)[name], 0)
            },
    decreases entries.len(),
{
    if entries.len() > 0 {
        let short = entries.drop_last();
        assert forall|i: int| 0 <= i < short.len() implies lacks(#[trigger] short[i], 0u8) by {
            assert(short[i] == entries[i]);
        }
        lemma_bound_are_proper(short);
        let entry = entries.last();
        assert(lacks(entries[entries.len() - 1], 0u8));
        lemma_index_of(entry, EQUALS);
        let n = index_of(entry, EQUALS) as int;
        assert forall|name: Seq<u8>| #[trigger] bind_all(entries).dom().contains(name) implies {
            &&& lacks(name, EQUALS)
            &&& lacks(name, 0)
            &&& lacks(bind_all(entries)[name], 0)
        } by {
            if n < entry.len() && name == entry.take(n) {
                assert(bind_all(entries)[name] == entry.skip(n + 1));
            } else {
                assert(bind_all(short).dom().contains(name));
                assert(bind_all(entries)[name] == bind_all(short)[name]);
            }
        }
    }
}

/// A variable that is bound once more, at the end, has that last value; the others keep theirs.
pub proof fn the_last_binding_counts(content: Seq<u8>, name: Seq<u8>, value: Seq<u8>)
    requires
        lacks(name, EQUALS),
        lacks(name, 0),
        lacks(value, 0),
    ensures
        environment(content.push(0) + (name.push(EQUALS) + value)) == environment(content).insert(
            name,
            value,
        ),
{
    let entry = name.push(EQUALS) + value;
    assert(lacks(entry, 0u8)) by {
        assert forall|i: int| 0 <= i < entry.len() implies entry[i] != 0u8 by {
            if i > name.len() {
                assert(entry[i] == value[i - name.len() - 1]);
            }
        }
    }
    split_last_piece(content, entry, 0u8);
    let entries = split(content, 0u8);
    assert(entries.push(entry).drop_last() == entries);
    lemma_index_of_is(entry, EQUALS, name.len() as int);
    assert(entry.take(name.len() as int) == name);
    assert(entry.skip(name.len() as int + 1) == value);
}

/// A zero byte at the end, as the kernel writes it after the last variable, changes nothing.
pub proof fn a_final_zero_changes_nothing(content: Seq<u8>)
    ensures
        environment(content.push(0)) == environment(content),
{
    let none = Seq::<u8>::empty();
    assert(content.push(0) + none == content.push(0));
    split_last_piece(content, none, 0u8);
    let entries = split(content, 0u8);
    assert(entries.push(none).drop_last() == entries);
}

/// The contents of an `environ` file as the kernel writes it: for each variable its name, a `=`,
/// its value and a zero byte.
pub open spec fn environ_bytes(variables: Seq<(Seq<u8>, Seq<u8>)>) -> Seq<u8>
    decreases variables.len(),
{
    if variables.len() == 0 {
        seq![]
    } else {
        environ_bytes(variables.drop_last()) + (variables.last().0.push(EQUALS)
            + variables.last().1).push(0)
    }
}

/// The names of the variables, each with its last value.
pub open spec fn last_values(variables: Seq<(Seq<u8>, Seq<u8>)>) -> Map<Seq<u8>, Seq<u8>>
    decreases variables.len(),
{
    if variables.len() == 0 {
        Map::empty()
    } else {
        last_values(variables.drop_last()).insert(variables.last().0, variables.last().1)
    }
}

/// Tells whether the variables can stand in an `environ` file.
pub open spec fn writable(variables: Seq<(Seq<u8>, Seq<u8>)>) -> bool {
    forall|i: int|
        0 <= i < variables.len() ==> {
            &&& lacks((#[trigger] variables[i]).0, EQUALS)
            &&& lacks(variables[i].0, 0)
            &&& lacks(variables[i].1, 0)
        }
}

/// The variables that the kernel wrote are the variables that are read.
pub proof fn variables_read_back(variables: Seq<(Seq<u8>, Seq<u8>)>)
    requires
        writable(variables),
    ensures
        environment(environ_bytes(variables)) == last_values(variables),
    decreases variables.len(),
{
    let none = Seq::<u8>::empty();
    if variables.len() == 0 {
        assert(split(none, 0u8) == seq![none]);
        assert(bind_all(seq![none]) == bind(bind_all(seq![none].drop_last()), none));
        assert(seq![none].drop_last() == Seq::<Seq<u8>>::empty());
        assert(bind_all(Seq::<Seq<u8>>::empty()) == Map::<Seq<u8>, Seq<u8>>::empty());
    } else {
        let front = variables.drop_last();
        let (name, value) = variables[variables.len() - 1];
        let before = environ_bytes(front);
        let entry = name.push(EQUALS) + value;
        assert forall|i: int| 0 <= i < front.len() implies {
            &&& lacks((#[trigger] front[i]).0, EQUALS)
            &&& lacks(front[i].0, 0)
            &&& lacks(front[i].1, 0)
        } by {
            assert(front[i] == variables[i]);
        }
        variables_read_back(front);
        assert(environ_bytes(variables) == (before + entry).push(0));
        a_final_zero_changes_nothing(before + entry);
        if front.len() == 0 {
            assert(before + entry == entry);
            assert(lacks(entry, 0u8)) by {
                assert forall|i: int| 0 <= i < entry.len() implies entry[i] != 0u8 by {
                    if i > name.len() {
                        assert(entry[i] == value[i - name.len() - 1]);
                    }
                }
            }
            lemma_index_of_is(entry, 0u8, entry.len() as int);
            assert(split(entry, 0u8) == seq![entry]);
            assert(seq![entry].drop_last() == Seq::<Seq<u8>>::empty());
            lemma_index_of_is(entry, EQUALS, name.len() as int);
            assert(entry.take(name.len() as int) == name);
            assert(entry.skip(name.len() as int + 1) == value);
            assert(bind_all(Seq::<Seq<u8>>::empty()) == Map::<Seq<u8>, Seq<u8>>::empty());
            assert(bind_all(seq![entry]) == bind(Map::empty(), entry));
            assert(last_values(front) == Map::<Seq<u8>, Seq<u8>>::empty());
        } else {
            let content = before.drop_last();
            assert(before == content.push(0));
            a_final_zero_changes_nothing(content);
            the_last_binding_counts(content, name, value);
        }
    }
}

/// An entry without a `=` binds nothing, and an environment of one entry binds what is in front of
/// its first `=` to what follows it.
pub proof fn entries_bind_at_the_first_equals_sign(
    content: Seq<u8>,
    entry: Seq<u8>,
    name: Seq<u8>,
    value: Seq<u8>,
)
    requires
        lacks(entry, 0),
        lacks(entry, EQUALS),
        lacks(name, 0),
        lacks(name, EQUALS),
        lacks(value, 0),
    ensures
        environment(content.push(0) + entry) == environment(content),
        environment(entry) == Map::<Seq<u8>, Seq<u8>>::empty(),
        environment(name.push(EQUALS) + value) == Map::<Seq<u8>, Seq<u8>>::empty().insert(
            name,
            value,
        ),
{
    split_last_piece(content, entry, 0u8);
    let entries = split(content, 0u8);
    assert(entries.push(entry).drop_last() == entries);
    lemma_index_of_is(entry, EQUALS, entry.len() as int);
    split_of_one_piece(entry, 0u8);
    assert(seq![entry].drop_last() == Seq::<Seq<u8>>::empty());
    assert(bind_all(Seq::<Seq<u8>>::empty()) == Map::<Seq<u8>, Seq<u8>>::empty());
    assert(bind_all(seq![entry]) == bind(Map::empty(), entry));
    let one = (name, value);
    let written = seq![one];
    variables_read_back(written);
    a_final_zero_changes_nothing(name.push(EQUALS) + value);
    assert(written.drop_last() == Seq::<(Seq<u8>, Seq<u8>)>::empty());
    assert(environ_bytes(written.drop_last()) == Seq::<u8>::empty());
    assert(environ_bytes(written) =~= (name.push(EQUALS) + value).push(0));
    assert(last_values(written.drop_last()) == Map::<Seq<u8>, Seq<u8>>::empty());
}

/// Of variables with different names, the map holds exactly the names, each with its value.
pub proof fn the_map_holds_the_variables(variables: Seq<Variable>, name: Seq<u8>)
    requires
        distinct_names(variables),
    ensures
        as_map(variables).dom().contains(name) <==> exists|i: int|
            0 <= i < variables.len() && #[trigger] variables[i].0@ == name,
        forall|i: int|
            0 <= i < variables.len() ==> as_map(variables).dom().contains(
                #[trigger] variables[i].0@,
            ) && as_map(variables)[variables[i].0@] == variables[i].1@,
    decreases variables.len(),
{
    if variables.len() > 0 {
        let front = variables.drop_last();
        let last = variables.last();
        assert forall|i: int, j: int| 0 <= i < j < front.len() implies #[trigger] front[i].0@
            != #[trigger] front[j].0@ by {
            assert(variables[i].0@ != variables[j].0@);
        }
        the_map_holds_the_variables(front, name);
        assert forall|i: int| 0 <= i < variables.len() implies as_map(variables).dom().contains(
            #[trigger] variables[i].0@,
        ) && as_map(variables)[variables[i].0@] == variables[i].1@ by {
            if i < front.len() {
                assert(front[i].0@ == variables[i].0@);
                assert(variables[i].0@ != variables[variables.len() - 1].0@);
            }
        }
        if exists|i: int| 0 <= i < front.len() && #[trigger] front[i].0@ == name {
            let i = choose|i: int| 0 <= i < front.len() && #[trigger] front[i].0@ == name;
            assert(variables[i].0@ == name);
        }
        if last.0@ == name {
            assert(variables[variables.len() - 1].0@ == name);
        }
        if exists|i: int| 0 <= i < variables.len() && #[trigger] variables[i].0@ == name {
            let i = choose|i: int| 0 <= i < variables.len() && #[trigger] variables[i].0@ == name;
            if i < front.len() {
                assert(front[i].0@ == name);
            }
        }
    }
}

} // verus!
