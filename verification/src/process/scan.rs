//! Walking the directories whose entries are named by numbers: processes, threads, descriptors.
use vstd::prelude::*;

use crate::error::{reported, ErrorView, IoFailure, ProcfsError};
use crate::number::{decimal, decimal_reads_back, digit_value, read_signed, signed, within};
use crate::text::chars_of;

verus! {

/// The directories that are walked.
#[derive(Clone, Copy, Debug, PartialEq, Eq, Structural)]
pub enum Listing {
    /// All processes. One that cannot be looked at is reported as an error.
    Processes,
    /// The threads of a process. One that cannot be looked at is left out.
    Tasks,
    /// The file descriptors of a process. One that cannot be looked at is left out.
    Descriptors,
}

/// What a walk waits for.
#[derive(Clone, Copy, Debug, PartialEq, Eq, Structural)]
pub enum Phase {
    /// The next entry of the directory.
    Reading,
    /// What looking at the process, thread or descriptor of this number brings.
    Probing(i32),
    /// Nothing: the walk is over.
    Finished,
}

/// A walk through a directory.
#[derive(Clone, Copy, Debug, PartialEq, Eq, Structural)]
pub struct Scan {
    /// The directory.
    pub listing: Listing,
    /// What the walk waits for.
    pub phase: Phase,
}

/// The number in a text that is a decimal number of 32 bits with an optional sign.
pub open spec fn number_in(name: Seq<char>) -> Option<int> {
    within(signed(name, 10), i32::MIN as int, i32::MAX as int)
}

/// Reads a text as a decimal number of 32 bits.
pub fn read_number(name: &str) -> (r: Option<i32>)
    ensures
        r is Some <==> number_in(name@) is Some,
        r matches Some(n) ==> number_in(name@) == Some(n as int),
{
    let chars = chars_of(name);
    assert(chars@.subrange(0, chars@.len() as int) == name@);
    read_signed(&chars, 0, chars.len(), i32::MIN, i32::MAX)
}

/// What a walk waits for once it has read an entry of that name.
pub open spec fn phase_after_name(name: Seq<char>) -> Phase {
    match number_in(name) {
        Some(n) => Phase::Probing(n as i32),
        None => Phase::Reading,
    }
}

/// Whether a failure to look at something is reported.
pub open spec fn reports_failures(listing: Listing) -> bool {
    listing == Listing::Processes
}

/// The entry, with its name as text.
pub open spec fn entry_view(entry: Option<Result<String, IoFailure>>) -> Option<
    Result<Seq<char>, IoFailure>,
> {
    match entry {
        None => None,
        Some(Ok(name)) => Some(Ok(name@)),
        Some(Err(failure)) => Some(Err(failure)),
    }
}

/// What a walk waits for once it has taken in an entry, or that there is none.
pub open spec fn phase_after(entry: Option<Result<Seq<char>, IoFailure>>) -> Phase {
    match entry {
        Some(Ok(name)) => phase_after_name(name),
        _ => Phase::Finished,
    }
}

/// The error that a walk yields for an entry.
pub open spec fn error_of(entry: Option<Result<Seq<char>, IoFailure>>) -> Option<ErrorView> {
    match entry {
        Some(Err(failure)) => Some(reported(failure)),
        _ => None,
    }
}

/// Tells whether a walk yields what looking at something brought.
pub open spec fn is_yielded(listing: Listing, found: bool) -> bool {
    found || reports_failures(listing)
}

impl Scan {
    /// A walk that has not read any entry yet.
    pub fn new(listing: Listing) -> (r: Scan)
        ensures
            r == (Scan { listing, phase: Phase::Reading }),
    {
        Scan { listing, phase: Phase::Reading }
    }

    /// Takes in the next entry of the directory, or that there is none.
    ///
    /// An entry that could not be read is reported, and ends the walk. One whose name is not a
    /// number is passed over.
    pub fn on_entry(&mut self, entry: Option<Result<String, IoFailure>>) -> (r: Option<ProcfsError>)
        requires
            old(self).phase == Phase::Reading,
        ensures
            *final(self) == (Scan {
                listing: old(self).listing,
                phase: phase_after(entry_view(entry)),
            }),
            match error_of(entry_view(entry)) {
                Some(error) => r matches Some(e) && e@ == error,
                None => r is None,
            },
    {
        match entry {
            None => {
                self.phase = Phase::Finished;
                None
            },
            Some(Err(failure)) => {
                self.phase = Phase::Finished;
                Some(ProcfsError::unnamed(failure))
            },
            Some(Ok(name)) => {
                self.phase = match read_number(name.as_str()) {
                    Some(n) => Phase::Probing(n),
                    None => Phase::Reading,
                };
                None
            },
        }
    }

    /// Takes in what looking at the process, thread or descriptor brought, and gives the item that
    /// the walk yields for it, if any.
    pub fn on_probe<T>(&mut self, probe: Result<T, ProcfsError>) -> (r: Option<
        Result<T, ProcfsError>,
    >)
        requires
            old(self).phase is Probing,
        ensures
            *final(self) == (Scan { listing: old(self).listing, phase: Phase::Reading }),
            r == if is_yielded(old(self).listing, probe is Ok) {
                Some(probe)
            } else {
                None
            },
    {
        self.phase = Phase::Reading;
        match probe {
            Ok(found) => Some(Ok(found)),
            Err(e) => if self.listing == Listing::Processes {
                Some(Err(e))
            } else {
                None
            },
        }
    }
}

/// The walk after an entry, or after the last one, and the error that it yields: after a name that
/// is a number of 32 bits it looks at the thing of that number, after any other name it reads on,
/// and after an entry that cannot be read it is over.
pub fn after_entry(scan: Scan, entry: Option<Result<String, IoFailure>>) -> (r: (
    Scan,
    Option<ProcfsError>,
))
    requires
        scan.phase == Phase::Reading,
    ensures
        r.0.listing == scan.listing,
        match entry {
            None => r.0.phase == Phase::Finished && r.1 is None,
            Some(Err(failure)) => r.0.phase == Phase::Finished && (r.1 matches Some(e) && e@
                == reported(failure)),
            Some(Ok(name)) => r.1 is None && match signed(name@, 10) {
                Some(n) if i32::MIN <= n <= i32::MAX => r.0.phase == Phase::Probing(n as i32),
                _ => r.0.phase == Phase::Reading,
            },
        },
        forall|n: i32|
            (entry matches Some(Ok(name)) && name@ == #[trigger] decimal(n as int)) ==> r.0.phase
                == Phase::Probing(n),
{
    proof {
        assert forall|n: i32|
            (entry matches Some(Ok(name)) && name@ == #[trigger] decimal(n as int)) implies (
        entry matches Some(Ok(name)) && signed(name@, 10) == Some(n as int)) by {
            decimal_reads_back(n as int);
        }
    }
    let mut next = scan;
    let error = next.on_entry(entry);
    (next, error)
}

/// The walk after looking at something, and what it yields: it reads on, and yields what was found;
/// a failure is yielded for processes only.
pub fn after_probe<T>(scan: Scan, probe: Result<T, ProcfsError>) -> (r: (
    Scan,
    Option<Result<T, ProcfsError>>,
))
    requires
        scan.phase is Probing,
    ensures
        r.0.listing == scan.listing,
        r.0.phase == Phase::Reading,
        probe is Ok || scan.listing == Listing::Processes ==> r.1 == Some(probe),
        probe is Err && scan.listing != Listing::Processes ==> r.1 is None,
{
    let mut next = scan;
    let item = next.on_probe(probe);
    (next, item)
}

/// What a walk comes across: an entry of the directory, and what looking at it would bring.
pub ghost struct Sight<T> {
    pub entry: Result<Seq<char>, IoFailure>,
    pub probe: Result<T, ErrorView>,
}

/// An event in a walk: an entry was taken in, or that there is none, or what looking at something
/// brought.
pub ghost enum Event<T> {
    Entry(Option<Result<Seq<char>, IoFailure>>),
    Probe(Result<T, ErrorView>),
}

/// What a walk yields on an event.
pub open spec fn yields<T>(listing: Listing, event: Event<T>) -> Seq<Result<T, ErrorView>> {
    match event {
        Event::Entry(entry) => match error_of(entry) {
            Some(error) => seq![Err(error)],
            None => seq![],
        },
        Event::Probe(probe) => if is_yielded(listing, probe is Ok) {
            seq![probe]
        } else {
            seq![]
        },
    }
}

/// Everything that a walk yields on the events.
pub open spec fn walk<T>(listing: Listing, events: Seq<Event<T>>) -> Seq<Result<T, ErrorView>>
    decreases events.len(),
{
    if events.len() == 0 {
        seq![]
    } else {
        yields(listing, events[0]) + walk(listing, events.drop_first())
    }
}

/// The events of a walk that waits for an entry: the entries one after the other, each followed by
/// what looking at it brings if the walk waits for that, until the walk is over.
pub open spec fn events_of<T>(sights: Seq<Sight<T>>) -> Seq<Event<T>>
    decreases sights.len(),
{
    if sights.len() == 0 {
        seq![Event::Entry(None)]
    } else {
        let entry = Event::<T>::Entry(Some(sights[0].entry));
        match phase_after(Some(sights[0].entry)) {
            Phase::Reading => seq![entry] + events_of(sights.drop_first()),
            Phase::Probing(_) => seq![entry, Event::Probe(sights[0].probe)] + events_of(
                sights.drop_first(),
            ),
            Phase::Finished => seq![entry],
        }
    }
}

/// What a listing holds: in the order of the directory, for each entry that is named by a number
/// what is found there, or the error if errors are reported. An entry that cannot be read is the
/// last item.
pub open spec fn items<T>(listing: Listing, sights: Seq<Sight<T>>) -> Seq<Result<T, ErrorView>>
    decreases sights.len(),
{
    if sights.len() == 0 {
        seq![]
    } else {
        match sights[0].entry {
            Err(failure) => seq![Err(reported(failure))],
            Ok(name) => if number_in(name) is Some && (sights[0].probe is Ok || reports_failures(
                listing,
            )) {
                seq![sights[0].probe] + items(listing, sights.drop_first())
            } else {
                items(listing, sights.drop_first())
            },
        }
    }
}

/// A walk yields what the listing holds.
pub proof fn a_walk_yields_the_listing<T>(listing: Listing, sights: Seq<Sight<T>>)
    ensures
        walk(listing, events_of(sights)) == items(listing, sights),
    decreases sights.len(),
{
    let events = events_of(sights);
    let none = Seq::<Event<T>>::empty();
    assert(walk(listing, none) == Seq::<Result<T, ErrorView>>::empty());
    if sights.len() == 0 {
        assert(events.drop_first() == none);
        assert(walk(listing, events) =~= items(listing, sights));
    } else {
        let rest = sights.drop_first();
        a_walk_yields_the_listing(listing, rest);
        match sights[0].entry {
            Err(failure) => {
                assert(events.drop_first() == none);
                assert(walk(listing, events) =~= items(listing, sights));
            },
            Ok(name) => {
                if phase_after_name(name) is Probing {
                    let later = events.drop_first();
                    assert(later == seq![Event::Probe(sights[0].probe)] + events_of(rest));
                    assert(later.drop_first() == events_of(rest));
                    assert(walk(listing, events) == yields(listing, events[0]) + walk(
                        listing,
                        later,
                    ));
                    assert(walk(listing, later) == yields(listing, later[0]) + walk(
                        listing,
                        events_of(rest),
                    ));
                    assert(walk(listing, events) =~= items(listing, sights));
                } else {
                    assert(events.drop_first() == events_of(rest));
                    assert(walk(listing, events) =~= items(listing, sights));
                }
            },
        }
    }
}

/// The number of entries that are named by a number.
pub open spec fn numbered<T>(sights: Seq<Sight<T>>) -> nat
    decreases sights.len(),
{
    if sights.len() == 0 {
        0
    } else {
        (if sights[0].entry matches Ok(name) && number_in(name) is Some {
            1nat
        } else {
            0nat
        }) + numbered(sights.drop_first())
    }
}

/// Tells whether every entry can be read.
pub open spec fn readable<T>(sights: Seq<Sight<T>>) -> bool {
    forall|i: int| 0 <= i < sights.len() ==> (#[trigger] sights[i]).entry is Ok
}

/// In a directory whose entries can all be read, every process has its item: itself, or the error
/// that it could not be looked at.
pub proof fn every_process_has_its_item<T>(sights: Seq<Sight<T>>)
    requires
        readable(sights),
    ensures
        items(Listing::Processes, sights).len() == numbered(sights),
    decreases sights.len(),
{
    if sights.len() > 0 {
        let rest = sights.drop_first();
        assert(sights[0].entry is Ok);
        assert forall|i: int| 0 <= i < rest.len() implies (#[trigger] rest[i]).entry is Ok by {
            assert(rest[i] == sights[i + 1]);
        }
        every_process_has_its_item(rest);
    }
}

/// Among threads and descriptors an error can only be the last item, and only comes from an entry
/// that could not be read.
pub proof fn an_error_ends_the_listing<T>(listing: Listing, sights: Seq<Sight<T>>)
    requires
        !reports_failures(listing),
    ensures
        forall|i: int|
            0 <= i < items(listing, sights).len() && (#[trigger] items(listing, sights)[i]) is Err
                ==> i == items(listing, sights).len() - 1,
        readable(sights) ==> forall|i: int|
            0 <= i < items(listing, sights).len() ==> (#[trigger] items(listing, sights)[i]) is Ok,
    decreases sights.len(),
{
    if sights.len() > 0 {
        let rest = sights.drop_first();
        an_error_ends_the_listing(listing, rest);
        let all = items(listing, sights);
        let later = items(listing, rest);
        if readable(sights) {
            assert(sights[0].entry is Ok);
            assert forall|i: int| 0 <= i < rest.len() implies (#[trigger] rest[i]).entry is Ok by {
                assert(rest[i] == sights[i + 1]);
            }
            assert(readable(rest));
        }
        if sights[0].entry matches Ok(name) && number_in(name) is Some && sights[0].probe is Ok {
            assert forall|i: int| 0 <= i < all.len() && (#[trigger] all[i]) is Err implies i
                == all.len() - 1 by {
                assert(i > 0);
                assert(all[i] == later[i - 1]);
            }
            if readable(sights) {
                assert forall|i: int| 0 <= i < all.len() implies (#[trigger] all[i]) is Ok by {
                    if i > 0 {
                        assert(all[i] == later[i - 1]);
                    }
                }
            }
        }
    }
}

/// The entries of a directory, as far as they were read.
pub type Entries = Vec<Result<String, IoFailure>>;

/// The entries, with their names as texts.
pub open spec fn entry_texts(entries: Seq<Result<String, IoFailure>>) -> Seq<
    Result<Seq<char>, IoFailure>,
> {
    entries.map_values(
        |entry: Result<String, IoFailure>|
            match entry {
                Ok(name) => Ok(name@),
                Err(failure) => Err(failure),
            },
    )
}

/// The number of things that a directory lists: one for each entry that is named by a number,
/// whether it can be looked at or not. An entry that cannot be read is the last thing.
pub open spec fn counted(entries: Seq<Result<Seq<char>, IoFailure>>) -> nat
    decreases entries.len(),
{
    if entries.len() == 0 {
        0
    } else {
        match entries[0] {
            Err(_) => 1,
            Ok(name) => (if number_in(name) is Some {
                1nat
            } else {
                0nat
            }) + counted(entries.drop_first()),
        }
    }
}

/// Counts the things that a directory lists.
pub fn count_entries(entries: &Entries) -> (r: usize)
    ensures
        r == counted(entry_texts(entries@)),
{
    let ghost texts = entry_texts(entries@);
    let mut count: usize = 0;
    let mut i: usize = 0;
    assert(texts.skip(0) == texts);
    while i < entries.len()
        invariant
            count <= i <= entries@.len() == texts.len(),
            texts == entry_texts(entries@),
            count + counted(texts.skip(i as int)) == counted(texts),
        decreases entries@.len() - i,
    {
        proof {
            assert(texts.skip(i as int)[0] == texts[i as int]);
            assert(texts.skip(i as int).drop_first() == texts.skip(i + 1));
        }
        match &entries[i] {
            Ok(name) => if read_number(name.as_str()).is_some() {
                count = count + 1;
            },
            Err(_) => {
                return count + 1;
            },
        }
        i = i + 1;
    }
    count
}

/// The entries of what a walk comes across.
pub open spec fn entries_of<T>(sights: Seq<Sight<T>>) -> Seq<Result<Seq<char>, IoFailure>> {
    sights.map_values(|sight: Sight<T>| sight.entry)
}

/// Tells whether everything that is named by a number can be looked at.
pub open spec fn all_found<T>(sights: Seq<Sight<T>>) -> bool {
    forall|i: int|
        0 <= i < sights.len() && ((#[trigger] sights[i]).entry matches Ok(name) && number_in(
            name,
        ) is Some) ==> sights[i].probe is Ok
}

/// Where everything can be looked at, a walk yields as many items as the directory lists things.
pub proof fn a_walk_yields_what_is_counted<T>(listing: Listing, sights: Seq<Sight<T>>)
    requires
        all_found(sights),
    ensures
        items(listing, sights).len() == counted(entries_of(sights)),
    decreases sights.len(),
{
    if sights.len() > 0 {
        let rest = sights.drop_first();
        assert forall|i: int|
            0 <= i < rest.len() && ((#[trigger] rest[i]).entry matches Ok(name) && number_in(
                name,
            ) is Some) implies rest[i].probe is Ok by {
            assert(rest[i] == sights[i + 1]);
        }
        a_walk_yields_what_is_counted(listing, rest);
        assert(entries_of(sights)[0] == sights[0].entry);
        assert(entries_of(sights).drop_first() == entries_of(rest));
    }
}

/// Where every entry can be read, the things that a directory lists are the entries that are named
/// by a number.
pub proof fn numbered_entries_are_counted<T>(sights: Seq<Sight<T>>)
    requires
        readable(sights),
    ensures
        counted(entries_of(sights)) == numbered(sights),
    decreases sights.len(),
{
    if sights.len() > 0 {
        let rest = sights.drop_first();
        assert(sights[0].entry is Ok);
        assert forall|i: int| 0 <= i < rest.len() implies (#[trigger] rest[i]).entry is Ok by {
            assert(rest[i] == sights[i + 1]);
        }
        numbered_entries_are_counted(rest);
        assert(entries_of(sights)[0] == sights[0].entry);
        assert(entries_of(sights).drop_first() == entries_of(rest));
    }
}

/// In a directory whose entries can all be read and looked at, every entry that is named by a
/// number has its item, be it a process, a thread or a descriptor.
pub proof fn every_entry_has_its_item<T>(listing: Listing, sights: Seq<Sight<T>>)
    requires
        readable(sights),
        all_found(sights),
    ensures
        items(listing, sights).len() == numbered(sights),
{
    a_walk_yields_what_is_counted(listing, sights);
    numbered_entries_are_counted(sights);
}

/// The entries that stand for a directory itself and for its parent are not counted.
pub proof fn dots_are_not_counted(rest: Seq<Result<Seq<char>, IoFailure>>)
    ensures
        counted(seq![Ok(seq!['.']), Ok(seq!['.', '.'])] + rest) == counted(rest),
{
    let dot = seq!['.'];
    let dots = seq!['.', '.'];
    let all = seq![Ok(dot), Ok(dots)] + rest;
    assert(digit_value(dot[0]) >= 10 && digit_value(dots[0]) >= 10);
    assert(number_in(dot) is None);
    assert(number_in(dots) is None);
    let later = seq![Ok(dots)] + rest;
    assert(all.drop_first() == later);
    assert(later.drop_first() == rest);
    assert(counted(all) == counted(later));
    assert(counted(later) == counted(rest));
}

/// After an entry that is named by a number, the walk looks at exactly the thing of that number,
/// be the number written in decimal or in another way; after any other entry it reads on.
pub proof fn the_walk_looks_at_the_number_in_the_name(n: int, name: Seq<char>)
    ensures
        i32::MIN <= n <= i32::MAX ==> phase_after(Some(Ok(decimal(n)))) == Phase::Probing(n as i32),
        phase_after(Some(Ok(name))) matches Phase::Probing(m) ==> signed(name, 10) == Some(m as int),
        (signed(name, 10) == Some(n) && i32::MIN <= n <= i32::MAX) ==> phase_after(Some(Ok(name)))
            == Phase::Probing(n as i32),
        (signed(name, 10) is None || !(i32::MIN <= signed(name, 10)->Some_0 <= i32::MAX))
            ==> phase_after(Some(Ok(name))) == Phase::Reading,
        phase_after(None) == Phase::Finished,
{
    decimal_reads_back(n);
}

/// Two numbers are not taken for each other: walks that look at the same thing came across the same
/// number.
pub proof fn different_numbers_are_told_apart(a: i32, b: i32)
    requires
        phase_after(Some(Ok(decimal(a as int)))) == phase_after(Some(Ok(decimal(b as int)))),
    ensures
        a == b,
{
    decimal_reads_back(a as int);
    decimal_reads_back(b as int);
}

/// A walk ends with an entry that cannot be read, which is the only kind of entry that is itself
/// reported, with its own error.
pub proof fn an_unreadable_entry_ends_the_walk(failure: IoFailure, name: Seq<char>)
    ensures
        phase_after(Some(Err(failure))) == Phase::Finished,
        error_of(Some(Err(failure))) == Some(reported(failure)),
        error_of(Some(Ok(name))) is None,
        error_of(None) is None,
{
}

/// What was found is yielded; a failure to look at something is yielded for processes only.
pub proof fn what_is_found_is_yielded<T>(listing: Listing, found: T, error: ErrorView)
    ensures
        yields(listing, Event::Probe(Ok(found))) == seq![Ok::<T, ErrorView>(found)],
        yields::<T>(Listing::Processes, Event::Probe(Err(error))) == seq![Err::<T, ErrorView>(error)],
        yields::<T>(Listing::Tasks, Event::Probe(Err(error))).len() == 0,
        yields::<T>(Listing::Descriptors, Event::Probe(Err(error))).len() == 0,
{
}

/// What is listed, entry by entry: what was found at a number comes first, an entry that is not
/// named by a number is passed over, a failure to look at something is listed for processes only,
/// and nothing follows an entry that cannot be read.
pub proof fn items_come_in_the_order_of_the_directory<T>(
    listing: Listing,
    n: i32,
    name: Seq<char>,
    found: T,
    error: ErrorView,
    failure: IoFailure,
    rest: Seq<Sight<T>>,
)
    requires
        signed(name, 10) is None,
    ensures
        items(listing, seq![Sight { entry: Ok(decimal(n as int)), probe: Ok(found) }] + rest)
            == seq![Ok::<T, ErrorView>(found)] + items(listing, rest),
        items(
            Listing::Processes,
            seq![Sight { entry: Ok(decimal(n as int)), probe: Err(error) }] + rest,
        ) == seq![Err::<T, ErrorView>(error)] + items(Listing::Processes, rest),
        listing != Listing::Processes ==> items(
            listing,
            seq![Sight { entry: Ok(decimal(n as int)), probe: Err(error) }] + rest,
        ) == items(listing, rest),
        items(listing, seq![Sight { entry: Ok(name), probe: Ok(found) }] + rest) == items(
            listing,
            rest,
        ),
        items(listing, seq![Sight { entry: Err(failure), probe: Ok(found) }] + rest) == seq![
            Err::<T, ErrorView>(reported(failure)),
        ],
        items(listing, Seq::<Sight<T>>::empty()).len() == 0,
{
    decimal_reads_back(n as int);
    let a = Sight { entry: Ok(decimal(n as int)), probe: Ok(found) };
    let b = Sight { entry: Ok(decimal(n as int)), probe: Err(error) };
    let c = Sight { entry: Ok(name), probe: Ok(found) };
    let d = Sight { entry: Err(failure), probe: Ok(found) };
    assert((seq![a] + rest).drop_first() =~= rest);
    assert((seq![b] + rest).drop_first() =~= rest);
    assert((seq![c] + rest).drop_first() =~= rest);
    assert((seq![d] + rest)[0] == d);
}

/// What is counted, entry by entry: one for a number, none for another name, and one for an entry
/// that cannot be read, behind which nothing is counted.
pub proof fn entries_are_counted_one_by_one(
    n: i32,
    name: Seq<char>,
    failure: IoFailure,
    rest: Seq<Result<Seq<char>, IoFailure>>,
)
    requires
        signed(name, 10) is None,
    ensures
        counted(seq![]) == 0,
        counted(seq![Ok(decimal(n as int))] + rest) == 1 + counted(rest),
        counted(seq![Ok(name)] + rest) == counted(rest),
        counted(seq![Err(failure)] + rest) == 1,
{
    decimal_reads_back(n as int);
    assert((seq![Ok::<Seq<char>, IoFailure>(decimal(n as int))] + rest).drop_first() =~= rest);
    assert((seq![Ok::<Seq<char>, IoFailure>(name)] + rest).drop_first() =~= rest);
    assert((seq![Err::<Seq<char>, IoFailure>(failure)] + rest)[0] == Err::<Seq<char>, IoFailure>(
        failure,
    ));
}

/// The entries that are counted are the entries that were read, in their order and with their
/// names.
pub proof fn no_entry_is_lost(entries: Entries, entry: Option<Result<String, IoFailure>>, i: int)
    ensures
        entry_texts(entries@).len() == entries@.len(),
        0 <= i < entries@.len() ==> match entries@[i] {
            Ok(name) => entry_texts(entries@)[i] == Ok::<Seq<char>, IoFailure>(name@),
            Err(failure) => entry_texts(entries@)[i] == Err::<Seq<char>, IoFailure>(failure),
        },
        match entry {
            None => entry_view(entry) is None,
            Some(Ok(name)) => entry_view(entry) == Some(Ok::<Seq<char>, IoFailure>(name@)),
            Some(Err(failure)) => entry_view(entry) == Some(Err::<Seq<char>, IoFailure>(failure)),
        },
{
}

} // verus!
