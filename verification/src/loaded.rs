//! The sheets the painting thread has read, by number: the live ones in the
//! order they are in, read once each, and the ones no longer coming dropped.
use std::collections::HashMap;
use vstd::prelude::*;

verus! {

/// Some sheet of `sheets` carries `number`.
pub open spec fn carries(sheets: Seq<(u64, String)>, number: u64) -> bool {
    exists|i: int| 0 <= i < sheets.len() && #[trigger] sheets[i].0 == number
}

/// `measured` was read, in order, from the sheets at the increasing positions
/// `at`: each number is the one of the sheet at its position, and `parse` gave
/// the drawing now held under it from that sheet's text.
pub open spec fn read_at<T, F: Fn(&String) -> Option<T>>(
    sheets: Seq<(u64, String)>,
    parse: F,
    read: Map<u64, T>,
    measured: Seq<u64>,
    at: Seq<int>,
) -> bool {
    &&& at.len() == measured.len()
    &&& forall|j: int|
        0 <= j < at.len() ==> {
            &&& 0 <= #[trigger] at[j] < sheets.len()
            &&& sheets[at[j]].0 == measured[j]
            &&& read.contains_key(measured[j])
            &&& call_ensures(parse, (&sheets[at[j]].1,), Some(read[measured[j]]))
        }
    &&& forall|j1: int, j2: int| 0 <= j1 < j2 < at.len() ==> #[trigger] at[j1] < #[trigger] at[j2]
}

/// The drawings the painting thread has read, each under the number of its
/// sheet.
#[derive(Debug)]
pub struct Loaded<T> {
    read: HashMap<u64, T>,
}

impl<T> View for Loaded<T> {
    type V = Map<u64, T>;

    closed spec fn view(&self) -> Map<u64, T> {
        self.read@
    }
}

impl<T> Default for Loaded<T> {
    /// Nothing read yet.
    fn default() -> (loaded: Self)
        ensures
            loaded@ == Map::<u64, T>::empty(),
    {
        Loaded { read: HashMap::new() }
    }
}

impl<T> Loaded<T> {
    /// The drawing read for the sheet numbered `number`, if any.
    pub fn get(&self, number: u64) -> (drawing: Option<&T>)
        ensures
            match drawing {
                Some(d) => self@.contains_key(number) && *d == self@[number],
                None => !self@.contains_key(number),
            },
    {
        self.read.get(&number)
    }

    /// Whether the sheet numbered `number` has been read.
    pub fn has(&self, number: u64) -> (read: bool)
        ensures
            read == self@.contains_key(number),
    {
        self.read.contains_key(&number)
    }

    /// The live sheets arrived: the ones no longer coming are dropped, and the
    /// ones still coming keep what was read of them.
    pub fn keep_only(&mut self, alive: &[(u64, String)])
        ensures
            final(self)@ == old(self)@.restrict(Set::new(|n: u64| carries(alive@, n))),
    {
        let ghost before = self@;
        let mut remaining: HashMap<u64, T> = HashMap::new();
        std::mem::swap(&mut remaining, &mut self.read);
        let mut kept: HashMap<u64, T> = HashMap::new();
        let mut i: usize = 0;
        while i < alive.len()
            invariant
                i <= alive@.len(),
                forall|n: u64|
                    #[trigger] before.contains_key(n) ==> if carries(alive@.take(i as int), n) {
                        kept@.contains_key(n) && kept@[n] == before[n] && !remaining@.contains_key(n)
                    } else {
                        remaining@.contains_key(n) && remaining@[n] == before[n] && !kept@.contains_key(n)
                    },
                forall|n: u64| #[trigger] kept@.contains_key(n) ==> before.contains_key(n),
                forall|n: u64| #[trigger] remaining@.contains_key(n) ==> before.contains_key(n),
            decreases alive@.len() - i,
        {
            let number = alive[i].0;
            proof {
                assert forall|n: u64| carries(alive@.take(i + 1), n) == (carries(
                    alive@.take(i as int),
                    n,
                ) || n == number) by {
                    if carries(alive@.take(i + 1), n) {
                        let j = choose|j: int| 0 <= j < i + 1 && #[trigger] alive@.take(i + 1)[j].0 == n;
                        if j < i {
                            assert(alive@.take(i as int)[j].0 == n);
                        }
                    }
                    if carries(alive@.take(i as int), n) {
                        let j = choose|j: int| 0 <= j < i && #[trigger] alive@.take(i as int)[j].0 == n;
                        assert(alive@.take(i + 1)[j].0 == n);
                    }
                    if n == number {
                        assert(alive@.take(i + 1)[i as int].0 == n);
                    }
                }
            }
            match remaining.remove(&number) {
                Some(drawing) => {
                    kept.insert(number, drawing);
                },
                None => {},
            }
            i += 1;
        }
        proof {
            assert(alive@.take(alive@.len() as int) =~= alive@);
            assert(kept@ =~= before.restrict(Set::new(|n: u64| carries(alive@, n))));
        }
        self.read = kept;
    }

    /// Reads the sheets it does not have, in the order they are in, with
    /// `parse`; a sheet already read is not read again, and one that does not
    /// read is left out. Gives back the numbers of the sheets it read, in the
    /// order it read them, which is the order of the sheets.
    pub fn read<F: Fn(&String) -> Option<T>>(&mut self, sheets: &[(u64, String)], parse: F) -> (measured: Vec<u64>)
        requires
            forall|svg: &String| call_requires(parse, (svg,)),
        ensures
            forall|n: u64| #[trigger] old(self)@.contains_key(n) ==> final(self)@.contains_key(n)
                && final(self)@[n] == old(self)@[n],
            forall|n: u64| #[trigger] final(self)@.contains_key(n) ==> old(self)@.contains_key(n)
                || measured@.contains(n),
            forall|j: int|
                0 <= j < measured@.len() ==> {
                    &&& !old(self)@.contains_key(#[trigger] measured@[j])
                    &&& final(self)@.contains_key(measured@[j])
                    &&& exists|i: int|
                        0 <= i < sheets@.len() && sheets@[i].0 == measured@[j] && call_ensures(
                            parse,
                            (&sheets@[i].1,),
                            Some(final(self)@[measured@[j]]),
                        )
                },
            forall|j1: int, j2: int|
                0 <= j1 < j2 < measured@.len() ==> #[trigger] measured@[j1] != #[trigger] measured@[j2],
            exists|at: Seq<int>| #[trigger] read_at(sheets@, parse, final(self)@, measured@, at),
            forall|i: int|
                0 <= i < sheets@.len() && !final(self)@.contains_key(#[trigger] sheets@[i].0)
                    ==> call_ensures(parse, (&sheets@[i].1,), None),
    {
        let ghost before = self@;
        let ghost mut at: Seq<int> = Seq::empty();
        let mut measured: Vec<u64> = Vec::new();
        let mut i: usize = 0;
        while i < sheets.len()
            invariant
                i <= sheets@.len(),
                forall|svg: &String| call_requires(parse, (svg,)),
                forall|n: u64| #[trigger] before.contains_key(n) ==> self@.contains_key(n)
                    && self@[n] == before[n],
                forall|n: u64| #[trigger] self@.contains_key(n) ==> before.contains_key(n)
                    || measured@.contains(n),
                forall|j: int|
                    0 <= j < measured@.len() ==> {
                        &&& !before.contains_key(#[trigger] measured@[j])
                        &&& self@.contains_key(measured@[j])
                        &&& exists|k: int|
                            0 <= k < sheets@.len() && sheets@[k].0 == measured@[j] && call_ensures(
                                parse,
                                (&sheets@[k].1,),
                                Some(self@[measured@[j]]),
                            )
                    },
                forall|j1: int, j2: int|
                    0 <= j1 < j2 < measured@.len() ==> #[trigger] measured@[j1]
                        != #[trigger] measured@[j2],
                read_at(sheets@, parse, self@, measured@, at),
                forall|j: int| 0 <= j < at.len() ==> #[trigger] at[j] < i,
                forall|k: int|
                    0 <= k < i && !self@.contains_key(#[trigger] sheets@[k].0) ==> call_ensures(
                        parse,
                        (&sheets@[k].1,),
                        None,
                    ),
            decreases sheets@.len() - i,
        {
            let number = sheets[i].0;
            if !self.read.contains_key(&number) {
                let svg = &sheets[i].1;
                match parse(svg) {
                    Some(drawing) => {
                        let ghost earlier = measured@;
                        let ghost map_before = self@;
                        let ghost at_before = at;
                        self.read.insert(number, drawing);
                        measured.push(number);
                        proof {
                            at = at.push(i as int);
                            assert forall|j: int| 0 <= j < at.len() implies {
                                &&& 0 <= #[trigger] at[j] < sheets@.len()
                                &&& sheets@[at[j]].0 == measured@[j]
                                &&& self@.contains_key(measured@[j])
                                &&& call_ensures(parse, (&sheets@[at[j]].1,), Some(self@[measured@[j]]))
                            } by {
                                if j < at_before.len() {
                                    assert(at[j] == at_before[j]);
                                    assert(measured@[j] == earlier[j]);
                                    assert(map_before.contains_key(earlier[j]));
                                    assert(earlier[j] != number);
                                }
                            }
                            assert forall|j1: int, j2: int| 0 <= j1 < j2 < at.len() implies #[trigger] at[j1]
                                < #[trigger] at[j2] by {
                                if j2 < at_before.len() {
                                    assert(at[j1] == at_before[j1]);
                                    assert(at[j2] == at_before[j2]);
                                } else {
                                    assert(at[j1] == at_before[j1]);
                                }
                            }
                            assert(measured@[measured@.len() - 1] == number);
                            assert forall|n: u64| #[trigger] self@.contains_key(n) implies before.contains_key(n)
                                || measured@.contains(n) by {
                                if n != number && !before.contains_key(n) {
                                    assert(map_before.contains_key(n));
                                    let j = choose|j: int| 0 <= j < earlier.len() && earlier[j] == n;
                                    assert(measured@[j] == n);
                                }
                            }
                            assert forall|j: int| 0 <= j < measured@.len() - 1 implies
                                #[trigger] measured@[j] != number by {
                                assert(earlier[j] == measured@[j]);
                                assert(map_before.contains_key(earlier[j]));
                            }
                            assert forall|j: int| 0 <= j < measured@.len() implies {
                                &&& !before.contains_key(#[trigger] measured@[j])
                                &&& self@.contains_key(measured@[j])
                                &&& exists|k: int|
                                    0 <= k < sheets@.len() && sheets@[k].0 == measured@[j]
                                        && call_ensures(
                                        parse,
                                        (&sheets@[k].1,),
                                        Some(self@[measured@[j]]),
                                    )
                            } by {
                                if j < earlier.len() {
                                    assert(measured@[j] == earlier[j]);
                                    assert(earlier[j] != number);
                                } else {
                                    assert(sheets@[i as int].0 == measured@[j]);
                                }
                            }
                        }
                    },
                    None => {},
                }
            }
            i += 1;
        }
        assert(read_at(sheets@, parse, self@, measured@, at));
        measured
    }
}

} // verus!
