//! How the files of recordings are named.

use vstd::prelude::*;

use crate::text::{
    append_decimal, append_padded, append_text, decimal, law_padded_is_read_back, padded,
};

verus! {

/// The folder for recordings, below the desktop or wherever the user keeps documents.
pub fn recordings_folder_name() -> (name: &'static str)
    ensures
        name@ == "SoundLock原始录音"@,
{
    "SoundLock原始录音"
}

/// The largest number that a file is given.
pub const LAST_NUMBER: u32 = 9999;

/// The name of the file with a number.
pub open spec fn numbered_name(number: u32) -> Seq<char> {
    "SoundLock原始录音_"@ + padded(number as nat, 4) + ".wav"@
}

/// The name of the file where all numbers are in use: the seconds of the clock.
pub open spec fn stamped_name(seconds: u64) -> Seq<char> {
    "SoundLock原始录音_"@ + decimal(seconds as nat) + ".wav"@
}

/// The search for a name that is not in use.
#[derive(Clone, Copy, Debug, PartialEq, Eq, Structural)]
pub struct NameSearch {
    /// The number to be tried next; one more than the last where all were tried.
    pub number: u32,
}

impl NameSearch {
    pub open spec fn wf(self) -> bool {
        1 <= self.number <= LAST_NUMBER + 1
    }

    /// The name to be tried next.
    pub open spec fn name(self, seconds: u64) -> Seq<char> {
        if self.number <= LAST_NUMBER {
            numbered_name(self.number)
        } else {
            stamped_name(seconds)
        }
    }

    pub fn new() -> (search: NameSearch)
        ensures
            search.wf(),
            search.number == 1,
    {
        NameSearch { number: 1 }
    }

    /// The name to be tried next, at so many seconds of the clock.
    pub fn candidate(&self, seconds: u64) -> (name: String)
        ensures
            name@ == self.name(seconds),
    {
        let mut name = String::new();
        append_text(&mut name, "SoundLock原始录音_");
        if self.number <= LAST_NUMBER {
            append_padded(&mut name, self.number as u64, 4);
        } else {
            append_decimal(&mut name, seconds);
        }
        append_text(&mut name, ".wav");
        proof {
            assert(name@ =~= self.name(seconds));
        }
        name
    }

    /// The name to be tried is taken.
    pub open spec fn takes(self, in_use: bool) -> bool {
        !in_use || self.number > LAST_NUMBER
    }

    /// Takes in whether the name is in use; gives back whether it is to be used. The name
    /// after the last number is used whether it is in use or not.
    pub fn decide(&mut self, in_use: bool) -> (take: bool)
        requires
            old(self).wf(),
        ensures
            final(self).wf(),
            take == (!in_use || old(self).number > LAST_NUMBER),
            final(self).number == (if take {
                old(self).number
            } else {
                (old(self).number + 1) as u32
            }),
            take == old(self).takes(in_use),
            !take ==> final(self).number == old(self).number + 1,
    {
        if !in_use || self.number > LAST_NUMBER {
            true
        } else {
            self.number = self.number + 1;
            false
        }
    }
}

/// The name that a search comes to where `in_use` says of each number from one on whether
/// it is in use.
pub open spec fn chosen_number(in_use: Seq<bool>, from: u32) -> u32
    decreases LAST_NUMBER + 1 - from,
{
    if from > LAST_NUMBER || !in_use[from - 1] {
        from
    } else {
        chosen_number(in_use, (from + 1) as u32)
    }
}

/// Runs a search where it is known of each number whether it is in use.
pub fn next_recording_name(in_use: &Vec<bool>, seconds: u64) -> (name: String)
    requires
        in_use@.len() == LAST_NUMBER,
    ensures
        name@ == (NameSearch { number: chosen_number(in_use@, 1) }).name(seconds),
{
    let mut search = NameSearch::new();
    loop
        invariant
            search.wf(),
            in_use@.len() == LAST_NUMBER,
            chosen_number(in_use@, 1) == chosen_number(in_use@, search.number),
        ensures
            search.number == chosen_number(in_use@, 1),
        decreases LAST_NUMBER + 1 - search.number,
    {
        let taken = search.number <= LAST_NUMBER && in_use[(search.number - 1) as usize];
        if search.decide(taken) {
            break;
        }
    }
    search.candidate(seconds)
}

/// The search takes the smallest number that is not in use.
pub proof fn law_smallest_free_number_is_taken(in_use: Seq<bool>, from: u32)
    requires
        in_use.len() == LAST_NUMBER,
        1 <= from <= LAST_NUMBER + 1,
    ensures
        from <= chosen_number(in_use, from) <= LAST_NUMBER + 1,
        chosen_number(in_use, from) <= LAST_NUMBER ==> !in_use[chosen_number(in_use, from) - 1],
        forall|number: int|
            from <= number < chosen_number(in_use, from) ==> #[trigger] in_use[number - 1],
    decreases LAST_NUMBER + 1 - from,
{
    if from <= LAST_NUMBER && in_use[from - 1] {
        law_smallest_free_number_is_taken(in_use, (from + 1) as u32);
        assert forall|number: int|
            from <= number < chosen_number(in_use, from) implies #[trigger] in_use[number - 1] by {
            if number > from {
                assert(in_use[number - 1]);
            }
        }
    }
}

/// Different numbers give different names.
pub proof fn law_names_are_distinct(a: u32, b: u32)
    requires
        numbered_name(a) == numbered_name(b),
    ensures
        a == b,
{
    let front = "SoundLock原始录音_"@;
    let back = ".wav"@;
    let digits_a = padded(a as nat, 4);
    let digits_b = padded(b as nat, 4);
    assert(numbered_name(a).len() == front.len() + digits_a.len() + back.len());
    assert(numbered_name(b).len() == front.len() + digits_b.len() + back.len());
    let start = front.len() as int;
    assert(numbered_name(a).subrange(start, start + digits_a.len()) =~= digits_a);
    assert(numbered_name(b).subrange(start, start + digits_b.len()) =~= digits_b);
    law_padded_is_read_back(a as nat, 4);
    law_padded_is_read_back(b as nat, 4);
}

proof fn lemma_few_digits(value: nat, limit: nat, width: nat)
    requires
        width > 0,
        limit == vstd::arithmetic::power::pow(10, width),
        value < limit,
    ensures
        decimal(value).len() <= width,
    decreases width,
{
    reveal(vstd::arithmetic::power::pow);
    if value >= 10 {
        if width == 1 {
            assert(vstd::arithmetic::power::pow(10, 1) == 10 * vstd::arithmetic::power::pow(10, 0));
        } else {
            let shorter = vstd::arithmetic::power::pow(10, (width - 1) as nat);
            assert(limit == 10 * shorter);
            lemma_few_digits(value / 10, shorter as nat, (width - 1) as nat);
        }
    }
}

/// All names with a number are equally long, so that they are listed in the order in which they were
/// given; a name in use is passed over as long as there are numbers left.
pub proof fn law_numbered_names_are_equally_long(a: u32, b: u32, search: NameSearch, in_use: bool)
    requires
        a <= LAST_NUMBER,
        b <= LAST_NUMBER,
    ensures
        padded(a as nat, 4).len() == 4,
        numbered_name(a).len() == numbered_name(b).len(),
        search.number <= LAST_NUMBER ==> (search.takes(in_use) <==> !in_use),
        search.number > 9999 ==> search.takes(in_use),
{
    reveal(vstd::arithmetic::power::pow);
    assert(vstd::arithmetic::power::pow(10, 0) == 1);
    assert(vstd::arithmetic::power::pow(10, 1) == 10);
    assert(vstd::arithmetic::power::pow(10, 2) == 100);
    assert(vstd::arithmetic::power::pow(10, 3) == 1000);
    assert(vstd::arithmetic::power::pow(10, 4) == 10000);
    lemma_few_digits(a as nat, 10000, 4);
    lemma_few_digits(b as nat, 10000, 4);
}

/// Where all numbers are in use, the seconds of the clock tell the names apart.
pub proof fn law_stamped_names_are_distinct(a: u64, b: u64)
    requires
        stamped_name(a) == stamped_name(b),
    ensures
        a == b,
{
    let front = "SoundLock原始录音_"@;
    let back = ".wav"@;
    let digits_a = decimal(a as nat);
    let digits_b = decimal(b as nat);
    assert(stamped_name(a).len() == front.len() + digits_a.len() + back.len());
    assert(stamped_name(b).len() == front.len() + digits_b.len() + back.len());
    let start = front.len() as int;
    assert(stamped_name(a).subrange(start, start + digits_a.len()) =~= digits_a);
    assert(stamped_name(b).subrange(start, start + digits_b.len()) =~= digits_b);
    crate::text::law_decimal_is_read_back(a as nat);
    crate::text::law_decimal_is_read_back(b as nat);
}

/// The names up to the last number do not depend on the clock, and the one after it depends on nothing
/// else.
pub proof fn law_clock_matters_after_the_last_number(search: NameSearch, other: NameSearch, a: u64, b: u64)
    ensures
        search.number <= 9999 ==> search.name(a) == search.name(b) && search.name(a)
            == numbered_name(search.number),
        search.number > 9999 && search.name(a) == search.name(b) ==> a == b,
        search.number > 9999 && other.number > 9999 ==> search.name(a) == other.name(a),
{
    if search.number > 9999 && search.name(a) == search.name(b) {
        law_stamped_names_are_distinct(a, b);
    }
}

} // verus!
