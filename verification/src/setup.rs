//! Whether the virtual sound card is there.

use vstd::prelude::*;

use crate::text::{contains_text, holds_part};

verus! {

/// A text in lower case, as `str::to_lowercase` gives it.
pub uninterp spec fn lowercase(text: Seq<char>) -> Seq<char>;

/// Calls `str::to_lowercase`: the lower case of a text, which depends on the text alone.
/// What the lower case of a character is, is left unsaid.
#[verifier::external_body]
fn to_lowercase(text: &str) -> (lower: String)
    ensures
        lower@ == lowercase(text@),
{
    text.to_lowercase()
}

/// A name in lower case that is the recording end of the virtual sound card.
pub open spec fn names_cable_output(lower: Seq<char>) -> bool {
    holds_part(lower, "cable output"@) || (holds_part(lower, "vb-audio"@) && holds_part(
        lower,
        "cable"@,
    ) && holds_part(lower, "output"@))
}

/// A name in lower case that is the playing end of the virtual sound card.
pub open spec fn names_cable_input(lower: Seq<char>) -> bool {
    holds_part(lower, "cable input"@) || (holds_part(lower, "vb-audio"@) && holds_part(
        lower,
        "cable"@,
    ) && holds_part(lower, "input"@))
}

pub fn is_lower_cable_output_name(lower: &str) -> (is: bool)
    ensures
        is == names_cable_output(lower@),
{
    contains_text(lower, "cable output") || (contains_text(lower, "vb-audio") && contains_text(
        lower,
        "cable",
    ) && contains_text(lower, "output"))
}

pub fn is_lower_cable_input_name(lower: &str) -> (is: bool)
    ensures
        is == names_cable_input(lower@),
{
    contains_text(lower, "cable input") || (contains_text(lower, "vb-audio") && contains_text(
        lower,
        "cable",
    ) && contains_text(lower, "input"))
}

/// Whether a device is the recording end of the virtual sound card, however its name is
/// spelled.
pub fn is_cable_output_name(name: &str) -> (is: bool)
    ensures
        is == names_cable_output(lowercase(name@)),
{
    let lower = to_lowercase(name);
    is_lower_cable_output_name(lower.as_str())
}

/// Whether a device is the playing end of the virtual sound card, however its name is
/// spelled.
pub fn is_cable_input_name(name: &str) -> (is: bool)
    ensures
        is == names_cable_input(lowercase(name@)),
{
    let lower = to_lowercase(name);
    is_lower_cable_input_name(lower.as_str())
}

/// The virtual sound card is there if one of its two ends is: the recording end among the
/// devices that record, or the playing end among those that play.
pub fn is_vbcable_installed(input_names: &Vec<String>, output_names: &Vec<String>) -> (installed:
    bool)
    ensures
        installed == ({
            ||| exists|i: int|
                0 <= i < input_names@.len() && names_cable_output(
                    lowercase((#[trigger] input_names@[i])@),
                )
            ||| exists|i: int|
                0 <= i < output_names@.len() && names_cable_input(
                    lowercase((#[trigger] output_names@[i])@),
                )
        }),
{
    let mut at: usize = 0;
    while at < input_names.len()
        invariant
            at <= input_names@.len(),
            forall|i: int|
                0 <= i < at ==> !names_cable_output(lowercase((#[trigger] input_names@[i])@)),
        decreases input_names@.len() - at,
    {
        if is_cable_output_name(input_names[at].as_str()) {
            return true;
        }
        at = at + 1;
    }
    at = 0;
    while at < output_names.len()
        invariant
            at <= output_names@.len(),
            forall|i: int|
                0 <= i < at ==> !names_cable_input(lowercase((#[trigger] output_names@[i])@)),
        decreases output_names@.len() - at,
    {
        if is_cable_input_name(output_names[at].as_str()) {
            return true;
        }
        at = at + 1;
    }
    false
}

proof fn lemma_part_of_part(text: Seq<char>, whole: Seq<char>, part: Seq<char>, at: int)
    requires
        holds_part(text, whole),
        0 <= at,
        at + part.len() <= whole.len(),
        whole.subrange(at, at + part.len()) == part,
    ensures
        holds_part(text, part),
{
    let start = choose|start: int| crate::text::stands_at(text, whole, start);
    assert(text.subrange(start + at, start + at + part.len()) =~= text.subrange(
        start,
        start + whole.len(),
    ).subrange(at, at + part.len()));
    assert(crate::text::stands_at(text, part, start + at));
}

/// The two ends of the virtual sound card are told apart: every name of the recording end says both
/// that it is a cable and that it is an output, every name of the playing end says that it is a cable
/// and an input, and a name that does not say the two in one go names the maker too. Nothing more is
/// asked of a name.
pub proof fn law_cable_names_say_what_they_are(lower: Seq<char>)
    ensures
        names_cable_output(lower) ==> holds_part(lower, "cable"@) && holds_part(lower, "output"@),
        names_cable_input(lower) ==> holds_part(lower, "cable"@) && holds_part(lower, "input"@),
        names_cable_output(lower) ==> holds_part(lower, "cable output"@) || holds_part(
            lower,
            "vb-audio"@,
        ),
        names_cable_input(lower) ==> holds_part(lower, "cable input"@) || holds_part(
            lower,
            "vb-audio"@,
        ),
        holds_part(lower, "cable output"@) ==> names_cable_output(lower),
        holds_part(lower, "cable input"@) ==> names_cable_input(lower),
        holds_part(lower, "vb-audio"@) && holds_part(lower, "cable"@) && holds_part(
            lower,
            "output"@,
        ) ==> names_cable_output(lower),
        holds_part(lower, "vb-audio"@) && holds_part(lower, "cable"@) && holds_part(
            lower,
            "input"@,
        ) ==> names_cable_input(lower),
{
    reveal_strlit("cable output");
    reveal_strlit("cable input");
    reveal_strlit("cable");
    reveal_strlit("output");
    reveal_strlit("input");
    assert("cable output"@.subrange(0, 5) =~= "cable"@);
    assert("cable output"@.subrange(6, 12) =~= "output"@);
    assert("cable input"@.subrange(0, 5) =~= "cable"@);
    assert("cable input"@.subrange(6, 11) =~= "input"@);
    if holds_part(lower, "cable output"@) {
        lemma_part_of_part(lower, "cable output"@, "cable"@, 0);
        lemma_part_of_part(lower, "cable output"@, "output"@, 6);
    }
    if holds_part(lower, "cable input"@) {
        lemma_part_of_part(lower, "cable input"@, "cable"@, 0);
        lemma_part_of_part(lower, "cable input"@, "input"@, 6);
    }
}

} // verus!
