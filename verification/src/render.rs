//! Rendering: a document and a template give the text of the recipe.

use crate::document::{slot_value, DocumentModel, RecipeDocument};
use crate::template::{all_slots, is_at, lemma_slots_complete, occurs, occurs_in, slots, starts_at};
use crate::template::Slot;
use crate::text::{push_char, to_chars};
use vstd::prelude::*;
use vstd::string::*;

verus! {

/// Why a template cannot be rendered.
#[derive(Clone, Copy, Debug, PartialEq, Eq)]
pub enum RenderError {
    /// The template lacks one of the slots.
    TemplateMismatch,
}

/// The first of `candidates` whose marker stands in the template at `at`.
pub open spec fn first_slot_at(template: Seq<char>, at: int, candidates: Seq<Slot>) -> Option<
    Slot,
>
    decreases candidates.len(),
{
    if candidates.len() == 0 {
        None
    } else if starts_at(template, at, candidates.first().marker()) {
        Some(candidates.first())
    } else {
        first_slot_at(template, at, candidates.drop_first())
    }
}

/// The marker of the slot that `first_slot_at` finds stands at `at`.
pub proof fn lemma_first_slot_stands(template: Seq<char>, at: int, candidates: Seq<Slot>)
    ensures
        first_slot_at(template, at, candidates) matches Some(slot) ==> starts_at(
            template,
            at,
            slot.marker(),
        ),
    decreases candidates.len(),
{
    if candidates.len() > 0 && !starts_at(template, at, candidates.first().marker()) {
        lemma_first_slot_stands(template, at, candidates.drop_first());
    }
}

/// The slot whose marker stands in the template at `at`, if there is one.
pub open spec fn slot_at(template: Seq<char>, at: int) -> Option<Slot> {
    first_slot_at(template, at, slots())
}

/// The text of the template from the place `from` on, with the document's
/// values in place of the slots.
pub open spec fn expansion(template: Seq<char>, document: DocumentModel, from: int) -> Seq<char>
    decreases template.len() - from,
{
    if from < 0 || from >= template.len() {
        Seq::empty()
    } else if slot_at(template, from) is Some {
        let slot = slot_at(template, from)->0;
        proof {
            lemma_first_slot_stands(template, from, slots());
        }
        slot_value(document, slot) + expansion(template, document, from + slot.marker().len())
    } else {
        seq![template[from]] + expansion(template, document, from + 1)
    }
}

/// The template holds every slot.
pub open spec fn is_complete(template: Seq<char>) -> bool {
    forall|slot: Slot| occurs_in(template, #[trigger] slot.marker())
}

/// What rendering gives: the expansion of the whole template, if the template
/// holds every slot.
pub open spec fn rendering(document: DocumentModel, template: Seq<char>) -> Result<
    Seq<char>,
    RenderError,
> {
    if is_complete(template) {
        Ok(expansion(template, document, 0))
    } else {
        Err(RenderError::TemplateMismatch)
    }
}

/// The mathematical content of what `render` returns.
pub open spec fn rendered(r: Result<String, RenderError>) -> Result<Seq<char>, RenderError> {
    match r {
        Ok(text) => Ok(text@),
        Err(e) => Err(e),
    }
}

/// `markers` holds the markers of all the slots, in the order of `slots()`.
spec fn are_markers(markers: Seq<Vec<char>>) -> bool {
    &&& markers.len() == slots().len()
    &&& forall|k: int| 0 <= k < markers.len() ==> (#[trigger] markers[k])@ == slots()[k].marker()
}

/// `values` holds what the document puts into the first `count` slots, in
/// the order of `slots()`.
spec fn are_values(values: Seq<String>, document: DocumentModel, count: int) -> bool {
    &&& values.len() == count
    &&& forall|k: int|
        0 <= k < count ==> (#[trigger] values[k])@ == slot_value(document, slots()[k])
}

fn all_markers() -> (markers: Vec<Vec<char>>)
    ensures
        are_markers(markers@),
{
    let all = all_slots();
    let mut markers: Vec<Vec<char>> = Vec::new();
    let mut k: usize = 0;
    while k < all.len()
        invariant
            k <= all.len(),
            all@ == slots(),
            markers.len() == k,
            forall|j: int| 0 <= j < k ==> (#[trigger] markers@[j])@ == slots()[j].marker(),
        decreases all.len() - k,
    {
        markers.push(all[k].marker_chars());
        k += 1;
    }
    markers
}

/// Tells whether the template holds every slot.
fn holds_every_slot(template: &Vec<char>, markers: &Vec<Vec<char>>) -> (complete: bool)
    requires
        are_markers(markers@),
    ensures
        complete == is_complete(template@),
{
    let mut k: usize = 0;
    while k < markers.len()
        invariant
            k <= markers.len(),
            are_markers(markers@),
            forall|j: int| 0 <= j < k ==> occurs_in(template@, #[trigger] slots()[j].marker()),
        decreases markers.len() - k,
    {
        if !occurs(template, &markers[k]) {
            assert(!occurs_in(template@, slots()[k as int].marker()));
            return false;
        }
        k += 1;
    }
    proof {
        assert forall|slot: Slot| occurs_in(template@, #[trigger] slot.marker()) by {
            lemma_slots_complete(slot);
            let j = choose|j: int| 0 <= j < slots().len() && slots()[j] == slot;
            assert(occurs_in(template@, slots()[j].marker()));
        }
    }
    true
}

/// Finds the slot whose marker stands in the template at `at`: its place in
/// `slots()`.
fn find_slot(template: &Vec<char>, at: usize, markers: &Vec<Vec<char>>) -> (found: Option<usize>)
    requires
        are_markers(markers@),
    ensures
        match found {
            Some(k) => {
                &&& k < slots().len()
                &&& slot_at(template@, at as int) == Some(slots()[k as int])
                &&& starts_at(template@, at as int, slots()[k as int].marker())
            },
            None => slot_at(template@, at as int) is None,
        },
{
    let mut k: usize = 0;
    assert(slots().subrange(0, slots().len() as int) =~= slots());
    while k < markers.len()
        invariant
            k <= markers.len(),
            are_markers(markers@),
            slot_at(template@, at as int) == first_slot_at(
                template@,
                at as int,
                slots().subrange(k as int, slots().len() as int),
            ),
        decreases markers.len() - k,
    {
        proof {
            let rest = slots().subrange(k as int, slots().len() as int);
            assert(rest.first() == slots()[k as int]);
            assert(rest.drop_first() =~= slots().subrange(k + 1, slots().len() as int));
        }
        if is_at(template, at, &markers[k]) {
            return Some(k);
        }
        k += 1;
    }
    None
}

/// Puts the document's values into the slots of the template.
///
/// The result is `Err(TemplateMismatch)` if the template lacks a slot, and
/// the expanded text otherwise.
pub fn render(document: &RecipeDocument, template: &str) -> (r: Result<String, RenderError>)
    ensures
        rendered(r) == rendering(document@, template@),
{
    let chars = to_chars(template);
    let markers = all_markers();
    if !holds_every_slot(&chars, &markers) {
        return Err(RenderError::TemplateMismatch);
    }
    let all = all_slots();
    let mut values: Vec<String> = Vec::new();
    let mut k: usize = 0;
    while k < all.len()
        invariant
            k <= all.len(),
            all@ == slots(),
            are_values(values@, document@, k as int),
        decreases all.len() - k,
    {
        values.push(document.slot_text(all[k]));
        k += 1;
    }
    let mut text = String::new();
    let mut at: usize = 0;
    assert(text@ + expansion(chars@, document@, 0) =~= expansion(chars@, document@, 0));
    while at < chars.len()
        invariant
            at <= chars.len(),
            are_markers(markers@),
            are_values(values@, document@, slots().len() as int),
            text@ + expansion(chars@, document@, at as int) == expansion(chars@, document@, 0),
        decreases chars.len() - at,
    {
        let ghost before = text@;
        match find_slot(&chars, at, &markers) {
            Some(k) => {
                let ghost slot = slots()[k as int];
                let ghost rest = expansion(chars@, document@, at + slot.marker().len());
                proof {
                    assert(markers@[k as int]@ == slot.marker());
                    assert(starts_at(chars@, at as int, slot.marker()));
                    assert(before + (values@[k as int]@ + rest) =~= before + values@[k as int]@
                        + rest);
                }
                text.append(values[k].as_str());
                at += markers[k].len();
            },
            None => {
                let ghost rest = expansion(chars@, document@, at + 1);
                proof {
                    assert(before + (seq![chars@[at as int]] + rest) =~= before.push(
                        chars@[at as int],
                    ) + rest);
                }
                push_char(&mut text, chars[at]);
                at += 1;
            },
        }
    }
    assert(text@ + Seq::<char>::empty() =~= text@);
    Ok(text)
}

} // verus!
