//! The per-instance carousel state machine and the setup plan built for each
//! container.
//!
//! A slideshow is a container element holding an ordered run of slides; its
//! whole state is the current index, kept in `[0, count)` and persisted as a
//! decimal attribute on the container. Navigation wraps around at both ends.
//! At setup time a container with at least two slides receives a previous
//! control, a next control and one numbered control per slide; a container
//! with fewer slides is left inert.

use vstd::prelude::*;

use crate::numeral::{all_digits, dec_of, format_usize, lemma_dec_of_val, parse_usize, val_of};
use crate::util::str_eq;

verus! {

/// The index shown after one step backward: wraps from the first slide to the
/// last.
pub open spec fn prev_index(i: int, n: int) -> int {
    if i == 0 {
        n - 1
    } else {
        i - 1
    }
}

/// The index shown after one step forward: wraps from the last slide to the
/// first.
pub open spec fn next_index(i: int, n: int) -> int {
    if i == n - 1 {
        0
    } else {
        i + 1
    }
}

/// The index reached from `i` after `k` steps backward among `n` slides.
pub open spec fn iterate_prev(i: int, n: int, k: nat) -> int
    decreases k,
{
    if k == 0 {
        i
    } else {
        prev_index(iterate_prev(i, n, (k - 1) as nat), n)
    }
}

/// The index reached from `i` after `k` steps forward among `n` slides.
pub open spec fn iterate_next(i: int, n: int, k: nat) -> int
    decreases k,
{
    if k == 0 {
        i
    } else {
        next_index(iterate_next(i, n, (k - 1) as nat), n)
    }
}

/// Up to a full cycle, stepping backward `k` times lands `k` places to the
/// left, modulo wrap-around.
proof fn lemma_iterate_prev_closed(i: int, n: int, k: nat)
    requires
        0 <= i < n,
        k <= n,
    ensures
        iterate_prev(i, n, k) == if k <= i {
            i - k
        } else {
            i + n - k
        },
    decreases k,
{
    if k > 0 {
        lemma_iterate_prev_closed(i, n, (k - 1) as nat);
    }
}

/// Up to a full cycle, stepping forward `k` times lands `k` places to the
/// right, modulo wrap-around.
proof fn lemma_iterate_next_closed(i: int, n: int, k: nat)
    requires
        0 <= i < n,
        k <= n,
    ensures
        iterate_next(i, n, k) == if i + k < n {
            i + k
        } else {
            i + k - n
        },
    decreases k,
{
    if k > 0 {
        lemma_iterate_next_closed(i, n, (k - 1) as nat);
    }
}

/// Navigation is cyclic: from any valid index among `n` slides, stepping
/// backward `n` times returns to the starting index, and so does stepping
/// forward `n` times.
pub proof fn lemma_navigation_cycle(i: int, n: int)
    requires
        n >= 2,
        0 <= i < n,
    ensures
        iterate_prev(i, n, n as nat) == i,
        iterate_next(i, n, n as nat) == i,
{
    lemma_iterate_prev_closed(i, n, n as nat);
    lemma_iterate_next_closed(i, n, n as nat);
}

/// One step backward undoes one step forward, and the other way round, from
/// any valid index.
pub proof fn lemma_prev_next_identity(i: int, n: int)
    requires
        n >= 1,
        0 <= i < n,
    ensures
        prev_index(next_index(i, n), n) == i,
        next_index(prev_index(i, n), n) == i,
{
}

/// The class of the step-backward control; the keyboard handler's selectors
/// name it too.
pub open spec fn prev_class_spec() -> Seq<char> {
    "prev"@
}

/// The class of the step-forward control; the keyboard handler's selectors
/// name it too.
pub open spec fn next_class_spec() -> Seq<char> {
    "next"@
}

/// The class of the step-backward control.
pub fn prev_class() -> (s: &'static str)
    ensures
        s@ == prev_class_spec(),
{
    "prev"
}

/// The class of the step-forward control.
pub fn next_class() -> (s: &'static str)
    ensures
        s@ == next_class_spec(),
{
    "next"
}

/// The class of the sibling element holding the numbered controls.
pub fn controls_class() -> (s: &'static str)
    ensures
        s@ == "controls"@,
{
    "controls"
}

/// The class of one numbered control.
pub fn link_class() -> (s: &'static str)
    ensures
        s@ == "link"@,
{
    "link"
}

/// The selector matching every slideshow container on the page.
pub fn slideshow_selector() -> (s: &'static str)
    ensures
        s@ == ".slideshow"@,
{
    ".slideshow"
}

/// One carousel instance: the current index among a fixed number of slides.
pub struct Slideshow {
    /// The index of the visible slide.
    pub index: usize,
    /// How many slides the container holds.
    pub count: usize,
}

impl Slideshow {
    /// The state invariant: the index names an existing slide.
    pub open spec fn wf(self) -> bool {
        self.index < self.count
    }

    /// A fresh instance showing the slide at `index`.
    pub fn new(index: usize, count: usize) -> (s: Slideshow)
        requires
            index < count,
        ensures
            s.wf(),
            s.index == index,
            s.count == count,
    {
        Slideshow { index, count }
    }

    /// An instance recovered from the container's index attribute. A missing
    /// attribute, one that is not a decimal numeral, or one naming a slide
    /// the container does not have, falls back to the first slide.
    pub fn from_attribute(attr: Option<&str>, count: usize) -> (s: Slideshow)
        requires
            count >= 1,
        ensures
            s.wf(),
            s.count == count,
            match attr {
                Some(a) => {
                    if a@.len() >= 1 && all_digits(a@) && val_of(a@) < count {
                        s.index as int == val_of(a@)
                    } else {
                        s.index == 0
                    }
                },
                None => s.index == 0,
            },
    {
        let index: usize = match attr {
            Some(a) => match parse_usize(a) {
                Some(v) => {
                    if v < count {
                        v
                    } else {
                        0
                    }
                },
                None => 0,
            },
            None => 0,
        };
        Slideshow { index, count }
    }

    /// Steps to the previous slide, wrapping from the first to the last.
    pub fn previous(&mut self)
        requires
            old(self).wf(),
        ensures
            final(self).wf(),
            final(self).count == old(self).count,
            final(self).index as int == prev_index(
                old(self).index as int,
                old(self).count as int,
            ),
    {
        if self.index == 0 {
            self.index = self.count - 1;
        } else {
            self.index = self.index - 1;
        }
    }

    /// Steps to the next slide, wrapping from the last to the first.
    pub fn next(&mut self)
        requires
            old(self).wf(),
        ensures
            final(self).wf(),
            final(self).count == old(self).count,
            final(self).index as int == next_index(
                old(self).index as int,
                old(self).count as int,
            ),
    {
        if self.index == self.count - 1 {
            self.index = 0;
        } else {
            self.index = self.index + 1;
        }
    }

    /// Jumps straight to slide `k`, whatever was shown before.
    pub fn jump_to(&mut self, k: usize)
        requires
            old(self).wf(),
            k < old(self).count,
        ensures
            final(self).wf(),
            final(self).count == old(self).count,
            final(self).index == k,
    {
        self.index = k;
    }

    /// The value to persist in the container's index attribute: the decimal
    /// numeral of the current index.
    pub fn attribute_value(&self) -> (s: String)
        ensures
            s@ == dec_of(self.index as nat),
            all_digits(s@),
            val_of(s@) == self.index,
    {
        proof {
            lemma_dec_of_val(self.index as nat);
        }
        format_usize(self.index)
    }
}

/// One numbered control: activating it shows the slide at `target`, and its
/// text is the 1-based ordinal of that slide.
pub struct ControlLink {
    /// The 0-based slide index the control jumps to.
    pub target: usize,
    /// The control's text: the decimal numeral of `target + 1`.
    pub label: String,
}

/// The numbered controls to create for a container, exactly when it holds at
/// least two slides: one control per slide, in slide order, labeled with
/// 1-based ordinals. A container with fewer slides gets none, and no previous
/// or next control either.
pub fn control_plan(slide_count: usize) -> (r: Option<Vec<ControlLink>>)
    ensures
        r is Some <==> slide_count >= 2,
        match r {
            Some(links) => {
                &&& links@.len() == slide_count
                &&& forall|j: int|
                    0 <= j < slide_count ==> (#[trigger] links@[j]).target == j
                        && links@[j].label@ == dec_of((j + 1) as nat)
            },
            None => true,
        },
{
    if slide_count <= 1 {
        return None;
    }
    let mut links: Vec<ControlLink> = Vec::new();
    let mut j: usize = 0;
    while j < slide_count
        invariant
            j <= slide_count,
            slide_count >= 2,
            links@.len() == j,
            forall|t: int|
                0 <= t < j ==> (#[trigger] links@[t]).target == t && links@[t].label@ == dec_of(
                    (t + 1) as nat,
                ),
        decreases slide_count - j,
    {
        let label = format_usize(j + 1);
        links.push(ControlLink { target: j, label });
        j = j + 1;
    }
    Some(links)
}

/// Whether a child node of this name counts as a slide.
pub open spec fn is_slide_name(name: Seq<char>) -> bool {
    name == "DIV"@
}

/// Marks, for each child node name of a container, whether that child is a
/// slide: exactly the block-level (`DIV`) children count.
pub fn slide_flags(child_names: &Vec<String>) -> (flags: Vec<bool>)
    ensures
        flags@.len() == child_names@.len(),
        forall|i: int|
            0 <= i < child_names@.len() ==> #[trigger] flags@[i] == is_slide_name(
                child_names@[i]@,
            ),
{
    let mut flags: Vec<bool> = Vec::new();
    let mut i: usize = 0;
    while i < child_names.len()
        invariant
            i <= child_names@.len(),
            flags@.len() == i,
            forall|t: int|
                0 <= t < i ==> #[trigger] flags@[t] == is_slide_name(child_names@[t]@),
        decreases child_names@.len() - i,
    {
        let name: &String = &child_names[i];
        flags.push(str_eq(name.as_str(), "DIV"));
        i = i + 1;
    }
    flags
}

} // verus!
