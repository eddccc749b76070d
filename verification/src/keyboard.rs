//! The page-wide keyboard handler's decisions.
//!
//! One listener serves the whole page. On each key release it reads the
//! page's active-project attribute; when none is set the event is ignored.
//! Otherwise `Escape` clears the URL fragment, the arrow keys activate the
//! previous or next control of the active project's slideshow, found by a
//! class selector built from the project name, and every other key is
//! ignored.

use vstd::prelude::*;

use crate::slideshow::{next_class, next_class_spec, prev_class, prev_class_spec};
use crate::util::str_eq;

verus! {

/// What the keyboard handler decides to do with one key release.
pub enum KeyAction {
    /// Clear the URL fragment.
    ClearFragment,
    /// Activate the first element the selector matches, if any.
    ClickSelector(String),
    /// Do nothing.
    Ignore,
}

/// The selector of one control of the active project's slideshow, built from
/// the project name and the control's class.
pub open spec fn control_selector(project: Seq<char>, control: Seq<char>) -> Seq<char> {
    ".project."@ + project + " ."@ + control
}

/// The selector of the active project's previous control: the very class the
/// setup gave that control.
pub open spec fn prev_selector(project: Seq<char>) -> Seq<char> {
    control_selector(project, prev_class_spec())
}

/// The selector of the active project's next control: the very class the
/// setup gave that control.
pub open spec fn next_selector(project: Seq<char>) -> Seq<char> {
    control_selector(project, next_class_spec())
}

/// Builds `.project.<name> .<control>` from the project name and the
/// control's class.
fn project_selector(project: &str, control: &str) -> (s: String)
    ensures
        s@ == control_selector(project@, control@),
{
    let mut s = ".project.".to_owned();
    s.append(project);
    s.append(" .");
    s.append(control);
    s
}

/// Chooses the action for one key release. Without an active project every
/// key is ignored; with one, `Escape` clears the fragment, the arrow keys
/// activate the project's previous or next control, and any other key is
/// ignored.
pub fn keyup_action(active_project: Option<&str>, key: &str) -> (r: KeyAction)
    ensures
        match active_project {
            Some(p) => {
                if key@ == "Escape"@ {
                    r is ClearFragment
                } else if key@ == "ArrowLeft"@ {
                    r matches KeyAction::ClickSelector(s) && s@ == prev_selector(p@)
                } else if key@ == "ArrowRight"@ {
                    r matches KeyAction::ClickSelector(s) && s@ == next_selector(p@)
                } else {
                    r is Ignore
                }
            },
            None => r is Ignore,
        },
{
    match active_project {
        Some(p) => {
            if str_eq(key, "Escape") {
                KeyAction::ClearFragment
            } else if str_eq(key, "ArrowLeft") {
                KeyAction::ClickSelector(project_selector(p, prev_class()))
            } else if str_eq(key, "ArrowRight") {
                KeyAction::ClickSelector(project_selector(p, next_class()))
            } else {
                KeyAction::Ignore
            }
        },
        None => KeyAction::Ignore,
    }
}

/// The URL fragment after an action is carried out: clearing leaves it
/// empty, any other action leaves it as it was.
pub open spec fn fragment_after_spec(a: KeyAction, fragment: Seq<char>) -> Seq<char> {
    if a is ClearFragment {
        Seq::empty()
    } else {
        fragment
    }
}

/// The fragment value an action leads to, from the fragment's prior value.
pub fn fragment_after(a: &KeyAction, fragment: &str) -> (r: String)
    ensures
        r@ == fragment_after_spec(*a, fragment@),
{
    match a {
        KeyAction::ClearFragment => String::new(),
        _ => fragment.to_owned(),
    }
}

/// Clearing the fragment empties it whatever it held before.
pub proof fn lemma_clear_fragment_total(a: KeyAction, fragment: Seq<char>)
    requires
        a is ClearFragment,
    ensures
        fragment_after_spec(a, fragment) == Seq::<char>::empty(),
{
}

} // verus!
