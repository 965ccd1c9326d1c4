//! Checks for dialogs and actions that come from outside: whether they can be shown.

use crate::app::effects::all_sound;
use crate::app::Action;
use crate::batch::{Batch, Kind};
use crate::dialogs::browser::Browser;
use crate::modal::Modal;
use crate::sync_picker::{SyncPicker, SyncStep};
use crate::widgets::Input;
use vstd::prelude::*;

verus! {

impl Input {
    /// The cursor is in the text.
    pub fn is_valid(&self) -> (r: bool)
        ensures
            r == self@.valid(),
    {
        self.cursor <= self.text.len()
    }
}

fn picks_rows(browser: &Browser) -> (r: bool)
    ensures
        r == browser@.valid(),
{
    if !browser.input.is_valid() {
        return false;
    }
    let mut i: usize = 0;
    while i < browser.shown.len()
        invariant
            i <= browser.shown.len(),
            browser@.input.valid(),
            forall|k: int| 0 <= k < i ==> #[trigger] browser@.shown[k] < browser@.items.len(),
        decreases browser.shown.len() - i,
    {
        if browser.shown[i] >= browser.items.len() {
            assert(browser@.shown[i as int] >= browser@.items.len());
            return false;
        }
        i = i + 1;
    }
    true
}

fn lists_rows(batch: &Batch) -> (r: bool)
    ensures
        r == batch@.valid(),
{
    if !batch.input.is_valid() {
        return false;
    }
    let mut i: usize = 0;
    while i < batch.shown.len()
        invariant
            i <= batch.shown.len(),
            batch@.input.valid(),
            forall|k: int|
                0 <= k < i ==> #[trigger] batch@.shown[k] <= batch@.rows.len() && (batch@.shown[k]
                    == batch@.rows.len() ==> batch@.kind == Kind::Tags),
        decreases batch.shown.len() - i,
    {
        if batch.shown[i] > batch.rows.len() || (batch.shown[i] == batch.rows.len() && batch.kind
            != Kind::Tags) {
            assert(batch@.shown[i as int] == batch.shown@[i as int]);
            return false;
        }
        i = i + 1;
    }
    true
}

fn edits_fields(picker: &SyncPicker) -> (r: bool)
    ensures
        r == picker@.valid(),
{
    match &picker.step {
        SyncStep::Configure { url, branch, .. } => url.is_valid() && branch.is_valid(),
        _ => true,
    }
}

impl Modal {
    /// The dialog can be shown.
    pub fn is_valid(&self) -> (r: bool)
        ensures
            r == self.valid(),
        decreases self,
    {
        match self {
            Modal::Sync(p) => edits_fields(p),
            Modal::DeployTargets(p) => p.project.is_valid(),
            Modal::Batch(p) => lists_rows(p),
            Modal::Repository(p) => p.source_name.is_valid() && p.alias.is_valid()
                && p.search.is_valid() && p.local_name.is_valid(),
            Modal::Input(p) => p.input.is_valid(),
            Modal::Picker(p) => picks_rows(p),
            Modal::Message(m) => match &m.return_to {
                Some(modal) => modal.is_valid(),
                None => true,
            },
            _ => true,
        }
    }
}

impl Action {
    /// Every dialog that this action holds can be shown.
    pub fn is_sound(&self) -> (r: bool)
        ensures
            r == self.sound(),
        decreases self,
    {
        match self {
            Action::OpenModal(modal) => modal.is_valid(),
            Action::Deployment(inner) => inner.is_sound(),
            Action::SubmitInput(actions) => {
                let mut i: usize = 0;
                while i < actions.len()
                    invariant
                        i <= actions.len(),
                        *self == Action::SubmitInput(*actions),
                        forall|k: int| 0 <= k < i ==> (#[trigger] actions@[k]).sound(),
                    decreases actions.len() - i,
                {
                    assert(decreases_to!(*self => self->SubmitInput_0@[i as int]));
                    if !actions[i].is_sound() {
                        assert(!actions@[i as int].sound());
                        return false;
                    }
                    i = i + 1;
                }
                true
            },
            _ => true,
        }
    }
}

/// Every dialog that these actions hold can be shown.
pub fn are_sound(actions: &Vec<Action>) -> (r: bool)
    ensures
        r == all_sound(actions@),
{
    let mut i: usize = 0;
    while i < actions.len()
        invariant
            i <= actions.len(),
            forall|k: int| 0 <= k < i ==> (#[trigger] actions@[k]).sound(),
        decreases actions.len() - i,
    {
        if !actions[i].is_sound() {
            assert(!actions@[i as int].sound());
            return false;
        }
        i = i + 1;
    }
    true
}

} // verus!
