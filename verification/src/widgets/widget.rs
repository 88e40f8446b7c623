//! What a widget of the bar does.

use vstd::prelude::*;

use crate::state::ZellijState;

verus! {

/// A widget of the bar.
pub trait Widget {
    /// The text that the widget shows.
    fn process(&self, name: &str, state: &ZellijState) -> String;

    /// The tabs to switch to, one after the other, where the column `pos` of the widget was
    /// clicked on. Tabs are counted from 1.
    fn process_click(&self, name: &str, state: &ZellijState, pos: usize) -> Vec<u32>;

    /// Called on timer tick to schedule async work (e.g. command re-execution) without invalidating
    /// widget caches.
    fn tick(&self, _state: &ZellijState) {
    }
}

} // verus!
