//! The workbench's logic: each tab's state, the events it reacts to, and the
//! work it asks for.
pub mod verify;
pub mod sutra;
pub mod sandhi;
pub mod paradigm;
pub mod conjugation;

use vstd::prelude::*;

verus! {

/// The tabs of the workbench.
#[derive(PartialEq, Eq, Structural, Clone, Copy)]
pub enum Tab {
    Paradigm,
    Conjugation,
    Sandhi,
    Sutras,
    Verify,
}

/// What switching tabs asks to load.
pub enum Load {
    Nothing,
    Sutras,
    Checks,
}

/// Switches to a tab; the sūtra index loads on the first visit to its tab,
/// the checks on a visit while they are neither loaded nor loading.
pub fn switch_tab(active: &mut Tab, sutras: &mut sutra::State, checks: &mut verify::State, tab: Tab) -> (r: Load)
    ensures
        *final(active) == tab,
        final(sutras).all_sutras == old(sutras).all_sutras,
        final(sutras).filter == old(sutras).filter,
        final(checks).reports == old(checks).reports,
        final(checks).loaded == old(checks).loaded,
        tab == Tab::Sutras && !old(sutras).loaded ==> (r is Sutras && final(sutras).loaded
            && final(checks).loading == old(checks).loading),
        tab == Tab::Verify && !old(checks).loaded && !old(checks).loading ==> (r is Checks
            && final(checks).loading && final(sutras).loaded == old(sutras).loaded),
        !(tab == Tab::Sutras && !old(sutras).loaded) && !(tab == Tab::Verify && !old(checks).loaded
            && !old(checks).loading) ==> (r is Nothing && final(sutras).loaded == old(sutras).loaded
            && final(checks).loading == old(checks).loading),
{
    *active = tab;
    match tab {
        Tab::Sutras => {
            if !sutras.loaded {
                sutras.loaded = true;
                return Load::Sutras;
            }
            Load::Nothing
        },
        Tab::Verify => {
            if !checks.loaded && !checks.loading {
                checks.loading = true;
                return Load::Checks;
            }
            Load::Nothing
        },
        _ => Load::Nothing,
    }
}

} // verus!
