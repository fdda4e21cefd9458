//! Which encoder to use: the first that can be activated, hardware first.

use vstd::prelude::*;

verus! {

/// Where the search stands. The hardware encoders are gone through before the software ones.
#[derive(Debug, Clone, Copy, PartialEq, Eq)]
pub enum SearchPhase {
    /// List the hardware encoders, or the software ones.
    List { hardware: bool },
    /// Take entry `index` of a list of `count`; `found` tells whether an earlier one is active.
    Entry { hardware: bool, count: u32, index: u32, found: bool },
    /// The encoder that was activated is the one to use.
    Found { hardware: bool },
    /// No encoder is available on this machine.
    NotFound,
}

/// What to do next.
#[derive(Debug, Clone, Copy, PartialEq, Eq)]
pub enum SearchAction {
    List { hardware: bool },
    /// Try to activate an entry.
    Activate { index: u32 },
    /// Let go of an entry that is not needed.
    Release { index: u32 },
    Use { hardware: bool },
    GiveUp,
}

/// The phase before entry `index`, which may be past the last one.
pub open spec fn at_entry(hardware: bool, count: u32, index: u32, found: bool) -> SearchPhase {
    if index < count {
        SearchPhase::Entry { hardware, count, index, found }
    } else if found {
        SearchPhase::Found { hardware }
    } else if hardware {
        SearchPhase::List { hardware: false }
    } else {
        SearchPhase::NotFound
    }
}

fn go_to_entry(hardware: bool, count: u32, index: u32, found: bool) -> (phase: SearchPhase)
    ensures
        phase == at_entry(hardware, count, index, found),
{
    if index < count {
        SearchPhase::Entry { hardware, count, index, found }
    } else if found {
        SearchPhase::Found { hardware }
    } else if hardware {
        SearchPhase::List { hardware: false }
    } else {
        SearchPhase::NotFound
    }
}

/// How the search begins.
pub fn find_encoder() -> (phase: SearchPhase)
    ensures
        phase == (SearchPhase::List { hardware: true }),
{
    SearchPhase::List { hardware: true }
}

/// What to do in a phase. An entry is only activated when no earlier one is active; the others
/// are released.
pub fn search_action(phase: SearchPhase) -> (action: SearchAction)
    ensures
        action == (match phase {
            SearchPhase::List { hardware } => SearchAction::List { hardware },
            SearchPhase::Entry { index, found, .. } => if found {
                SearchAction::Release { index }
            } else {
                SearchAction::Activate { index }
            },
            SearchPhase::Found { hardware } => SearchAction::Use { hardware },
            SearchPhase::NotFound => SearchAction::GiveUp,
        }),
        action == action_in(phase),
{
    match phase {
        SearchPhase::List { hardware } => SearchAction::List { hardware },
        SearchPhase::Entry { index, found, .. } => if found {
            SearchAction::Release { index }
        } else {
            SearchAction::Activate { index }
        },
        SearchPhase::Found { hardware } => SearchAction::Use { hardware },
        SearchPhase::NotFound => SearchAction::GiveUp,
    }
}

/// Goes on with a list of `count` entries.
pub fn listed(phase: SearchPhase, count: u32) -> (next: SearchPhase)
    requires
        phase is List,
    ensures
        next == at_entry(phase->List_hardware, count, 0, false),
{
    match phase {
        SearchPhase::List { hardware } => go_to_entry(hardware, count, 0, false),
        _ => phase,
    }
}

/// Goes on to the entry after this one. `activated` tells whether this one is active now; an
/// entry that is empty, cannot be activated or was released is not.
pub fn entry_done(phase: SearchPhase, activated: bool) -> (next: SearchPhase)
    requires
        phase is Entry,
        phase->index < phase->count,
    ensures
        next == after_entry(phase, activated),
{
    match phase {
        SearchPhase::Entry { hardware, count, index, found } => go_to_entry(
            hardware,
            count,
            index + 1,
            found || activated,
        ),
        _ => phase,
    }
}

pub open spec fn after_entry(phase: SearchPhase, activated: bool) -> SearchPhase {
    at_entry(
        phase->Entry_hardware,
        phase->count,
        (phase->index + 1) as u32,
        phase->found || activated,
    )
}

/// The phase after the entries from `index` on, where entry `i` can be activated if `works[i]`.
/// Entries after the first that works are not tried.
pub open spec fn after_list(hardware: bool, works: Seq<bool>, index: int, found: bool) -> SearchPhase
    decreases works.len() - index,
{
    if index >= works.len() {
        at_entry(hardware, works.len() as u32, works.len() as u32, found)
    } else {
        after_list(hardware, works, index + 1, found || works[index])
    }
}

/// The steps of the search follow [`after_list`]: what is left after an entry is what was left
/// before it.
pub proof fn law_entries_in_order(hardware: bool, works: Seq<bool>, index: u32, found: bool)
    requires
        index < works.len() <= u32::MAX,
    ensures
        at_entry(hardware, works.len() as u32, index, found) == (SearchPhase::Entry {
            hardware,
            count: works.len() as u32,
            index,
            found,
        }),
        after_entry(
            at_entry(hardware, works.len() as u32, index, found),
            !found && works[index as int],
        ) == at_entry(
            hardware,
            works.len() as u32,
            (index + 1) as u32,
            found || works[index as int],
        ),
        after_list(hardware, works, index as int, found) == after_list(
            hardware,
            works,
            index + 1,
            found || works[index as int],
        ),
{
}

/// What to do in a phase.
pub open spec fn action_in(phase: SearchPhase) -> SearchAction {
    match phase {
        SearchPhase::List { hardware } => SearchAction::List { hardware },
        SearchPhase::Entry { index, found, .. } => if found {
            SearchAction::Release { index }
        } else {
            SearchAction::Activate { index }
        },
        SearchPhase::Found { hardware } => SearchAction::Use { hardware },
        SearchPhase::NotFound => SearchAction::GiveUp,
    }
}

/// The phase after the first `n` entries of a list, of which entry `i` can be activated if
/// `works[i]`; those that are released are not.
pub open spec fn searched(hardware: bool, works: Seq<bool>, n: int) -> SearchPhase
    decreases n,
{
    if n <= 0 {
        at_entry(hardware, works.len() as u32, 0, false)
    } else {
        let before = searched(hardware, works, n - 1);
        after_entry(before, action_in(before) is Activate && works[n - 1])
    }
}

/// Every entry of a list is dealt with, one after the other: it is activated, as long as none
/// before it worked, and released otherwise. So the first that works is the one that is active.
pub proof fn law_every_entry_is_dealt_with(hardware: bool, works: Seq<bool>, n: int)
    requires
        0 <= n < works.len() <= u32::MAX,
    ensures
        action_in(searched(hardware, works, n)) == (if exists|i: int|
            0 <= i < n && #[trigger] works[i] {
            SearchAction::Release { index: n as u32 }
        } else {
            SearchAction::Activate { index: n as u32 }
        }),
{
    lemma_searched(hardware, works, n);
}

/// Once every entry of a list was dealt with, the encoder that is active is used. With none, the
/// software encoders are listed after the hardware ones, and nothing after those. The search begins
/// with the hardware ones.
pub proof fn law_search_goes_on(hardware: bool, works: Seq<bool>)
    requires
        works.len() <= u32::MAX,
    ensures
        action_in(searched(hardware, works, works.len() as int)) == (if exists|i: int|
            0 <= i < works.len() && #[trigger] works[i] {
            SearchAction::Use { hardware }
        } else if hardware {
            SearchAction::List { hardware: false }
        } else {
            SearchAction::GiveUp
        }),
{
    lemma_searched(hardware, works, works.len() as int);
}

proof fn lemma_searched(hardware: bool, works: Seq<bool>, n: int)
    requires
        0 <= n <= works.len() <= u32::MAX,
    ensures
        searched(hardware, works, n) == at_entry(
            hardware,
            works.len() as u32,
            n as u32,
            exists|i: int| 0 <= i < n && #[trigger] works[i],
        ),
    decreases n,
{
    if n > 0 {
        lemma_searched(hardware, works, n - 1);
        let earlier = exists|i: int| 0 <= i < n - 1 && #[trigger] works[i];
        let now = exists|i: int| 0 <= i < n && #[trigger] works[i];
        if now && !works[n - 1] {
            let i = choose|i: int| 0 <= i < n && #[trigger] works[i];
            assert(i < n - 1);
        }
        assert(now == (earlier || works[n - 1]));
    }
}

/// A list with an encoder that works ends the search there; the hardware list without one is
/// followed by the software list, and that one without one by nothing.
pub proof fn law_first_that_works(hardware: bool, works: Seq<bool>)
    requires
        works.len() <= u32::MAX,
    ensures
        after_list(hardware, works, 0, false) == (if works.contains(true) {
            SearchPhase::Found { hardware }
        } else if hardware {
            SearchPhase::List { hardware: false }
        } else {
            SearchPhase::NotFound
        }),
{
    lemma_after_list(hardware, works, 0, false);
    if exists|i: int| 0 <= i < works.len() && #[trigger] works[i] {
        let i = choose|i: int| 0 <= i < works.len() && #[trigger] works[i];
        assert(works[i] == true);
    }
    if works.contains(true) {
        let i = choose|i: int| 0 <= i < works.len() && works[i] == true;
        assert(works[i]);
    }
}

proof fn lemma_after_list(hardware: bool, works: Seq<bool>, index: int, found: bool)
    requires
        0 <= index <= works.len() <= u32::MAX,
    ensures
        after_list(hardware, works, index, found) == at_entry(
            hardware,
            works.len() as u32,
            works.len() as u32,
            found || exists|i: int| index <= i < works.len() && #[trigger] works[i],
        ),
    decreases works.len() - index,
{
    if index < works.len() {
        lemma_after_list(hardware, works, index + 1, found || works[index]);
        let later = exists|i: int| index + 1 <= i < works.len() && #[trigger] works[i];
        let now = exists|i: int| index <= i < works.len() && #[trigger] works[i];
        if now && !works[index] {
            let i = choose|i: int| index <= i < works.len() && #[trigger] works[i];
            assert(index + 1 <= i);
        }
        assert(now == (works[index] || later));
    }
}

} // verus!
