//! The selection state of the sidebar's note list: which position and which
//! item are selected in single-selection mode, and how that choice follows
//! changes of the underlying list. Items are identified by keys of the
//! caller's choosing; the list itself is handed in as the sequence of keys it
//! holds at the time of each call.
use vstd::prelude::*;

verus! {

/// The position that stands for "nothing selected".
pub const INVALID_LIST_POSITION: u32 = 0xffff_ffff;

/// Whether one item or many can be selected.
#[derive(Debug, Clone, Copy, PartialEq, Eq)]
pub enum SelectionMode {
    Single,
    Multi,
}

impl Default for SelectionMode {
    /// Single selection.
    fn default() -> (mode: SelectionMode)
        ensures
            mode == SelectionMode::Single,
    {
        SelectionMode::Single
    }
}

/// A range of positions whose selection state changed.
#[derive(Debug, Clone, Copy, PartialEq, Eq)]
pub struct ChangedRange {
    pub position: u32,
    pub n_items: u32,
}

/// What a selection change has to announce: a range whose selection state
/// changed, and whether the selected position and the selected item
/// changed.
#[derive(Debug, Clone, Copy, PartialEq, Eq)]
pub struct SelectionEvents {
    pub selection_changed: Option<ChangedRange>,
    pub notify_selected: bool,
    pub notify_selected_item: bool,
}

/// Events announcing nothing.
pub open spec fn no_events() -> SelectionEvents {
    SelectionEvents { selection_changed: None, notify_selected: false, notify_selected_item: false }
}

/// The state of a selection: the selected position (or
/// `INVALID_LIST_POSITION`), the selected item's key, and the mode.
#[derive(Debug, Clone, Copy, PartialEq, Eq)]
pub struct SelectionState {
    pub selected: u32,
    pub selected_item: Option<u64>,
    pub mode: SelectionMode,
}

/// The range to announce when the selected position moves from `old` to
/// `new`: the single position when one side is "nothing", else every
/// position between the two, both included.
pub open spec fn changed_range(old: u32, new: u32) -> ChangedRange {
    if old == INVALID_LIST_POSITION {
        ChangedRange { position: new, n_items: 1 }
    } else if new == INVALID_LIST_POSITION {
        ChangedRange { position: old, n_items: 1 }
    } else if new < old {
        ChangedRange { position: new, n_items: (old - new + 1) as u32 }
    } else {
        ChangedRange { position: old, n_items: (new - old + 1) as u32 }
    }
}

/// The range announced when the selected position moves from `old` to `new`.
pub fn compute_changed_range(old: u32, new: u32) -> (range: ChangedRange)
    requires
        old != new,
    ensures
        range == changed_range(old, new),
{
    if old == INVALID_LIST_POSITION {
        ChangedRange { position: new, n_items: 1 }
    } else if new == INVALID_LIST_POSITION {
        ChangedRange { position: old, n_items: 1 }
    } else if new < old {
        ChangedRange { position: new, n_items: old - new + 1 }
    } else {
        ChangedRange { position: old, n_items: new - old + 1 }
    }
}

/// Whether the selected position is "nothing" or a position of `items`
/// holding the selected item.
pub open spec fn consistent_with(state: SelectionState, items: Seq<u64>) -> bool {
    state.selected == INVALID_LIST_POSITION || (state.selected < items.len()
        && state.selected_item == Some(items[state.selected as int]))
}

/// How the selection follows a change of the list (see
/// `Selection::items_changed`): from state `before` to state `after`,
/// announcing the selected position when `notify` holds; `items` is the list
/// after `removed` items at `position` were replaced by `added` ones.
pub open spec fn items_changed_result(
    before: SelectionState,
    after: SelectionState,
    notify: bool,
    items: Seq<u64>,
    position: int,
    removed: int,
    added: int,
) -> bool {
    let old_selected = before.selected;
    let item = before.selected_item;
    if item is None || old_selected < position {
        after == before && !notify
    } else if old_selected != INVALID_LIST_POSITION && old_selected >= position + removed {
        &&& after == (SelectionState {
            selected: (old_selected - removed + added) as u32,
            ..before
        })
        &&& notify
    } else {
        let key = item->0;
        &&& after.selected_item == item
        &&& after.mode == before.mode
        &&& if forall|k: int| position <= k < position + added ==> items[k] != key {
            after.selected == INVALID_LIST_POSITION && notify
        } else {
            &&& position <= after.selected < position + added
            &&& items[after.selected as int] == key
            &&& forall|k: int| position <= k < after.selected ==> items[k] != key
            &&& notify == (after.selected != old_selected)
        }
    }
}

/// Whether `after` is `before` with its `removed` items at `position`
/// replaced by `added` new ones.
pub open spec fn is_splice(
    before: Seq<u64>,
    after: Seq<u64>,
    position: int,
    removed: int,
    added: int,
) -> bool {
    &&& 0 <= position
    &&& 0 <= removed
    &&& 0 <= added
    &&& position + removed <= before.len()
    &&& after.len() == before.len() - removed + added
    &&& forall|k: int| 0 <= k < position ==> after[k] == before[k]
    &&& forall|k: int| position + added <= k < after.len() ==> after[k] == before[k - added + removed]
}

/// Following a change of the list keeps the selected position pointing at
/// the selected item: when the selection agreed with the list before a
/// change, it agrees with the list after it.
pub proof fn lemma_items_changed_keeps_consistency(
    before: SelectionState,
    after: SelectionState,
    notify: bool,
    items_before: Seq<u64>,
    items_after: Seq<u64>,
    position: int,
    removed: int,
    added: int,
)
    requires
        consistent_with(before, items_before),
        is_splice(items_before, items_after, position, removed, added),
        items_after.len() <= u32::MAX,
        items_changed_result(before, after, notify, items_after, position, removed, added),
    ensures
        consistent_with(after, items_after),
{
    let s = before.selected;
    if before.selected_item is None || s < position {
        if s != INVALID_LIST_POSITION {
            assert(items_after[s as int] == items_before[s as int]);
        }
    } else if s != INVALID_LIST_POSITION && s >= position + removed {
        let t = s - removed + added;
        assert(items_after[t] == items_before[t - added + removed]);
    }
}

/// Selecting a position keeps the selection in agreement with the list.
pub proof fn lemma_set_selected_keeps_consistency(
    before: SelectionState,
    after: SelectionState,
    items: Seq<u64>,
    position: u32,
)
    requires
        consistent_with(before, items),
        items.len() <= u32::MAX,
        ({
            let valid = position < items.len();
            let new_selected = if valid {
                position
            } else {
                INVALID_LIST_POSITION
            };
            if before.selected == position || before.selected == new_selected {
                after == before
            } else {
                after == (SelectionState {
                    selected: new_selected,
                    selected_item: if valid {
                        Some(items[position as int])
                    } else {
                        None
                    },
                    ..before
                })
            }
        }),
    ensures
        consistent_with(after, items),
{
}

/// A change of the whole list to announce: `removed` items at `position`
/// were replaced by `added` ones.
#[derive(Debug, Clone, Copy, PartialEq, Eq)]
pub struct ItemsChange {
    pub position: u32,
    pub removed: u32,
    pub added: u32,
}

/// What handing a list to the selection has to announce: the selection
/// events, the change of the items, and whether the list itself changed.
#[derive(Debug, Clone, Copy, PartialEq, Eq)]
pub struct ModelChange {
    pub events: SelectionEvents,
    pub items_changed: Option<ItemsChange>,
    pub notify_model: bool,
}

/// The selection of the sidebar's list. Besides the selection state it
/// keeps the identity of the list it follows, if any, and that list's
/// number of items.
#[derive(Debug)]
pub struct Selection {
    state: SelectionState,
    model: Option<u64>,
    n_items: u32,
}

impl View for Selection {
    type V = SelectionState;

    closed spec fn view(&self) -> SelectionState {
        self.state
    }
}

impl Selection {
    /// The identity of the list the selection follows, if any.
    pub closed spec fn model_spec(&self) -> Option<u64> {
        self.model
    }

    /// The number of items of the list the selection follows.
    pub closed spec fn n_items_spec(&self) -> u32 {
        self.n_items
    }

    /// A selection with nothing selected, in single mode, following no
    /// list.
    pub fn new() -> (selection: Selection)
        ensures
            selection@ == (SelectionState {
                selected: INVALID_LIST_POSITION,
                selected_item: None,
                mode: SelectionMode::Single,
            }),
            selection.model_spec() is None,
            selection.n_items_spec() == 0,
    {
        Selection {
            state: SelectionState {
                selected: INVALID_LIST_POSITION,
                selected_item: None,
                mode: SelectionMode::Single,
            },
            model: None,
            n_items: 0,
        }
    }

    /// The identity of the list the selection follows, if any.
    pub fn model(&self) -> (model: Option<u64>)
        ensures
            model == self.model_spec(),
    {
        self.model
    }

    /// The number of items of the list the selection follows.
    pub fn n_items(&self) -> (n: u32)
        ensures
            n == self.n_items_spec(),
    {
        self.n_items
    }

    /// The selected position, or `INVALID_LIST_POSITION`.
    pub fn selected(&self) -> (selected: u32)
        ensures
            selected == self@.selected,
    {
        self.state.selected
    }

    /// The selected item's key, if any.
    pub fn selected_item(&self) -> (item: Option<u64>)
        ensures
            item == self@.selected_item,
    {
        self.state.selected_item
    }

    /// The selection mode.
    pub fn selection_mode(&self) -> (mode: SelectionMode)
        ensures
            mode == self@.mode,
    {
        self.state.mode
    }

    /// In single mode, whether `position` is the selected one.
    pub fn is_selected(&self, position: u32) -> (selected: bool)
        ensures
            selected == (self@.selected == position),
    {
        self.state.selected == position
    }

    /// In single mode, the positions selected: the selected one, or none.
    pub fn selected_position(&self) -> (position: Option<u32>)
        ensures
            self@.selected == INVALID_LIST_POSITION ==> position is None,
            self@.selected != INVALID_LIST_POSITION ==> position == Some(self@.selected),
    {
        if self.state.selected == INVALID_LIST_POSITION {
            None
        } else {
            Some(self.state.selected)
        }
    }

    /// Switches the mode. In multi mode the positions selected are those of
    /// a separate multi-selection, whose lowest and highest selected
    /// positions are `multi_bounds` (`None` when it selects nothing). The
    /// result lists the ranges to announce: the single selected position,
    /// then the span of the multi-selection.
    pub fn set_selection_mode(&mut self, mode: SelectionMode, multi_bounds: Option<(u32, u32)>) -> (ranges: (
        Option<ChangedRange>,
        Option<ChangedRange>,
    ))
        requires
            multi_bounds matches Some((min, max)) ==> max < INVALID_LIST_POSITION,
        ensures
            final(self)@ == (SelectionState { mode, ..old(self)@ }),
            final(self).model_spec() == old(self).model_spec(),
            final(self).n_items_spec() == old(self).n_items_spec(),
            old(self)@.selected == INVALID_LIST_POSITION ==> ranges.0 is None,
            old(self)@.selected != INVALID_LIST_POSITION ==> ranges.0 == Some(
                ChangedRange { position: old(self)@.selected, n_items: 1 },
            ),
            match multi_bounds {
                Some((min, max)) => if min <= max {
                    ranges.1 == Some(ChangedRange { position: min, n_items: (max - min + 1) as u32 })
                } else {
                    ranges.1 is None
                },
                None => ranges.1 is None,
            },
    {
        self.state.mode = mode;
        let single = if self.state.selected != INVALID_LIST_POSITION {
            Some(ChangedRange { position: self.state.selected, n_items: 1 })
        } else {
            None
        };
        let multi = match multi_bounds {
            Some((min, max)) => {
                if min <= max {
                    Some(ChangedRange { position: min, n_items: max - min + 1 })
                } else {
                    None
                }
            },
            None => None,
        };
        (single, multi)
    }

    /// Selects `position` of the list holding `items`. A position past the
    /// end selects nothing. When the selected position stays as it was,
    /// nothing changes and nothing is announced; otherwise the position and
    /// the item are updated and the range between the old and the new
    /// position is announced.
    pub fn set_selected(&mut self, items: &Vec<u64>, position: u32) -> (events: SelectionEvents)
        requires
            items@.len() <= u32::MAX,
        ensures
            final(self).model_spec() == old(self).model_spec(),
            final(self).n_items_spec() == old(self).n_items_spec(),
            ({
                let old_selected = old(self)@.selected;
                let valid = position < items@.len();
                let new_selected = if valid {
                    position
                } else {
                    INVALID_LIST_POSITION
                };
                if old_selected == position || old_selected == new_selected {
                    final(self)@ == old(self)@ && events == no_events()
                } else {
                    &&& final(self)@ == (SelectionState {
                        selected: new_selected,
                        selected_item: if valid {
                            Some(items@[position as int])
                        } else {
                            None
                        },
                        ..old(self)@
                    })
                    &&& events == (SelectionEvents {
                        selection_changed: Some(changed_range(old_selected, new_selected)),
                        notify_selected: true,
                        notify_selected_item: true,
                    })
                }
            }),
    {
        let old_selected = self.state.selected;
        if old_selected == position {
            return SelectionEvents {
                selection_changed: None,
                notify_selected: false,
                notify_selected_item: false,
            };
        }
        let selected_item = if (position as usize) < items.len() {
            Some(items[position as usize])
        } else {
            None
        };
        let selected = if selected_item.is_none() {
            INVALID_LIST_POSITION
        } else {
            position
        };
        if old_selected == selected {
            return SelectionEvents {
                selection_changed: None,
                notify_selected: false,
                notify_selected_item: false,
            };
        }
        self.state.selected = selected;
        self.state.selected_item = selected_item;
        SelectionEvents {
            selection_changed: Some(compute_changed_range(old_selected, selected)),
            notify_selected: true,
            notify_selected_item: true,
        }
    }

    /// Selects `item` in the list holding `items`: its first position when
    /// the list holds it, else nothing, the item being kept as the selected
    /// one either way. Nothing changes when `item` already is the selected
    /// item.
    pub fn set_selected_item(&mut self, items: &Vec<u64>, item: Option<u64>) -> (events:
        SelectionEvents)
        requires
            items@.len() <= u32::MAX,
        ensures
            final(self).model_spec() == old(self).model_spec(),
            final(self).n_items_spec() == old(self).n_items_spec(),
            old(self)@.selected_item == item ==> final(self)@ == old(self)@ && events
                == no_events(),
            old(self)@.selected_item != item ==> {
                &&& final(self)@.selected_item == item
                &&& final(self)@.mode == old(self)@.mode
                &&& events.notify_selected_item
                &&& events.notify_selected == (final(self)@.selected != old(self)@.selected)
                &&& events.notify_selected ==> events.selection_changed == Some(
                    changed_range(old(self)@.selected, final(self)@.selected),
                )
                &&& !events.notify_selected ==> events.selection_changed is None
                &&& match item {
                    None => final(self)@.selected == INVALID_LIST_POSITION,
                    Some(key) => if items@.contains(key) {
                        &&& final(self)@.selected < items@.len()
                        &&& items@[final(self)@.selected as int] == key
                        &&& forall|k: int|
                            0 <= k < final(self)@.selected ==> items@[k] != key
                    } else {
                        final(self)@.selected == INVALID_LIST_POSITION
                    },
                }
            },
    {
        if self.state.selected_item == item {
            return SelectionEvents {
                selection_changed: None,
                notify_selected: false,
                notify_selected_item: false,
            };
        }
        let old_selected = self.state.selected;
        let mut selected = INVALID_LIST_POSITION;
        if let Some(key) = item {
            let n = items.len();
            let mut i: usize = 0;
            while i < n
                invariant_except_break
                    selected == INVALID_LIST_POSITION,
                invariant
                    n == items@.len(),
                    n <= u32::MAX,
                    i <= n,
                    forall|k: int| 0 <= k < i ==> items@[k] != key,
                ensures
                    selected == INVALID_LIST_POSITION ==> forall|k: int|
                        0 <= k < n ==> items@[k] != key,
                    selected != INVALID_LIST_POSITION ==> selected < n && items@[selected as int]
                        == key && forall|k: int| 0 <= k < selected ==> items@[k] != key,
                decreases n - i,
            {
                if items[i] == key {
                    selected = i as u32;
                    break;
                }
                i = i + 1;
            }
        }
        self.state.selected_item = item;
        if old_selected != selected {
            self.state.selected = selected;
            SelectionEvents {
                selection_changed: Some(compute_changed_range(old_selected, selected)),
                notify_selected: true,
                notify_selected_item: true,
            }
        } else {
            SelectionEvents {
                selection_changed: None,
                notify_selected: false,
                notify_selected_item: true,
            }
        }
    }

    /// Follows a change of the list: `removed` items at `position` were
    /// replaced by `added` items, and `items` is the list afterwards. A
    /// selection before the change stays; one after it shifts by the change
    /// in length; otherwise the selected item is looked for among the added
    /// items, and nothing is selected when it is not among them. The result
    /// tells whether the selected position has to be announced.
    pub fn items_changed(&mut self, items: &Vec<u64>, position: u32, removed: u32, added: u32) -> (notify_selected: bool)
        requires
            items@.len() <= u32::MAX,
            position + added <= items@.len(),
            items@.len() - added + removed <= u32::MAX,
            old(self)@.selected == INVALID_LIST_POSITION || old(self)@.selected < items@.len()
                - added + removed,
        ensures
            final(self).model_spec() == old(self).model_spec(),
            final(self).n_items_spec() == items@.len(),
            items_changed_result(
                old(self)@,
                final(self)@,
                notify_selected,
                items@,
                position as int,
                removed as int,
                added as int,
            ),
    {
        self.n_items = items.len() as u32;
        let selected = self.state.selected;
        match self.state.selected_item {
            None => false,
            Some(key) => {
                if selected < position {
                    false
                } else if selected != INVALID_LIST_POSITION && selected >= position + removed {
                    self.state.selected = selected - removed + added;
                    true
                } else {
                    let mut i: u32 = 0;
                    let mut notify = false;
                    loop
                        invariant_except_break
                            i <= added,
                            self@ == old(self)@,
                            !notify,
                        invariant
                            items@.len() <= u32::MAX,
                            self.n_items == items@.len(),
                            self.model == old(self).model,
                            position + added <= items@.len(),
                            self@.selected_item == Some(key),
                            self@.mode == old(self)@.mode,
                            forall|k: int| position <= k < position + i ==> items@[k] != key,
                            old(self)@.selected == selected,
                        ensures
                            self@.selected_item == Some(key),
                            self@.mode == old(self)@.mode,
                            (forall|k: int| position <= k < position + added ==> items@[k] != key) ==> (
                            self@.selected == INVALID_LIST_POSITION && notify),
                            !(forall|k: int| position <= k < position + added ==> items@[k] != key) ==> {
                                &&& position <= self@.selected < position + added
                                &&& items@[self@.selected as int] == key
                                &&& forall|k: int|
                                    position <= k < self@.selected ==> items@[k] != key
                                &&& notify == (self@.selected != selected)
                            },
                        decreases added - i,
                    {
                        if i == added {
                            self.state.selected = INVALID_LIST_POSITION;
                            notify = true;
                            break;
                        }
                        if items[(position + i) as usize] == key {
                            if selected != position + i {
                                self.state.selected = position + i;
                                notify = true;
                            }
                            break;
                        }
                        i = i + 1;
                    }
                    notify
                }
            },
        }
    }

    /// Makes the selection follow the list `model` (its identity, or
    /// `None` for no list), whose items are `items` (ignored without a
    /// list). Handing it the list it already follows does nothing. Otherwise
    /// the whole list counts as changed, from the old number of items to the
    /// new one: with a new list the selected item is looked for in it;
    /// without one, nothing stays selected.
    pub fn set_model(&mut self, model: Option<u64>, items: &Vec<u64>) -> (change: ModelChange)
        requires
            old(self)@.selected == INVALID_LIST_POSITION || old(self)@.selected < old(
                self,
            ).n_items_spec(),
            items@.len() <= u32::MAX,
        ensures
            model == old(self).model_spec() ==> {
                &&& final(self)@ == old(self)@
                &&& final(self).model_spec() == old(self).model_spec()
                &&& final(self).n_items_spec() == old(self).n_items_spec()
                &&& change == (ModelChange {
                    events: no_events(),
                    items_changed: None,
                    notify_model: false,
                })
            },
            model != old(self).model_spec() ==> {
                &&& final(self).model_spec() == model
                &&& change.notify_model
                &&& change.events.selection_changed is None
                &&& final(self)@.mode == old(self)@.mode
                &&& final(self).n_items_spec() == (if model is Some {
                    items@.len()
                } else {
                    0
                })
                &&& change.items_changed == Some(
                    ItemsChange {
                        position: 0,
                        removed: old(self).n_items_spec(),
                        added: final(self).n_items_spec(),
                    },
                )
                &&& match model {
                    None => {
                        &&& final(self)@.selected == INVALID_LIST_POSITION
                        &&& final(self)@.selected_item is None
                        &&& change.events.notify_selected == (old(self)@.selected
                            != INVALID_LIST_POSITION)
                        &&& change.events.notify_selected_item == (old(self)@.selected_item is Some)
                    },
                    Some(_) => {
                        &&& !change.events.notify_selected_item
                        &&& final(self)@.selected_item == old(self)@.selected_item
                        &&& match old(self)@.selected_item {
                            None => final(self)@ == old(self)@ && !change.events.notify_selected,
                            Some(key) => if items@.contains(key) {
                                &&& final(self)@.selected < items@.len()
                                &&& items@[final(self)@.selected as int] == key
                                &&& forall|k: int|
                                    0 <= k < final(self)@.selected ==> items@[k] != key
                                &&& change.events.notify_selected == (final(self)@.selected
                                    != old(self)@.selected)
                            } else {
                                final(self)@.selected == INVALID_LIST_POSITION
                                    && change.events.notify_selected
                            },
                        }
                    },
                }
            },
    {
        if model == self.model {
            return ModelChange {
                events: SelectionEvents {
                    selection_changed: None,
                    notify_selected: false,
                    notify_selected_item: false,
                },
                items_changed: None,
                notify_model: false,
            };
        }
        let n_items_before = self.n_items;
        let events = match model {
            Some(_) => {
                let n = items.len() as u32;
                let notify = self.items_changed(items, 0, n_items_before, n);
                proof {
                    if let Some(key) = old(self)@.selected_item {
                        if items@.contains(key) {
                            let w = choose|w: int| 0 <= w < items@.len() && items@[w] == key;
                            assert(items@[w] == key);
                        }
                    }
                }
                SelectionEvents {
                    selection_changed: None,
                    notify_selected: notify,
                    notify_selected_item: false,
                }
            },
            None => {
                let notify_selected = self.state.selected != INVALID_LIST_POSITION;
                let notify_selected_item = self.state.selected_item.is_some();
                self.state.selected = INVALID_LIST_POSITION;
                self.state.selected_item = None;
                self.n_items = 0;
                SelectionEvents { selection_changed: None, notify_selected, notify_selected_item }
            },
        };
        self.model = model;
        ModelChange {
            events,
            items_changed: Some(ItemsChange { position: 0, removed: n_items_before, added: self.n_items }),
            notify_model: true,
        }
    }
}

} // verus!
