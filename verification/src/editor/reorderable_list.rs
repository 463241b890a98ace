//! Lists whose items the user can move and remove.

use vstd::prelude::*;

verus! {

/// Where an item stands in its list.
#[derive(Clone, Copy, PartialEq, Eq, Debug, Structural)]
pub enum ItemPosition {
    Only,
    First,
    Middle,
    Last,
}

/// What the user asks to be done with an item.
#[derive(Clone, Copy, PartialEq, Eq, Debug, Structural)]
pub enum ItemAction {
    MoveUp,
    MoveDown,
    Remove,
}

/// Where the item at `idx` stands in a list of `size` items.
pub fn item_position(idx: usize, size: usize) -> (position: ItemPosition)
    requires
        size > 0,
    ensures
        position == if size == 1 {
            ItemPosition::Only
        } else if idx == 0 {
            ItemPosition::First
        } else if idx == size - 1 {
            ItemPosition::Last
        } else {
            ItemPosition::Middle
        },
{
    if size == 1 {
        ItemPosition::Only
    } else if idx == 0 {
        ItemPosition::First
    } else if idx == size - 1 {
        ItemPosition::Last
    } else {
        ItemPosition::Middle
    }
}

/// The list after `movement` is done with the item at `idx`.
pub open spec fn moved<T>(list: Seq<T>, idx: int, movement: ItemAction) -> Seq<T> {
    match movement {
        ItemAction::MoveUp => if idx == 0 {
            list
        } else {
            list.remove(idx).insert(idx - 1, list[idx])
        },
        ItemAction::MoveDown => list.remove(idx).insert(idx + 1, list[idx]),
        ItemAction::Remove => list.remove(idx),
    }
}

/// Moves the item at `idx` one place up or down, or removes it. Tells
/// whether the list has changed: moving the first item up changes nothing.
pub fn apply_movement<T>(idx: usize, movement: ItemAction, list: &mut Vec<T>) -> (modified: bool)
    requires
        !(idx == 0 && movement is MoveUp) ==> idx < old(list).len(),
        movement is MoveDown ==> idx + 1 < old(list).len(),
    ensures
        final(list)@ == moved(old(list)@, idx as int, movement),
        modified == !(idx == 0 && movement is MoveUp),
{
    if idx == 0 {
        if let ItemAction::MoveUp = movement {
            return false;
        }
    }
    let item = list.remove(idx);
    let target = match movement {
        ItemAction::MoveUp => idx - 1,
        ItemAction::MoveDown => idx + 1,
        ItemAction::Remove => {
            return true;
        },
    };
    list.insert(target, item);
    true
}

} // verus!
