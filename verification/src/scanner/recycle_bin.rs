use vstd::prelude::*;

use crate::models::{file_item, ItemStatus, JunkCategory, JunkItem};

verus! {

/// The recycle bin as one item holding `count` files of `size` bytes in all, with an
/// empty path (it is cleaned as a whole), or no item when it is empty.
pub fn scan_recycle_bin(count: usize, size: u64) -> (r: Vec<JunkItem>)
    ensures
        count == 0 ==> r@.len() == 0,
        count != 0 ==> r@.len() == 1 && r@[0] == (JunkItem {
            is_recycle_bin: true,
            ..file_item(JunkCategory::RecycleBin, r@[0].path, size, ItemStatus::Normal)
        }) && r@[0].path@ == Seq::<char>::empty(),
{
    if count == 0 {
        return Vec::new();
    }
    let mut item = JunkItem::file(JunkCategory::RecycleBin, String::new(), size, ItemStatus::Normal);
    item.is_recycle_bin = true;
    let mut v: Vec<JunkItem> = Vec::new();
    v.push(item);
    v
}

} // verus!
