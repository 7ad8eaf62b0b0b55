use vstd::prelude::*;

verus! {

/// Whether the static item tables hold an item with entry `id`.
pub uninterp spec fn item_known(id: u32) -> bool;

/// The entry of the first item of the static tables whose name contains
/// `needle`, compared without regard to ASCII case.
pub uninterp spec fn item_entry_named(needle: Seq<char>) -> Option<u32>;

/// Whether the world's maps include one with identifier `id`.
pub uninterp spec fn map_known(id: u32) -> bool;

/// Relies on `wow_items::vanilla::lookup_item`, which finds an item by its
/// entry and holds none below 17 or above 25818.
#[verifier::external_body]
pub(crate) fn lookup_item_exists(id: u32) -> (r: bool)
    ensures
        r == item_known(id),
        r ==> 17 <= id <= 25818,
{
    wow_items::vanilla::lookup_item(id).is_some()
}

/// Relies on `wow_items::vanilla::lookup_item_by_name` for the first item
/// whose name contains `needle`, and on the entry it reports.
#[verifier::external_body]
pub(crate) fn lookup_item_entry_by_name(needle: &str) -> (r: Option<u32>)
    ensures
        r == item_entry_named(needle@),
{
    wow_items::vanilla::lookup_item_by_name(needle).map(|item| item.entry())
}

/// Relies on the `TryFrom<u32>` conversion of `wow_world_base::vanilla::Map`,
/// which accepts exactly the identifiers of the game's maps.
#[verifier::external_body]
pub(crate) fn map_exists(id: u32) -> (r: bool)
    ensures
        r == map_known(id),
{
    wow_world_base::vanilla::Map::try_from(id).is_ok()
}

} // verus!
