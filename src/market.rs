//! Paying for tiles: buying offers from the selection and upgrading homes.
use vstd::prelude::*;

use crate::board::{resource_index, HexBoard, ResourceAmount, ResourceType};
use crate::config::{spec_tile_cost, tile_cost, NUMBER_OF_TILE_COSTS};
use crate::error::Error;
use crate::tile::{GetTileInfo, Tile, TileType};

verus! {

/// The counters can pay `cost`.
pub open spec fn affordable(res: Seq<u8>, cost: ResourceAmount) -> bool {
    res[resource_index(cost.resource_type)] >= cost.amount
}

/// The counters after paying `cost`.
pub open spec fn paid(res: Seq<u8>, cost: ResourceAmount) -> Seq<u8> {
    res.update(
        resource_index(cost.resource_type),
        (res[resource_index(cost.resource_type)] - cost.amount) as u8,
    )
}

/// The offer at `index` of the selection exists in the offer table.
pub open spec fn offer_in_range(sel: Seq<u8>, index: int) -> bool {
    0 <= index < sel.len() && sel[index] < NUMBER_OF_TILE_COSTS
}

/// The offer at `index` of the selection can be bought with `res`.
pub open spec fn can_buy(sel: Seq<u8>, res: Seq<u8>, index: int) -> bool {
    offer_in_range(sel, index) && affordable(res, spec_tile_cost(sel[index] as int).cost)
}

/// Wood and stone an upgrade from `level` costs.
pub open spec fn upgrade_material(level: int) -> int {
    2 * (level + 1)
}

/// Gold an upgrade from `level` costs.
pub open spec fn upgrade_gold(level: int) -> int {
    2 * level
}

/// The counters can pay the upgrade of a home at `level`.
pub open spec fn can_upgrade(res: Seq<u8>, level: int) -> bool {
    &&& res[4] >= upgrade_material(level)
    &&& res[5] >= upgrade_material(level)
    &&& res[6] >= upgrade_gold(level)
}

/// The counters after paying the upgrade of a home at `level`.
pub open spec fn upgrade_paid(res: Seq<u8>, level: int) -> Seq<u8> {
    res.update(4, (res[4] - upgrade_material(level)) as u8).update(
        5,
        (res[5] - upgrade_material(level)) as u8,
    ).update(6, (res[6] - upgrade_gold(level)) as u8)
}

/// Pays `resource_cost` from the board, or fails with `NotEnoughResources` and changes
/// nothing.
pub fn spend_resource(resource_cost: &ResourceAmount, hex_board: &mut HexBoard) -> (r: Result<
    (),
    Error,
>)
    ensures
        r is Ok == affordable(old(hex_board).resources@, *resource_cost),
        r is Ok ==> final(hex_board).resources@ == paid(old(hex_board).resources@, *resource_cost),
        r is Err ==> r == Err::<(), Error>(Error::NotEnoughResources)
            && *final(hex_board) == *old(hex_board),
        final(hex_board).hex_grid@ == old(hex_board).hex_grid@,
        final(hex_board).matchmaking_state == old(hex_board).matchmaking_state,
{
    let i = resource_cost.resource_type.index();
    match hex_board.resources[i].checked_sub(resource_cost.amount) {
        Some(v) => {
            hex_board.resources[i] = v;
            Ok(())
        },
        None => Err(Error::NotEnoughResources),
    }
}

/// Buys the offer at `index_to_buy`: removes it from the selection, pays its cost and returns
/// its tile. Fails, changing nothing, with `BuyIndexOutOfBounds` for an index outside the
/// selection or an offer outside the table, and with `NotEnoughResources`.
pub fn buy_from_selection(
    selection: &mut Vec<u8>,
    hex_board: &mut HexBoard,
    index_to_buy: usize,
) -> (r: Result<Tile, Error>)
    ensures
        r is Ok == can_buy(old(selection)@, old(hex_board).resources@, index_to_buy as int),
        !offer_in_range(old(selection)@, index_to_buy as int) ==> r == Err::<Tile, Error>(
            Error::BuyIndexOutOfBounds,
        ),
        offer_in_range(old(selection)@, index_to_buy as int) && !can_buy(
            old(selection)@,
            old(hex_board).resources@,
            index_to_buy as int,
        ) ==> r == Err::<Tile, Error>(Error::NotEnoughResources),
        r matches Ok(t) ==> {
            let cost = spec_tile_cost(old(selection)@[index_to_buy as int] as int);
            &&& t == cost.tile_to_buy
            &&& final(selection)@ == old(selection)@.remove(index_to_buy as int)
            &&& final(hex_board).resources@ == paid(old(hex_board).resources@, cost.cost)
        },
        r is Err ==> *final(selection) == *old(selection) && *final(hex_board) == *old(hex_board),
        final(hex_board).hex_grid@ == old(hex_board).hex_grid@,
        final(hex_board).matchmaking_state == old(hex_board).matchmaking_state,
{
    if index_to_buy >= selection.len() {
        return Err(Error::BuyIndexOutOfBounds);
    }
    let offer_index = selection[index_to_buy];
    if offer_index as usize >= NUMBER_OF_TILE_COSTS {
        return Err(Error::BuyIndexOutOfBounds);
    }
    let offer = tile_cost(offer_index as usize);
    spend_resource(&offer.cost, hex_board)?;
    selection.remove(index_to_buy);
    Ok(offer.tile_to_buy)
}

/// Pays the upgrade of `tile_to_upgrade`: a home at level `l` costs `2(l+1)` wood and stone and
/// `2l` gold. Fails, changing nothing, for an empty cell, for any other kind, and when the
/// board cannot pay.
pub fn spend_for_tile_upgrade(hex_board: &mut HexBoard, tile_to_upgrade: &Tile) -> (r: Result<
    (),
    Error,
>)
    requires
        tile_to_upgrade.wf(),
    ensures
        tile_to_upgrade.tile_type == TileType::Empty ==> r == Err::<(), Error>(
            Error::CannotLevelUpEmptyTile,
        ),
        tile_to_upgrade.tile_type != TileType::Empty && tile_to_upgrade.tile_type != TileType::Home
            ==> r == Err::<(), Error>(Error::CannotLevelUp),
        tile_to_upgrade.tile_type == TileType::Home ==> if can_upgrade(
            old(hex_board).resources@,
            tile_to_upgrade.level as int,
        ) {
            r is Ok && final(hex_board).resources@ == upgrade_paid(
                old(hex_board).resources@,
                tile_to_upgrade.level as int,
            )
        } else {
            r == Err::<(), Error>(Error::NotEnoughResources)
        },
        r is Err ==> *final(hex_board) == *old(hex_board),
        final(hex_board).hex_grid@ == old(hex_board).hex_grid@,
        final(hex_board).matchmaking_state == old(hex_board).matchmaking_state,
{
    match tile_to_upgrade.get_type() {
        TileType::Home => {
            let level = tile_to_upgrade.get_level();
            let material = (level + 1) * 2;
            let gold = level * 2;
            if hex_board.resources[4] < material || hex_board.resources[5] < material
                || hex_board.resources[6] < gold {
                return Err(Error::NotEnoughResources);
            }
            let wood = ResourceAmount { resource_type: ResourceType::Wood, amount: material };
            let stone = ResourceAmount { resource_type: ResourceType::Stone, amount: material };
            let gold = ResourceAmount { resource_type: ResourceType::Gold, amount: gold };
            let r1 = spend_resource(&wood, hex_board);
            let r2 = spend_resource(&stone, hex_board);
            let r3 = spend_resource(&gold, hex_board);
            assert(r1 is Ok && r2 is Ok && r3 is Ok);
            Ok(())
        },
        TileType::Empty => Err(Error::CannotLevelUpEmptyTile),
        _ => Err(Error::CannotLevelUp),
    }
}

} // verus!
