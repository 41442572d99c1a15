//! Java Edition block states to Bedrock block names.

use vstd::prelude::*;

verus! {

/// The Bedrock block name for a Java Edition 1.16.5 block state id. The
/// state ids of 1.16.5 fall into runs of related states; ids past the last
/// run name stone.
pub open spec fn block_name_v1_16_5(state_id: u32) -> Seq<char> {
    if state_id <= 0 {
        "minecraft:air"@
    } else if state_id <= 1 {
        "minecraft:stone"@
    } else if state_id <= 2 {
        "minecraft:granite"@
    } else if state_id <= 3 {
        "minecraft:polished_granite"@
    } else if state_id <= 4 {
        "minecraft:diorite"@
    } else if state_id <= 5 {
        "minecraft:polished_diorite"@
    } else if state_id <= 6 {
        "minecraft:andesite"@
    } else if state_id <= 7 {
        "minecraft:polished_andesite"@
    } else if state_id <= 9 {
        "minecraft:grass"@
    } else if state_id <= 10 {
        "minecraft:dirt"@
    } else if state_id <= 11 {
        "minecraft:dirt_with_roots"@
    } else if state_id <= 13 {
        "minecraft:podzol"@
    } else if state_id <= 14 {
        "minecraft:cobblestone"@
    } else if state_id <= 15 {
        "minecraft:planks"@
    } else if state_id <= 16 {
        "minecraft:spruce_planks"@
    } else if state_id <= 17 {
        "minecraft:birch_planks"@
    } else if state_id <= 18 {
        "minecraft:jungle_planks"@
    } else if state_id <= 19 {
        "minecraft:acacia_planks"@
    } else if state_id <= 20 {
        "minecraft:dark_oak_planks"@
    } else if state_id <= 22 {
        "minecraft:sapling"@
    } else if state_id <= 24 {
        "minecraft:spruce_sapling"@
    } else if state_id <= 26 {
        "minecraft:birch_sapling"@
    } else if state_id <= 28 {
        "minecraft:jungle_sapling"@
    } else if state_id <= 30 {
        "minecraft:acacia_sapling"@
    } else if state_id <= 32 {
        "minecraft:dark_oak_sapling"@
    } else if state_id <= 33 {
        "minecraft:bedrock"@
    } else if state_id <= 49 {
        "minecraft:water"@
    } else if state_id <= 65 {
        "minecraft:lava"@
    } else if state_id <= 66 {
        "minecraft:sand"@
    } else if state_id <= 67 {
        "minecraft:red_sand"@
    } else if state_id <= 68 {
        "minecraft:gravel"@
    } else if state_id <= 69 {
        "minecraft:gold_ore"@
    } else if state_id <= 70 {
        "minecraft:iron_ore"@
    } else if state_id <= 71 {
        "minecraft:coal_ore"@
    } else if state_id <= 110 {
        "minecraft:log"@
    } else if state_id <= 180 {
        "minecraft:leaves"@
    } else if state_id <= 182 {
        "minecraft:sponge"@
    } else if state_id <= 183 {
        "minecraft:glass"@
    } else if state_id <= 184 {
        "minecraft:lapis_ore"@
    } else if state_id <= 185 {
        "minecraft:lapis_block"@
    } else if state_id <= 190 {
        "minecraft:sandstone"@
    } else if state_id <= 206 {
        "minecraft:wool"@
    } else if state_id <= 222 {
        "minecraft:carpet"@
    } else if state_id <= 238 {
        "minecraft:stained_glass"@
    } else if state_id <= 254 {
        "minecraft:stained_glass_pane"@
    } else if state_id <= 270 {
        "minecraft:stained_hardened_clay"@
    } else if state_id <= 286 {
        "minecraft:concrete"@
    } else if state_id <= 302 {
        "minecraft:concrete_powder"@
    } else if state_id <= 318 {
        "minecraft:bed"@
    } else if state_id <= 450 {
        "minecraft:wooden_door"@
    } else if state_id <= 550 {
        "minecraft:fence"@
    } else if state_id <= 650 {
        "minecraft:fence_gate"@
    } else if state_id <= 750 {
        "minecraft:stone_stairs"@
    } else if state_id <= 850 {
        "minecraft:oak_stairs"@
    } else if state_id <= 950 {
        "minecraft:wooden_slab"@
    } else if state_id <= 1050 {
        "minecraft:stone_slab"@
    } else if state_id <= 1100 {
        "minecraft:tallgrass"@
    } else if state_id <= 1150 {
        "minecraft:double_plant"@
    } else if state_id <= 1200 {
        "minecraft:wall_sign"@
    } else if state_id <= 1300 {
        "minecraft:standing_sign"@
    } else if state_id <= 1400 {
        "minecraft:coral"@
    } else if state_id <= 1500 {
        "minecraft:glazed_terracotta"@
    } else if state_id <= 2000 {
        "minecraft:shulker_box"@
    } else if state_id <= 3000 {
        "minecraft:redstone_wire"@
    } else if state_id <= 4000 {
        "minecraft:piston"@
    } else if state_id <= 5000 {
        "minecraft:flower_pot"@
    } else if state_id <= 6000 {
        "minecraft:loom"@
    } else if state_id <= 7000 {
        "minecraft:campfire"@
    } else if state_id <= 8000 {
        "minecraft:honey_block"@
    } else if state_id <= 9000 {
        "minecraft:crimson_planks"@
    } else if state_id <= 10000 {
        "minecraft:basalt"@
    } else if state_id <= 11000 {
        "minecraft:soul_campfire"@
    } else {
        "minecraft:stone"@
    }
}

/// Maps a Java Edition 1.16.5 block state id to a Bedrock block name.
pub fn map_modern_v1_16_5(state_id: u32) -> (name: &'static str)
    ensures
        name@ == block_name_v1_16_5(state_id),
{
    match state_id {
        0 => "minecraft:air",
        1 => "minecraft:stone",
        2 => "minecraft:granite",
        3 => "minecraft:polished_granite",
        4 => "minecraft:diorite",
        5 => "minecraft:polished_diorite",
        6 => "minecraft:andesite",
        7 => "minecraft:polished_andesite",
        8..=9 => "minecraft:grass",
        10 => "minecraft:dirt",
        11 => "minecraft:dirt_with_roots",
        12..=13 => "minecraft:podzol",
        14 => "minecraft:cobblestone",
        15 => "minecraft:planks",
        16 => "minecraft:spruce_planks",
        17 => "minecraft:birch_planks",
        18 => "minecraft:jungle_planks",
        19 => "minecraft:acacia_planks",
        20 => "minecraft:dark_oak_planks",
        21..=22 => "minecraft:sapling",
        23..=24 => "minecraft:spruce_sapling",
        25..=26 => "minecraft:birch_sapling",
        27..=28 => "minecraft:jungle_sapling",
        29..=30 => "minecraft:acacia_sapling",
        31..=32 => "minecraft:dark_oak_sapling",
        33 => "minecraft:bedrock",
        34..=49 => "minecraft:water",
        50..=65 => "minecraft:lava",
        66 => "minecraft:sand",
        67 => "minecraft:red_sand",
        68 => "minecraft:gravel",
        69 => "minecraft:gold_ore",
        70 => "minecraft:iron_ore",
        71 => "minecraft:coal_ore",
        72..=110 => "minecraft:log",
        111..=180 => "minecraft:leaves",
        181..=182 => "minecraft:sponge",
        183 => "minecraft:glass",
        184 => "minecraft:lapis_ore",
        185 => "minecraft:lapis_block",
        186..=190 => "minecraft:sandstone",
        191..=206 => "minecraft:wool",
        207..=222 => "minecraft:carpet",
        223..=238 => "minecraft:stained_glass",
        239..=254 => "minecraft:stained_glass_pane",
        255..=270 => "minecraft:stained_hardened_clay",
        271..=286 => "minecraft:concrete",
        287..=302 => "minecraft:concrete_powder",
        303..=318 => "minecraft:bed",
        319..=450 => "minecraft:wooden_door",
        451..=550 => "minecraft:fence",
        551..=650 => "minecraft:fence_gate",
        651..=750 => "minecraft:stone_stairs",
        751..=850 => "minecraft:oak_stairs",
        851..=950 => "minecraft:wooden_slab",
        951..=1050 => "minecraft:stone_slab",
        1051..=1100 => "minecraft:tallgrass",
        1101..=1150 => "minecraft:double_plant",
        1151..=1200 => "minecraft:wall_sign",
        1201..=1300 => "minecraft:standing_sign",
        1301..=1400 => "minecraft:coral",
        1401..=1500 => "minecraft:glazed_terracotta",
        1501..=2000 => "minecraft:shulker_box",
        2001..=3000 => "minecraft:redstone_wire",
        3001..=4000 => "minecraft:piston",
        4001..=5000 => "minecraft:flower_pot",
        5001..=6000 => "minecraft:loom",
        6001..=7000 => "minecraft:campfire",
        7001..=8000 => "minecraft:honey_block",
        8001..=9000 => "minecraft:crimson_planks",
        9001..=10000 => "minecraft:basalt",
        10001..=11000 => "minecraft:soul_campfire",
        _ => "minecraft:stone",
    }
}

/// The names the 1.16.5 table gives to the state ids 0 to 32, run by
/// run.
pub proof fn lemma_v1_16_5_terrain_names(id: u32)
    ensures
        id == 0 ==> block_name_v1_16_5(id) == "minecraft:air"@,
        id == 1 ==> block_name_v1_16_5(id) == "minecraft:stone"@,
        id == 2 ==> block_name_v1_16_5(id) == "minecraft:granite"@,
        id == 3 ==> block_name_v1_16_5(id) == "minecraft:polished_granite"@,
        id == 4 ==> block_name_v1_16_5(id) == "minecraft:diorite"@,
        id == 5 ==> block_name_v1_16_5(id) == "minecraft:polished_diorite"@,
        id == 6 ==> block_name_v1_16_5(id) == "minecraft:andesite"@,
        id == 7 ==> block_name_v1_16_5(id) == "minecraft:polished_andesite"@,
        8 <= id <= 9 ==> block_name_v1_16_5(id) == "minecraft:grass"@,
        id == 10 ==> block_name_v1_16_5(id) == "minecraft:dirt"@,
        id == 11 ==> block_name_v1_16_5(id) == "minecraft:dirt_with_roots"@,
        12 <= id <= 13 ==> block_name_v1_16_5(id) == "minecraft:podzol"@,
        id == 14 ==> block_name_v1_16_5(id) == "minecraft:cobblestone"@,
        id == 15 ==> block_name_v1_16_5(id) == "minecraft:planks"@,
        id == 16 ==> block_name_v1_16_5(id) == "minecraft:spruce_planks"@,
        id == 17 ==> block_name_v1_16_5(id) == "minecraft:birch_planks"@,
        id == 18 ==> block_name_v1_16_5(id) == "minecraft:jungle_planks"@,
        id == 19 ==> block_name_v1_16_5(id) == "minecraft:acacia_planks"@,
        id == 20 ==> block_name_v1_16_5(id) == "minecraft:dark_oak_planks"@,
        21 <= id <= 22 ==> block_name_v1_16_5(id) == "minecraft:sapling"@,
        23 <= id <= 24 ==> block_name_v1_16_5(id) == "minecraft:spruce_sapling"@,
        25 <= id <= 26 ==> block_name_v1_16_5(id) == "minecraft:birch_sapling"@,
        27 <= id <= 28 ==> block_name_v1_16_5(id) == "minecraft:jungle_sapling"@,
        29 <= id <= 30 ==> block_name_v1_16_5(id) == "minecraft:acacia_sapling"@,
        31 <= id <= 32 ==> block_name_v1_16_5(id) == "minecraft:dark_oak_sapling"@,
{
}

/// The names the 1.16.5 table gives to the state ids 33 to 450, run by
/// run.
pub proof fn lemma_v1_16_5_building_names(id: u32)
    ensures
        id == 33 ==> block_name_v1_16_5(id) == "minecraft:bedrock"@,
        34 <= id <= 49 ==> block_name_v1_16_5(id) == "minecraft:water"@,
        50 <= id <= 65 ==> block_name_v1_16_5(id) == "minecraft:lava"@,
        id == 66 ==> block_name_v1_16_5(id) == "minecraft:sand"@,
        id == 67 ==> block_name_v1_16_5(id) == "minecraft:red_sand"@,
        id == 68 ==> block_name_v1_16_5(id) == "minecraft:gravel"@,
        id == 69 ==> block_name_v1_16_5(id) == "minecraft:gold_ore"@,
        id == 70 ==> block_name_v1_16_5(id) == "minecraft:iron_ore"@,
        id == 71 ==> block_name_v1_16_5(id) == "minecraft:coal_ore"@,
        72 <= id <= 110 ==> block_name_v1_16_5(id) == "minecraft:log"@,
        111 <= id <= 180 ==> block_name_v1_16_5(id) == "minecraft:leaves"@,
        181 <= id <= 182 ==> block_name_v1_16_5(id) == "minecraft:sponge"@,
        id == 183 ==> block_name_v1_16_5(id) == "minecraft:glass"@,
        id == 184 ==> block_name_v1_16_5(id) == "minecraft:lapis_ore"@,
        id == 185 ==> block_name_v1_16_5(id) == "minecraft:lapis_block"@,
        186 <= id <= 190 ==> block_name_v1_16_5(id) == "minecraft:sandstone"@,
        191 <= id <= 206 ==> block_name_v1_16_5(id) == "minecraft:wool"@,
        207 <= id <= 222 ==> block_name_v1_16_5(id) == "minecraft:carpet"@,
        223 <= id <= 238 ==> block_name_v1_16_5(id) == "minecraft:stained_glass"@,
        239 <= id <= 254 ==> block_name_v1_16_5(id) == "minecraft:stained_glass_pane"@,
        255 <= id <= 270 ==> block_name_v1_16_5(id) == "minecraft:stained_hardened_clay"@,
        271 <= id <= 286 ==> block_name_v1_16_5(id) == "minecraft:concrete"@,
        287 <= id <= 302 ==> block_name_v1_16_5(id) == "minecraft:concrete_powder"@,
        303 <= id <= 318 ==> block_name_v1_16_5(id) == "minecraft:bed"@,
        319 <= id <= 450 ==> block_name_v1_16_5(id) == "minecraft:wooden_door"@,
{
}

/// The names the 1.16.5 table gives to the state ids 451 to 11000, run by
/// run.
pub proof fn lemma_v1_16_5_later_names(id: u32)
    ensures
        451 <= id <= 550 ==> block_name_v1_16_5(id) == "minecraft:fence"@,
        551 <= id <= 650 ==> block_name_v1_16_5(id) == "minecraft:fence_gate"@,
        651 <= id <= 750 ==> block_name_v1_16_5(id) == "minecraft:stone_stairs"@,
        751 <= id <= 850 ==> block_name_v1_16_5(id) == "minecraft:oak_stairs"@,
        851 <= id <= 950 ==> block_name_v1_16_5(id) == "minecraft:wooden_slab"@,
        951 <= id <= 1050 ==> block_name_v1_16_5(id) == "minecraft:stone_slab"@,
        1051 <= id <= 1100 ==> block_name_v1_16_5(id) == "minecraft:tallgrass"@,
        1101 <= id <= 1150 ==> block_name_v1_16_5(id) == "minecraft:double_plant"@,
        1151 <= id <= 1200 ==> block_name_v1_16_5(id) == "minecraft:wall_sign"@,
        1201 <= id <= 1300 ==> block_name_v1_16_5(id) == "minecraft:standing_sign"@,
        1301 <= id <= 1400 ==> block_name_v1_16_5(id) == "minecraft:coral"@,
        1401 <= id <= 1500 ==> block_name_v1_16_5(id) == "minecraft:glazed_terracotta"@,
        1501 <= id <= 2000 ==> block_name_v1_16_5(id) == "minecraft:shulker_box"@,
        2001 <= id <= 3000 ==> block_name_v1_16_5(id) == "minecraft:redstone_wire"@,
        3001 <= id <= 4000 ==> block_name_v1_16_5(id) == "minecraft:piston"@,
        4001 <= id <= 5000 ==> block_name_v1_16_5(id) == "minecraft:flower_pot"@,
        5001 <= id <= 6000 ==> block_name_v1_16_5(id) == "minecraft:loom"@,
        6001 <= id <= 7000 ==> block_name_v1_16_5(id) == "minecraft:campfire"@,
        7001 <= id <= 8000 ==> block_name_v1_16_5(id) == "minecraft:honey_block"@,
        8001 <= id <= 9000 ==> block_name_v1_16_5(id) == "minecraft:crimson_planks"@,
        9001 <= id <= 10000 ==> block_name_v1_16_5(id) == "minecraft:basalt"@,
        10001 <= id <= 11000 ==> block_name_v1_16_5(id) == "minecraft:soul_campfire"@,
{
}

/// The 1.16.5 table names every state id past 11000 stone.
pub proof fn lemma_v1_16_5_past_table_is_stone(id: u32)
    ensures
        id > 11000 ==> block_name_v1_16_5(id) == "minecraft:stone"@,
{
}

/// The block table that serves a Java Edition protocol version.
#[derive(Debug, Clone, Copy, PartialEq, Eq, Structural)]
pub enum BlockTable {
    /// Java Edition 1.12.2 numeric ids with metadata.
    Legacy1_12_2,
    /// Java Edition 1.16.5 block states.
    Modern1_16_5,
    /// Java Edition 1.20.4 block states.
    Modern1_20_4,
}

/// The table for each protocol version: up to 340 (1.12.2) the legacy
/// table, up to 754 (1.16.5) the 1.16.5 table, up to 763 (1.20.1) the 1.20.4
/// table, and the legacy table again for anything newer.
pub open spec fn spec_block_table_for(protocol_version: u32) -> BlockTable {
    if protocol_version <= 340 {
        BlockTable::Legacy1_12_2
    } else if protocol_version <= 754 {
        BlockTable::Modern1_16_5
    } else if protocol_version <= 763 {
        BlockTable::Modern1_20_4
    } else {
        BlockTable::Legacy1_12_2
    }
}

/// Selects the block table for a Java Edition protocol version.
pub fn block_table_for(protocol_version: u32) -> (t: BlockTable)
    ensures
        t == spec_block_table_for(protocol_version),
{
    if protocol_version <= 340 {
        BlockTable::Legacy1_12_2
    } else if protocol_version <= 754 {
        BlockTable::Modern1_16_5
    } else if protocol_version <= 763 {
        BlockTable::Modern1_20_4
    } else {
        BlockTable::Legacy1_12_2
    }
}

/// A block-name table given by its entries: the name of id `i` is the
/// `i`-th entry where there is one, and `other` for every id past the last
/// entry. It stands for the tables whose entries the caller holds.
pub struct BlockNameList {
    pub names: Vec<String>,
    pub other: String,
}

/// A `BlockNameList` as a sequence of names and the name of every other id.
pub struct BlockNameListView {
    pub names: Seq<Seq<char>>,
    pub other: Seq<char>,
}

impl View for BlockNameList {
    type V = BlockNameListView;

    open spec fn view(&self) -> BlockNameListView {
        BlockNameListView { names: self.names@.map_values(|n: String| n@), other: self.other@ }
    }
}

/// The name a block-name list gives to `id`.
pub open spec fn list_name(list: BlockNameListView, id: nat) -> Seq<char> {
    if id < list.names.len() {
        list.names[id as int]
    } else {
        list.other
    }
}

impl BlockNameList {
    /// The name this list gives to `id`.
    pub fn name_of(&self, id: u32) -> (n: &str)
        ensures
            n@ == list_name(self@, id as nat),
    {
        let i = id as usize;
        if i < self.names.len() {
            self.names[i].as_str()
        } else {
            self.other.as_str()
        }
    }
}

/// The tables of the versions not served by the 1.16.5 table: the legacy
/// (1.12.2) table, keyed by the low 16 bits of the id, and the 1.20.4 table.
pub struct BlockNameTables {
    pub legacy_v1_12_2: BlockNameList,
    pub modern_v1_20_4: BlockNameList,
}

/// `BlockNameTables` seen through its two lists.
pub struct BlockNameTablesView {
    pub legacy_v1_12_2: BlockNameListView,
    pub modern_v1_20_4: BlockNameListView,
}

impl View for BlockNameTables {
    type V = BlockNameTablesView;

    open spec fn view(&self) -> BlockNameTablesView {
        BlockNameTablesView {
            legacy_v1_12_2: self.legacy_v1_12_2@,
            modern_v1_20_4: self.modern_v1_20_4@,
        }
    }
}

/// The Bedrock block name for a Java block id under a protocol version: the
/// legacy table on the id cut to 16 bits up to 340 and past 763, the 1.16.5
/// table from 341 to 754, the 1.20.4 table from 755 to 763.
pub open spec fn spec_bedrock_block_name(
    tables: BlockNameTablesView,
    java_id: u32,
    protocol_version: u32,
) -> Seq<char> {
    match spec_block_table_for(protocol_version) {
        BlockTable::Legacy1_12_2 => list_name(tables.legacy_v1_12_2, (java_id % 0x1_0000) as nat),
        BlockTable::Modern1_16_5 => block_name_v1_16_5(java_id),
        BlockTable::Modern1_20_4 => list_name(tables.modern_v1_20_4, java_id as nat),
    }
}

/// Looks up the Bedrock block name for a Java block id under a protocol
/// version.
pub fn get_bedrock_block_name<'a>(tables: &'a BlockNameTables, java_id: u32, protocol_version: u32) -> (name: &'a str)
    ensures
        name@ == spec_bedrock_block_name(tables@, java_id, protocol_version),
{
    match block_table_for(protocol_version) {
        BlockTable::Legacy1_12_2 => {
            let key = java_id as u16;
            proof {
                assert(key == java_id % 0x1_0000) by (bit_vector)
                    requires
                        key == java_id as u16,
                ;
            }
            tables.legacy_v1_12_2.name_of(key as u32)
        },
        BlockTable::Modern1_16_5 => map_modern_v1_16_5(java_id),
        BlockTable::Modern1_20_4 => tables.modern_v1_20_4.name_of(java_id),
    }
}

/// Which table names the blocks of each protocol version: the 1.12.2 table
/// (on the id's low 16 bits) up to 340 and past 763, the 1.16.5 table from
/// 341 to 754, and the 1.20.4 table from 755 to 763.
pub proof fn lemma_block_names_by_version(tables: BlockNameTablesView, java_id: u32, protocol_version: u32)
    ensures
        protocol_version <= 340 || protocol_version > 763 ==> spec_bedrock_block_name(
            tables,
            java_id,
            protocol_version,
        ) == list_name(tables.legacy_v1_12_2, (java_id % 0x1_0000) as nat),
        341 <= protocol_version <= 754 ==> spec_bedrock_block_name(tables, java_id, protocol_version)
            == block_name_v1_16_5(java_id),
        755 <= protocol_version <= 763 ==> spec_bedrock_block_name(tables, java_id, protocol_version)
            == list_name(tables.modern_v1_20_4, java_id as nat),
{
}

/// A supplied list names each id it has an entry for by that entry, and
/// every other id by its one other name.
pub proof fn lemma_list_name_entries(list: BlockNameListView, id: nat)
    ensures
        id < list.names.len() ==> list_name(list, id) == list.names[id as int],
        id >= list.names.len() ==> list_name(list, id) == list.other,
{
}

} // verus!
