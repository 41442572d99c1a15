use proxy_core::block_mapping::{
    block_table_for, get_bedrock_block_name, map_modern_v1_16_5, BlockNameList, BlockNameTables,
    BlockTable,
};

#[test]
fn v1_16_5_single_states() {
    assert_eq!(map_modern_v1_16_5(0), "minecraft:air");
    assert_eq!(map_modern_v1_16_5(1), "minecraft:stone");
    assert_eq!(map_modern_v1_16_5(10), "minecraft:dirt");
    assert_eq!(map_modern_v1_16_5(33), "minecraft:bedrock");
    assert_eq!(map_modern_v1_16_5(183), "minecraft:glass");
}

#[test]
fn v1_16_5_runs() {
    assert_eq!(map_modern_v1_16_5(8), "minecraft:grass");
    assert_eq!(map_modern_v1_16_5(9), "minecraft:grass");
    assert_eq!(map_modern_v1_16_5(34), "minecraft:water");
    assert_eq!(map_modern_v1_16_5(49), "minecraft:water");
    assert_eq!(map_modern_v1_16_5(50), "minecraft:lava");
    assert_eq!(map_modern_v1_16_5(110), "minecraft:log");
    assert_eq!(map_modern_v1_16_5(111), "minecraft:leaves");
    assert_eq!(map_modern_v1_16_5(10000), "minecraft:basalt");
    assert_eq!(map_modern_v1_16_5(11000), "minecraft:soul_campfire");
}

#[test]
fn v1_16_5_out_of_range_is_stone() {
    assert_eq!(map_modern_v1_16_5(11001), "minecraft:stone");
    assert_eq!(map_modern_v1_16_5(u32::MAX), "minecraft:stone");
}

#[test]
fn table_selection() {
    assert_eq!(block_table_for(0), BlockTable::Legacy1_12_2);
    assert_eq!(block_table_for(340), BlockTable::Legacy1_12_2);
    assert_eq!(block_table_for(341), BlockTable::Modern1_16_5);
    assert_eq!(block_table_for(754), BlockTable::Modern1_16_5);
    assert_eq!(block_table_for(755), BlockTable::Modern1_20_4);
    assert_eq!(block_table_for(763), BlockTable::Modern1_20_4);
    assert_eq!(block_table_for(764), BlockTable::Legacy1_12_2);
}

fn tables() -> BlockNameTables {
    BlockNameTables {
        legacy_v1_12_2: BlockNameList {
            names: vec!["minecraft:air".to_string(), "minecraft:stone".to_string()],
            other: "minecraft:info_update".to_string(),
        },
        modern_v1_20_4: BlockNameList {
            names: vec!["minecraft:air".to_string(), "minecraft:granite".to_string()],
            other: "minecraft:unknown".to_string(),
        },
    }
}

#[test]
fn bedrock_block_name_by_version() {
    let t = tables();
    assert_eq!(get_bedrock_block_name(&t, 0, 754), "minecraft:air");
    assert_eq!(get_bedrock_block_name(&t, 34, 341), "minecraft:water");
    assert_eq!(get_bedrock_block_name(&t, 1, 754), "minecraft:stone");
    assert_eq!(get_bedrock_block_name(&t, 66, 500), "minecraft:sand");
    // Up to 340 and past 763: the 1.12.2 table, keyed by the low 16 bits.
    assert_eq!(get_bedrock_block_name(&t, 1, 340), "minecraft:stone");
    assert_eq!(get_bedrock_block_name(&t, 0x1_0001, 0), "minecraft:stone");
    assert_eq!(get_bedrock_block_name(&t, 2, 340), "minecraft:info_update");
    assert_eq!(get_bedrock_block_name(&t, 1, 800), "minecraft:stone");
    // 755 to 763: the 1.20.4 table.
    assert_eq!(get_bedrock_block_name(&t, 1, 760), "minecraft:granite");
    assert_eq!(get_bedrock_block_name(&t, 0x1_0001, 763), "minecraft:unknown");
}
