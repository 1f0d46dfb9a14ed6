use minecraft_map_tool::ErrorKind;
use minecraft_map_tool::model::BannerColor;
use minecraft_map_tool::model::MapItem;
use minecraft_map_tool::nbt::NbtValue;

fn data_fields(colors_len: usize) -> Vec<(String, NbtValue)> {
    vec![
        ("scale".to_string(), NbtValue::Byte(0)),
        ("dimension".to_string(), NbtValue::Text("minecraft:overworld".to_string())),
        ("trackingPosition".to_string(), NbtValue::Byte(1)),
        ("unlimitedTracking".to_string(), NbtValue::Byte(0)),
        ("locked".to_string(), NbtValue::Byte(1)),
        ("xCenter".to_string(), NbtValue::Int(-128)),
        ("zCenter".to_string(), NbtValue::Int(256)),
        ("banners".to_string(), NbtValue::List(vec![])),
        ("frames".to_string(), NbtValue::List(vec![])),
        ("colors".to_string(), NbtValue::ByteArray(vec![-1i8; colors_len])),
    ]
}

fn full_tree(colors_len: usize) -> NbtValue {
    NbtValue::Compound(vec![
        ("data".to_string(), NbtValue::Compound(data_fields(colors_len))),
        ("DataVersion".to_string(), NbtValue::Int(2699)),
    ])
}

#[test]
fn test_decode_full_record() {
    let item = MapItem::decode(&full_tree(16384), "map_7.dat").unwrap();
    assert_eq!(item.file, "map_7.dat");
    assert_eq!(item.data_version, 2699);
    assert_eq!(item.data.scale, 0);
    assert_eq!(item.data.dimension, "minecraft:overworld");
    assert_eq!(item.data.tracking_position, 1);
    assert_eq!(item.data.unlimited_tracking, 0);
    assert_eq!(item.data.locked, 1);
    assert_eq!(item.data.x_center, -128);
    assert_eq!(item.data.z_center, 256);
    assert!(item.data.banners.is_empty());
    assert!(item.data.frames.is_empty());
    assert_eq!(item.data.colors.len(), 16384);
    // Stored bytes are signed but read as unsigned.
    assert_eq!(item.data.colors[0], 255);
}

#[test]
fn test_decode_missing_field_fails() {
    let mut fields = data_fields(16384);
    fields.retain(|(name, _)| name != "scale");
    let tree = NbtValue::Compound(vec![
        ("data".to_string(), NbtValue::Compound(fields)),
        ("DataVersion".to_string(), NbtValue::Int(2699)),
    ]);
    let err = MapItem::decode(&tree, "map_0.dat").unwrap_err();
    assert!(matches!(*err.0, ErrorKind::DecodeError(_)));
    assert_eq!(err.message(), "missing or mistyped scale");
}

#[test]
fn test_decode_wrong_tag_fails() {
    let mut fields = data_fields(16384);
    for entry in fields.iter_mut() {
        if entry.0 == "xCenter" {
            entry.1 = NbtValue::Byte(4);
        }
    }
    let tree = NbtValue::Compound(vec![
        ("data".to_string(), NbtValue::Compound(fields)),
        ("DataVersion".to_string(), NbtValue::Int(2699)),
    ]);
    let err = MapItem::decode(&tree, "map_0.dat").unwrap_err();
    assert!(matches!(*err.0, ErrorKind::DecodeError(_)));
    assert_eq!(err.message(), "missing or mistyped xCenter");
}

#[test]
fn test_decode_short_colors_fails() {
    let err = MapItem::decode(&full_tree(16383), "map_0.dat").unwrap_err();
    assert!(matches!(*err.0, ErrorKind::DecodeError(_)));
    let err = MapItem::decode(&full_tree(16385), "map_0.dat").unwrap_err();
    assert!(matches!(*err.0, ErrorKind::DecodeError(_)));
}

#[test]
fn test_decode_missing_data_version_fails() {
    let tree = NbtValue::Compound(vec![
        ("data".to_string(), NbtValue::Compound(data_fields(16384))),
    ]);
    assert!(MapItem::decode(&tree, "map_0.dat").is_err());
}

#[test]
fn test_decode_root_not_compound_fails() {
    assert!(MapItem::decode(&NbtValue::Int(1), "map_0.dat").is_err());
}

#[test]
fn test_decode_legacy_byte_dimension() {
    let mut fields = data_fields(16384);
    for entry in fields.iter_mut() {
        if entry.0 == "dimension" {
            entry.1 = NbtValue::Byte(-1);
        }
    }
    let tree = NbtValue::Compound(vec![
        ("data".to_string(), NbtValue::Compound(fields)),
        ("DataVersion".to_string(), NbtValue::Int(1343)),
    ]);
    let item = MapItem::decode(&tree, "map_0.dat").unwrap();
    assert_eq!(item.data.dimension, "-1");
    assert_eq!(item.data.pretty_dimension(), "The Nether");
}

#[test]
fn test_decode_banner_and_frame() {
    let banner = NbtValue::Compound(vec![
        ("Color".to_string(), NbtValue::Text("light_blue".to_string())),
        ("Name".to_string(), NbtValue::Text("{\"text\":\"Home\"}".to_string())),
        (
            "Pos".to_string(),
            NbtValue::Compound(vec![
                ("X".to_string(), NbtValue::Int(10)),
                ("Y".to_string(), NbtValue::Int(64)),
                ("Z".to_string(), NbtValue::Int(-10)),
            ]),
        ),
    ]);
    let frame = NbtValue::Compound(vec![
        ("EntityId".to_string(), NbtValue::Int(77)),
        ("Rotation".to_string(), NbtValue::Int(180)),
        ("Pos".to_string(), NbtValue::IntArray(vec![1, 2, 3])),
    ]);
    let mut banner_list = vec![banner];
    let mut frame_list = vec![frame];
    let mut fields = data_fields(16384);
    for entry in fields.iter_mut() {
        if entry.0 == "banners" {
            entry.1 = NbtValue::List(std::mem::take(&mut banner_list));
        }
        if entry.0 == "frames" {
            entry.1 = NbtValue::List(std::mem::take(&mut frame_list));
        }
    }
    let tree = NbtValue::Compound(vec![
        ("data".to_string(), NbtValue::Compound(fields)),
        ("DataVersion".to_string(), NbtValue::Int(2699)),
    ]);
    let item = MapItem::decode(&tree, "map_0.dat").unwrap();
    assert_eq!(item.data.banners.len(), 1);
    assert_eq!(item.data.banners[0].color, BannerColor::LightBlue);
    assert_eq!(item.data.banners[0].extract_name(), "Home");
    assert_eq!(item.data.banners[0].pos.x, 10);
    assert_eq!(item.data.banners[0].pos.y, 64);
    assert_eq!(item.data.banners[0].pos.z, -10);
    assert_eq!(item.data.frames.len(), 1);
    assert_eq!(item.data.frames[0].entity_id, 77);
    assert_eq!(item.data.frames[0].rotation, 180);
    assert_eq!(item.data.frames[0].pos.x, 1);
    assert_eq!(item.data.frames[0].pos.y, 2);
    assert_eq!(item.data.frames[0].pos.z, 3);
}

#[test]
fn test_decode_bad_banner_color_fails() {
    let banner = NbtValue::Compound(vec![
        ("Color".to_string(), NbtValue::Text("ultraviolet".to_string())),
        ("Pos".to_string(), NbtValue::IntArray(vec![0, 0, 0])),
    ]);
    let mut banner_list = vec![banner];
    let mut fields = data_fields(16384);
    for entry in fields.iter_mut() {
        if entry.0 == "banners" {
            entry.1 = NbtValue::List(std::mem::take(&mut banner_list));
        }
    }
    let tree = NbtValue::Compound(vec![
        ("data".to_string(), NbtValue::Compound(fields)),
        ("DataVersion".to_string(), NbtValue::Int(2699)),
    ]);
    let err = MapItem::decode(&tree, "map_0.dat").unwrap_err();
    assert_eq!(err.message(), "malformed banner entry");
}

#[test]
fn test_decode_bad_pos_array_fails() {
    let frame = NbtValue::Compound(vec![
        ("EntityId".to_string(), NbtValue::Int(1)),
        ("Rotation".to_string(), NbtValue::Int(0)),
        ("Pos".to_string(), NbtValue::IntArray(vec![1, 2])),
    ]);
    let mut frame_list = vec![frame];
    let mut fields = data_fields(16384);
    for entry in fields.iter_mut() {
        if entry.0 == "frames" {
            entry.1 = NbtValue::List(std::mem::take(&mut frame_list));
        }
    }
    let tree = NbtValue::Compound(vec![
        ("data".to_string(), NbtValue::Compound(fields)),
        ("DataVersion".to_string(), NbtValue::Int(2699)),
    ]);
    let err = MapItem::decode(&tree, "map_0.dat").unwrap_err();
    assert_eq!(err.message(), "malformed frame entry");
}

#[test]
fn test_decode_ignores_unknown_fields() {
    let mut fields = data_fields(16384);
    fields.push(("somethingNew".to_string(), NbtValue::Long(9)));
    let tree = NbtValue::Compound(vec![
        ("data".to_string(), NbtValue::Compound(fields)),
        ("DataVersion".to_string(), NbtValue::Int(2699)),
        ("extraTopLevel".to_string(), NbtValue::FloatBits(0x3f800000)),
    ]);
    assert!(MapItem::decode(&tree, "map_0.dat").is_ok());
}
