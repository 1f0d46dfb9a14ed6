use minecraft_map_tool::ErrorKind;
use minecraft_map_tool::model::Banner;
use minecraft_map_tool::model::BannerColor;
use minecraft_map_tool::model::MapData;
use minecraft_map_tool::model::MapItem;
use minecraft_map_tool::model::Pos;
use minecraft_map_tool::palette::Palette;
use minecraft_map_tool::palette::Rgba;

fn plain_map(scale: i8, x_center: i32, z_center: i32) -> MapData {
    MapData {
        scale,
        dimension: "minecraft:overworld".to_string(),
        tracking_position: 1,
        unlimited_tracking: 0,
        locked: 0,
        x_center,
        z_center,
        banners: vec![],
        frames: vec![],
        colors: vec![0u8; 16384],
    }
}

fn two_color_palette() -> Palette {
    let mut entries = vec![Rgba { r: 0, g: 0, b: 0, a: 0 }; 256];
    entries[1] = Rgba { r: 255, g: 0, b: 0, a: 255 };
    Palette { entries }
}

#[test]
fn test_bounding_box_origin_scale0() {
    let m = plain_map(0, 0, 0);
    assert_eq!(m.left(), -64);
    assert_eq!(m.top(), -64);
    assert_eq!(m.right(), 63);
    assert_eq!(m.bottom(), 63);
}

#[test]
fn test_bounding_box_square_for_every_scale() {
    for scale in 0..=4i8 {
        let m = plain_map(scale, 1000, -25000);
        let side = 128i64 * (1i64 << scale);
        assert_eq!(m.right() - m.left() + 1, side);
        assert_eq!(m.bottom() - m.top() + 1, side);
        assert!(m.left() <= m.right());
        assert!(m.top() <= m.bottom());
    }
}

#[test]
fn test_bounding_box_extreme_centers() {
    let m = plain_map(4, i32::MAX, i32::MIN);
    assert_eq!(m.left(), i32::MAX as i64 - 1024);
    assert_eq!(m.right(), i32::MAX as i64 + 1023);
    assert_eq!(m.top(), i32::MIN as i64 - 1024);
    assert_eq!(m.bottom(), i32::MIN as i64 + 1023);
}

#[test]
fn test_scale_description() {
    assert_eq!(plain_map(0, 0, 0).scale_description(), "1:1");
    assert_eq!(plain_map(1, 0, 0).scale_description(), "1:2");
    assert_eq!(plain_map(2, 0, 0).scale_description(), "1:4");
    assert_eq!(plain_map(3, 0, 0).scale_description(), "1:8");
    assert_eq!(plain_map(4, 0, 0).scale_description(), "1:16");
}

#[test]
fn test_pretty_dimension_namespaced() {
    let mut m = plain_map(0, 0, 0);
    assert_eq!(m.pretty_dimension(), "Overworld");
    m.dimension = "minecraft:the_nether".to_string();
    assert_eq!(m.pretty_dimension(), "The Nether");
    m.dimension = "minecraft:the_end".to_string();
    assert_eq!(m.pretty_dimension(), "The End");
    m.dimension = "mypack:frozen_wastes".to_string();
    assert_eq!(m.pretty_dimension(), "Frozen Wastes");
}

#[test]
fn test_pretty_dimension_legacy_codes() {
    let mut m = plain_map(0, 0, 0);
    m.dimension = "-1".to_string();
    assert_eq!(m.pretty_dimension(), "The Nether");
    m.dimension = "1".to_string();
    assert_eq!(m.pretty_dimension(), "The End");
    m.dimension = "0".to_string();
    assert_eq!(m.pretty_dimension(), "Overworld");
    m.dimension = "something else".to_string();
    assert_eq!(m.pretty_dimension(), "Overworld");
}

#[test]
fn test_pretty_dimension_from_path() {
    let item = MapItem {
        file: "/saves/world/DIM-1_nether/data/map_0.dat".to_string(),
        data: plain_map(0, 0, 0),
        data_version: 2699,
    };
    assert_eq!(item.pretty_dimension_from_path(), "The Nether");
    let item = MapItem {
        file: "/saves/world/DIM1_the_end/data/map_0.dat".to_string(),
        data: plain_map(0, 0, 0),
        data_version: 2699,
    };
    assert_eq!(item.pretty_dimension_from_path(), "The End");
    let item = MapItem {
        file: "/saves/world/data/map_0.dat".to_string(),
        data: plain_map(0, 0, 0),
        data_version: 2699,
    };
    assert_eq!(item.pretty_dimension_from_path(), "Overworld");
}

#[test]
fn test_extract_name_json_object() {
    let banner = Banner {
        color: BannerColor::Red,
        name: Some("{\"text\":\"Hello\"}".to_string()),
        pos: Pos { x: 0, y: 64, z: 0 },
    };
    assert_eq!(banner.extract_name(), "Hello");
}

#[test]
fn test_extract_name_bare_json_string() {
    let banner = Banner {
        color: BannerColor::Blue,
        name: Some("\"World\"".to_string()),
        pos: Pos { x: 0, y: 64, z: 0 },
    };
    assert_eq!(banner.extract_name(), "World");
}

#[test]
fn test_extract_name_nameless() {
    let banner = Banner { color: BannerColor::White, name: None, pos: Pos { x: 0, y: 0, z: 0 } };
    assert_eq!(banner.extract_name(), "[nameless]");
}

#[test]
fn test_extract_name_unparseable_text() {
    let banner = Banner {
        color: BannerColor::Lime,
        name: Some("not json at all".to_string()),
        pos: Pos { x: 1, y: 2, z: 3 },
    };
    assert_eq!(banner.extract_name(), "not json at all");
}

#[test]
fn test_banner_color_names() {
    assert_eq!(BannerColor::LightBlue.name(), "LightBlue");
    assert_eq!(BannerColor::Black.name(), "Black");
    assert_eq!(BannerColor::Yellow.name(), "Yellow");
}

#[test]
fn test_render_single_red_pixel() {
    let mut m = plain_map(0, 0, 0);
    m.colors[64 * 128 + 64] = 1;
    let img = m.render(&two_color_palette()).unwrap();
    assert_eq!(img.width, 128);
    assert_eq!(img.height, 128);
    for y in 0..128usize {
        for x in 0..128usize {
            let p = img.pixels[y * 128 + x];
            if x == 64 && y == 64 {
                assert_eq!(p, Rgba { r: 255, g: 0, b: 0, a: 255 });
            } else {
                assert_eq!(p, Rgba { r: 0, g: 0, b: 0, a: 0 });
            }
        }
    }
}

#[test]
fn test_render_short_buffer_fails() {
    let mut m = plain_map(0, 0, 0);
    m.colors.truncate(16383);
    let err = m.render(&two_color_palette()).unwrap_err();
    assert!(matches!(*err.0, ErrorKind::IncompleteBufferError));
    assert_eq!(err.message(), "Color buffer incomplete");
}

#[test]
fn test_render_deterministic() {
    let mut m = plain_map(0, 0, 0);
    for k in 0..16384usize {
        m.colors[k] = (k % 7) as u8;
    }
    let palette = two_color_palette();
    let a = m.render(&palette).unwrap();
    let b = m.render(&palette).unwrap();
    assert_eq!(a.pixels, b.pixels);
}

#[test]
fn test_make_image_matches_render() {
    let item = MapItem { file: "map_0.dat".to_string(), data: plain_map(0, 0, 0), data_version: 0 };
    let img = item.make_image(&two_color_palette()).unwrap();
    let img2 = item.data.render(&two_color_palette()).unwrap();
    assert_eq!(img.pixels, img2.pixels);
}

#[test]
fn test_all_colors_pattern() {
    let colors = minecraft_map_tool::model::all_colors_pattern();
    assert_eq!(colors.len(), 16384);
    // One 8x8 block per color, in row-major block order.
    assert_eq!(colors[0], 0);
    assert_eq!(colors[7], 0);
    assert_eq!(colors[8], 1);
    assert_eq!(colors[127], 15);
    assert_eq!(colors[8 * 128], 16);
    assert_eq!(colors[16383], 255);
}

#[test]
fn test_version_description() {
    let table = vec![(2699i32, "21w10a".to_string()), (2700i32, "21w11a".to_string())];
    let item = MapItem {
        file: "map_0.dat".to_string(),
        data: plain_map(0, 0, 0),
        data_version: 2700,
    };
    assert_eq!(item.version_description(&table), "21w11a");
    let item = MapItem { file: "x".to_string(), data: plain_map(0, 0, 0), data_version: 1 };
    assert_eq!(item.version_description(&table), "Unknown");
}
