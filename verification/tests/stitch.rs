use minecraft_map_tool::ErrorKind;
use minecraft_map_tool::model::MapData;
use minecraft_map_tool::palette::Palette;
use minecraft_map_tool::palette::Rgba;
use minecraft_map_tool::raster::Raster;
use minecraft_map_tool::stitch::Rect;
use minecraft_map_tool::stitch::area_of;
use minecraft_map_tool::stitch::composite;
use minecraft_map_tool::stitch::filter_maps;
use minecraft_map_tool::stitch::paint_image;
use minecraft_map_tool::stitch::snap_suggestions;

fn red() -> Rgba {
    Rgba { r: 255, g: 0, b: 0, a: 255 }
}

fn green() -> Rgba {
    Rgba { r: 0, g: 255, b: 0, a: 255 }
}

fn clear() -> Rgba {
    Rgba { r: 0, g: 0, b: 0, a: 0 }
}

fn palette() -> Palette {
    let mut entries = vec![clear(); 256];
    entries[1] = red();
    entries[2] = green();
    Palette { entries }
}

fn map_filled(scale: i8, x_center: i32, z_center: i32, color: u8) -> MapData {
    MapData {
        scale,
        dimension: "minecraft:overworld".to_string(),
        tracking_position: 0,
        unlimited_tracking: 0,
        locked: 0,
        x_center,
        z_center,
        banners: vec![],
        frames: vec![],
        colors: vec![color; 16384],
    }
}

#[test]
fn test_later_map_wins_where_both_opaque() {
    // Two maps with identical geometry, fully opaque: the second one given
    // must decide every pixel both cover.
    let a = map_filled(0, 0, 0, 1);
    let b = map_filled(0, 0, 0, 2);
    let img = composite(vec![a, b], &palette(), 0, &None, &None).unwrap();
    assert_eq!(img.width, 128);
    assert_eq!(img.height, 128);
    for p in &img.pixels {
        assert_eq!(*p, green());
    }
}

#[test]
fn test_transparent_pixels_never_overwrite() {
    let a = map_filled(0, 0, 0, 1);
    let mut b = map_filled(0, 0, 0, 0);
    b.colors[0] = 2;
    let img = composite(vec![a, b], &palette(), 0, &None, &None).unwrap();
    assert_eq!(img.pixels[0], green());
    for k in 1..img.pixels.len() {
        assert_eq!(img.pixels[k], red());
    }
}

#[test]
fn test_composite_union_rectangle() {
    // Two side-by-side maps: boxes -64..=63 and 64..=191 on both axes.
    let a = map_filled(0, 0, 0, 1);
    let b = map_filled(0, 128, 128, 2);
    let img = composite(vec![a, b], &palette(), 0, &None, &None).unwrap();
    assert_eq!(img.width, 256);
    assert_eq!(img.height, 256);
    // Upper left quarter comes from the first map, lower right from the
    // second, and the other two quarters stay transparent.
    assert_eq!(img.pixels[0], red());
    assert_eq!(img.pixels[127 * 256 + 127], red());
    assert_eq!(img.pixels[128 * 256 + 128], green());
    assert_eq!(img.pixels[255 * 256 + 255], green());
    assert_eq!(img.pixels[255], clear());
    assert_eq!(img.pixels[255 * 256], clear());
}

#[test]
fn test_composite_explicit_rectangle() {
    let a = map_filled(0, 0, 0, 1);
    let rect = Rect { left: 0, top: 0, right: 63, bottom: 63 };
    let img = composite(vec![a], &palette(), 0, &None, &Some(rect)).unwrap();
    assert_eq!(img.width, 64);
    assert_eq!(img.height, 64);
    for p in &img.pixels {
        assert_eq!(*p, red());
    }
}

#[test]
fn test_composite_excludes_maps_outside_rectangle() {
    let a = map_filled(0, 0, 0, 1);
    let far = map_filled(0, 100000, 100000, 2);
    let rect = Rect { left: -64, top: -64, right: 63, bottom: 63 };
    let img = composite(vec![a, far], &palette(), 0, &None, &Some(rect)).unwrap();
    for p in &img.pixels {
        assert_eq!(*p, red());
    }
}

#[test]
fn test_composite_scale_filter() {
    let a = map_filled(0, 0, 0, 1);
    let zoomed = map_filled(3, 0, 0, 2);
    let img = composite(vec![zoomed, a], &palette(), 0, &None, &None).unwrap();
    assert_eq!(img.width, 128);
    for p in &img.pixels {
        assert_eq!(*p, red());
    }
}

#[test]
fn test_composite_dimension_filter_case_insensitive() {
    let a = map_filled(0, 0, 0, 1);
    let img = composite(vec![a], &palette(), 0, &Some("OVERWORLD".to_string()), &None).unwrap();
    assert_eq!(img.pixels[0], red());
}

#[test]
fn test_composite_empty_after_filter_fails() {
    let a = map_filled(0, 0, 0, 1);
    let err = composite(vec![a], &palette(), 0, &Some("The Nether".to_string()), &None)
        .unwrap_err();
    assert!(matches!(*err.0, ErrorKind::GeometryError(_)));
    assert_eq!(err.message(), "No map files after filtering");
}

#[test]
fn test_composite_degenerate_rectangle_fails() {
    let a = map_filled(0, 0, 0, 1);
    let rect = Rect { left: 10, top: 0, right: 5, bottom: 20 };
    let err = composite(vec![a], &palette(), 0, &None, &Some(rect)).unwrap_err();
    assert!(matches!(*err.0, ErrorKind::GeometryError(_)));
}

#[test]
fn test_composite_short_buffer_fails() {
    let mut a = map_filled(0, 0, 0, 1);
    a.colors.truncate(100);
    let err = composite(vec![a], &palette(), 0, &None, &None).unwrap_err();
    assert!(matches!(*err.0, ErrorKind::IncompleteBufferError));
}

#[test]
fn test_filter_maps_keeps_order() {
    let a = map_filled(0, 0, 0, 1);
    let b = map_filled(1, 0, 0, 1);
    let c = map_filled(0, 128, 0, 2);
    let kept = filter_maps(vec![a, b, c], 0, &None);
    assert_eq!(kept.len(), 2);
    assert_eq!(kept[0].x_center, 0);
    assert_eq!(kept[1].x_center, 128);
}

#[test]
fn test_area_of_union() {
    let a = map_filled(0, 0, 0, 1);
    let b = map_filled(0, 128, -128, 1);
    let r = area_of(&vec![a, b]);
    assert_eq!(r, Rect { left: -64, top: -192, right: 191, bottom: 63 });
}

#[test]
fn test_paint_image_blit() {
    let mut target = Raster::new(4, 4);
    let mut source = Raster::new(2, 2);
    source.put_pixel(0, 0, red());
    source.put_pixel(1, 1, green());
    // Pixels (0, 1) and (1, 0) of the source stay transparent.
    paint_image(&source, &mut target, 1, 1);
    assert_eq!(target.get_pixel(1, 1), red());
    assert_eq!(target.get_pixel(2, 2), green());
    assert_eq!(target.get_pixel(2, 1), clear());
    assert_eq!(target.get_pixel(1, 2), clear());
    assert_eq!(target.get_pixel(0, 0), clear());
}

#[test]
fn test_paint_image_clips_outside_canvas() {
    let mut target = Raster::new(2, 2);
    let mut source = Raster::new(2, 2);
    source.put_pixel(0, 0, red());
    source.put_pixel(1, 0, green());
    source.put_pixel(0, 1, green());
    source.put_pixel(1, 1, green());
    paint_image(&source, &mut target, -1, -1);
    // Only the source's lower right pixel lands inside the canvas.
    assert_eq!(target.get_pixel(0, 0), green());
    assert_eq!(target.get_pixel(1, 0), clear());
    assert_eq!(target.get_pixel(0, 1), clear());
    assert_eq!(target.get_pixel(1, 1), clear());
}

#[test]
fn test_composite_nonzero_zoom() {
    // At zoom 1 one map covers 256 world units per axis but still renders
    // 128x128 pixels, pasted at the map's upper-left world corner.
    let a = map_filled(1, 0, 0, 1);
    let img = composite(vec![a], &palette(), 1, &None, &None).unwrap();
    assert_eq!(img.width, 256);
    assert_eq!(img.height, 256);
    assert_eq!(img.pixels[0], red());
    assert_eq!(img.pixels[127 * 256 + 127], red());
    assert_eq!(img.pixels[200 * 256 + 200], clear());
}

#[test]
fn test_snap_suggestions() {
    assert_eq!(snap_suggestions(5, 2), Some((4, 8)));
    assert_eq!(snap_suggestions(-5, 2), Some((-8, -4)));
    assert_eq!(snap_suggestions(8, 2), None);
    assert_eq!(snap_suggestions(0, 4), None);
    assert_eq!(snap_suggestions(7, 0), None);
    assert_eq!(snap_suggestions(-17, 4), Some((-32, -16)));
}
