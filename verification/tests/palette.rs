use minecraft_map_tool::palette::Palette;
use minecraft_map_tool::palette::Rgba;
use minecraft_map_tool::palette::base_colors_2699;
use minecraft_map_tool::palette::generate_palette;

fn rgba(r: u8, g: u8, b: u8, a: u8) -> Rgba {
    Rgba { r, g, b, a }
}

#[test]
fn test_generate_palette_has_256_entries() {
    let palette = generate_palette(&base_colors_2699());
    assert_eq!(palette.entries.len(), 256);
    let empty = generate_palette(&vec![]);
    assert_eq!(empty.entries.len(), 256);
}

#[test]
fn test_generate_palette_shades() {
    // Base color 1 is (127, 178, 56, 255); its four slots are 4..8 with
    // multipliers 180, 220, 255, 135 applied to the color channels.
    let palette = generate_palette(&vec![(1u8, rgba(127, 178, 56, 255))]);
    assert_eq!(palette.entries[4], rgba(89, 125, 39, 255));
    assert_eq!(palette.entries[5], rgba(109, 153, 48, 255));
    assert_eq!(palette.entries[6], rgba(127, 178, 56, 255));
    assert_eq!(palette.entries[7], rgba(67, 94, 29, 255));
}

#[test]
fn test_generate_palette_unmapped_indices_are_transparent() {
    let palette = generate_palette(&vec![(1u8, rgba(127, 178, 56, 255))]);
    for slot in 0..4 {
        assert_eq!(palette.entries[slot], rgba(0, 0, 0, 0));
    }
    for slot in 8..256 {
        assert_eq!(palette.entries[slot], rgba(0, 0, 0, 0));
    }
}

#[test]
fn test_generate_palette_preserves_alpha_and_orders_channels() {
    let palette = generate_palette(&base_colors_2699());
    for i in 0..64usize {
        let dark = palette.entries[4 * i];
        let normal = palette.entries[4 * i + 1];
        let light = palette.entries[4 * i + 2];
        let darker = palette.entries[4 * i + 3];
        // Channels fall monotonically along the multiplier order
        // 135 < 180 < 220 < 255.
        assert!(darker.r <= dark.r && dark.r <= normal.r && normal.r <= light.r);
        assert!(darker.g <= dark.g && dark.g <= normal.g && normal.g <= light.g);
        assert!(darker.b <= dark.b && dark.b <= normal.b && normal.b <= light.b);
        // Alpha is copied verbatim into every slot.
        assert_eq!(dark.a, normal.a);
        assert_eq!(normal.a, light.a);
        assert_eq!(light.a, darker.a);
    }
}

#[test]
fn test_generate_palette_deterministic() {
    let a = generate_palette(&base_colors_2699());
    let b = generate_palette(&base_colors_2699());
    assert_eq!(a.entries, b.entries);
}

#[test]
fn test_base_colors_table() {
    let table = base_colors_2699();
    assert_eq!(table.len(), 61);
    assert_eq!(table[0], (1u8, rgba(127, 178, 56, 255)));
    assert_eq!(table[60], (61u8, rgba(127, 167, 150, 255)));
}

#[test]
fn test_palette_get() {
    let palette = Palette { entries: vec![rgba(1, 2, 3, 255); 256] };
    assert_eq!(*palette.get(0), rgba(1, 2, 3, 255));
    assert_eq!(*palette.get(255), rgba(1, 2, 3, 255));
}
