//! The compositing engine: filters maps by scale and dimension, bounds the
//! target rectangle, and overlays each intersecting map's rendered raster
//! onto one canvas at its world-coordinate offset, skipping transparent
//! source pixels.

use crate::error::Error;
use crate::error::ErrorKind;
use crate::model::MapData;
use crate::model::spec_bottom;
use crate::model::spec_left;
use crate::model::spec_opt_str;
use crate::model::spec_pretty_dimension;
use crate::model::spec_render;
use crate::model::spec_right;
use crate::model::spec_scale_factor;
use crate::model::spec_top;
use crate::palette::Palette;
use crate::palette::Rgba;
use crate::palette::spec_transparent;
use crate::raster::Raster;
use crate::strutil::str_eq;
use vstd::arithmetic::div_mod::lemma_fundamental_div_mod_converse;
use vstd::math::max;
use vstd::math::min;
use vstd::prelude::*;

verus! {

/// A world-space rectangle; all four edges are inclusive.
#[derive(Clone, Copy, Debug, PartialEq, Eq, Structural)]
pub struct Rect {
    pub left: i64,
    pub top: i64,
    pub right: i64,
    pub bottom: i64,
}

/// What a string lowercases to; named, not written out, because the case
/// folding is std's.
pub uninterp spec fn lower_of(s: Seq<char>) -> Seq<char>;

/// Relies on `str::to_lowercase` from std: the result is a function of the
/// input characters alone.
#[verifier::external_body]
fn lowercase(s: &str) -> (r: String)
    ensures
        r@ == lower_of(s@),
{
    s.to_lowercase()
}

/// Whether a map survives the composite filter: its scale must equal the
/// target scale, and when a dimension filter is given, its pretty dimension
/// must match it case-insensitively.
pub open spec fn spec_keep(m: MapData, target_scale: i8, dim: Option<Seq<char>>) -> bool {
    m.scale == target_scale && match dim {
        None => true,
        Some(d) => lower_of(spec_pretty_dimension(m.dimension@)) == lower_of(d),
    }
}

/// The maps that survive the filter, in their given order.
pub open spec fn spec_filter_maps(
    maps: Seq<MapData>,
    target_scale: i8,
    dim: Option<Seq<char>>,
) -> Seq<MapData>
    decreases maps.len(),
{
    if maps.len() == 0 {
        Seq::empty()
    } else {
        let rest = spec_filter_maps(maps.drop_last(), target_scale, dim);
        if spec_keep(maps.last(), target_scale, dim) {
            rest.push(maps.last())
        } else {
            rest
        }
    }
}

/// Every surviving map passed the filter.
pub proof fn lemma_filter_maps_pred(
    maps: Seq<MapData>,
    target_scale: i8,
    dim: Option<Seq<char>>,
    i: int,
)
    requires
        0 <= i < spec_filter_maps(maps, target_scale, dim).len(),
    ensures
        spec_keep(spec_filter_maps(maps, target_scale, dim)[i], target_scale, dim),
    decreases maps.len(),
{
    if maps.len() > 0 {
        let rest = spec_filter_maps(maps.drop_last(), target_scale, dim);
        if i < rest.len() {
            lemma_filter_maps_pred(maps.drop_last(), target_scale, dim, i);
        }
    }
}

/// Discards every map whose scale differs from the target, and, when a
/// dimension filter is given, every map whose pretty dimension does not
/// match it case-insensitively.
pub fn filter_maps(maps: Vec<MapData>, target_scale: i8, dimension: &Option<String>) -> (kept: Vec<
    MapData,
>)
    ensures
        kept@ == spec_filter_maps(maps@, target_scale, spec_opt_str(*dimension)),
{
    let ghost orig = maps@;
    let ghost dimv = spec_opt_str(*dimension);
    let low_dim: Option<String> = match dimension {
        Some(d) => Some(lowercase(d.as_str())),
        None => None,
    };
    let mut rest = maps;
    let mut kept: Vec<MapData> = Vec::new();
    let mut i: usize = 0;
    proof {
        assert(orig.take(0) =~= Seq::<MapData>::empty());
        assert(rest@ =~= orig.skip(0));
        assert(orig.len() <= usize::MAX) by {
            assert(rest.len() == rest@.len());
        }
    }
    while rest.len() > 0
        invariant
            i <= orig.len(),
            orig.len() <= usize::MAX,
            rest@ == orig.skip(i as int),
            dimv == spec_opt_str(*dimension),
            match low_dim {
                Some(ld) => dimv matches Some(d) && ld@ == lower_of(d),
                None => dimv is None,
            },
            kept@ == spec_filter_maps(orig.take(i as int), target_scale, dimv),
        decreases rest@.len(),
    {
        let m = rest.remove(0);
        proof {
            assert(orig.skip(i as int)[0] == orig[i as int]);
            assert(orig.skip(i as int).remove(0) =~= orig.skip(i + 1));
        }
        let scale_ok = m.scale == target_scale;
        let keep = if !scale_ok {
            false
        } else {
            match &low_dim {
                None => true,
                Some(ld) => {
                    let pretty = m.pretty_dimension();
                    let low_pretty = lowercase(pretty.as_str());
                    str_eq(low_pretty.as_str(), ld.as_str())
                },
            }
        };
        proof {
            assert(keep == spec_keep(m, target_scale, dimv));
            let t = orig.take(i + 1);
            assert(t.drop_last() =~= orig.take(i as int));
            assert(t.last() == orig[i as int]);
        }
        if keep {
            kept.push(m);
        }
        i = i + 1;
    }
    proof {
        assert(orig.take(i as int) =~= orig);
    }
    kept
}

/// The union bounding rectangle of the maps' geometries: smallest left and
/// top, largest right and bottom.
pub open spec fn spec_area(maps: Seq<MapData>) -> (int, int, int, int)
    recommends
        maps.len() >= 1,
    decreases maps.len(),
{
    if maps.len() <= 1 {
        (spec_left(maps[0]), spec_top(maps[0]), spec_right(maps[0]), spec_bottom(maps[0]))
    } else {
        let prev = spec_area(maps.drop_last());
        let m = maps.last();
        (
            min(prev.0, spec_left(m)),
            min(prev.1, spec_top(m)),
            max(prev.2, spec_right(m)),
            max(prev.3, spec_bottom(m)),
        )
    }
}

/// Computes the union bounding rectangle of the given maps.
pub fn area_of(maps: &Vec<MapData>) -> (r: Rect)
    requires
        maps@.len() >= 1,
        forall|i: int| 0 <= i < maps@.len() ==> 0 <= (#[trigger] maps@[i]).scale <= 4,
    ensures
        (r.left as int, r.top as int, r.right as int, r.bottom as int) == spec_area(maps@),
{
    let first = &maps[0];
    let mut left = first.left();
    let mut top = first.top();
    let mut right = first.right();
    let mut bottom = first.bottom();
    let mut i: usize = 1;
    proof {
        assert(maps@.take(1)[0] == maps@[0]);
    }
    while i < maps.len()
        invariant
            1 <= i <= maps@.len(),
            forall|k: int| 0 <= k < maps@.len() ==> 0 <= (#[trigger] maps@[k]).scale <= 4,
            (left as int, top as int, right as int, bottom as int) == spec_area(
                maps@.take(i as int),
            ),
        decreases maps@.len() - i,
    {
        let m = &maps[i];
        let ml = m.left();
        let mt = m.top();
        let mr = m.right();
        let mb = m.bottom();
        if ml < left {
            left = ml;
        }
        if mt < top {
            top = mt;
        }
        if mr > right {
            right = mr;
        }
        if mb > bottom {
            bottom = mb;
        }
        proof {
            let t = maps@.take(i + 1);
            assert(t.drop_last() =~= maps@.take(i as int));
            assert(t.last() == maps@[i as int]);
            assert(t.len() == i + 1 >= 2);
        }
        i = i + 1;
    }
    proof {
        assert(maps@.take(i as int) =~= maps@);
    }
    Rect { left, top, right, bottom }
}

/// The canvas after one source raster is stamped at offset `(ox, oy)`:
/// each destination pixel covered by an opaque source pixel takes that
/// pixel; every other destination pixel keeps its old value.
pub open spec fn spec_blit(
    dst: Seq<Rgba>,
    dw: int,
    src: Seq<Rgba>,
    sw: int,
    sh: int,
    ox: int,
    oy: int,
) -> Seq<Rgba> {
    Seq::new(
        dst.len(),
        |k: int|
            {
                let sx = k % dw - ox;
                let sy = k / dw - oy;
                if 0 <= sx < sw && 0 <= sy < sh && src[sy * sw + sx].a != 0 {
                    src[sy * sw + sx]
                } else {
                    dst[k]
                }
            },
    )
}

/// The canvas after only the source pixels before row `py`, plus those in
/// row `py` before column `px`, have been stamped.
spec fn spec_blit_upto(
    dst: Seq<Rgba>,
    dw: int,
    src: Seq<Rgba>,
    sw: int,
    sh: int,
    ox: int,
    oy: int,
    py: int,
    px: int,
) -> Seq<Rgba> {
    Seq::new(
        dst.len(),
        |k: int|
            {
                let sx = k % dw - ox;
                let sy = k / dw - oy;
                if 0 <= sx < sw && 0 <= sy < sh && (sy < py || (sy == py && sx < px)) && src[sy * sw
                    + sx].a != 0 {
                    src[sy * sw + sx]
                } else {
                    dst[k]
                }
            },
    )
}

/// Paints `source` onto `target` with its upper-left corner at `(x, y)`,
/// skipping destination pixels outside the canvas and fully transparent
/// source pixels; opaque source pixels always overwrite.
pub fn paint_image(source: &Raster, target: &mut Raster, x: i128, y: i128)
    requires
        source.wf(),
        old(target).wf(),
        -0x1_0000_0000_0000_0000 <= x <= 0x1_0000_0000_0000_0000,
        -0x1_0000_0000_0000_0000 <= y <= 0x1_0000_0000_0000_0000,
    ensures
        final(target).wf(),
        final(target).width == old(target).width,
        final(target).height == old(target).height,
        final(target).pixels@ == spec_blit(
            old(target).pixels@,
            old(target).width as int,
            source.pixels@,
            source.width as int,
            source.height as int,
            x as int,
            y as int,
        ),
{
    let ghost dst0 = target.pixels@;
    let ghost dw = target.width as int;
    let ghost dh = target.height as int;
    let ghost src = source.pixels@;
    let ghost sw = source.width as int;
    let ghost sh = source.height as int;
    if target.width == 0 || target.height == 0 {
        proof {
            assert(dw * dh == 0) by (nonlinear_arith)
                requires
                    dw == 0 || dh == 0,
            ;
            assert(dst0.len() == 0);
            assert(target.pixels@ =~= spec_blit(dst0, dw, src, sw, sh, x as int, y as int));
        }
        return ;
    }
    let mut in_y: usize = 0;
    proof {
        assert(target.pixels@ =~= spec_blit_upto(dst0, dw, src, sw, sh, x as int, y as int, 0, 0));
    }
    while in_y < source.height
        invariant
            source.wf(),
            -0x1_0000_0000_0000_0000 <= x <= 0x1_0000_0000_0000_0000,
            -0x1_0000_0000_0000_0000 <= y <= 0x1_0000_0000_0000_0000,
            in_y <= sh,
            sw == source.width as int,
            sh == source.height as int,
            src == source.pixels@,
            dw == target.width as int,
            dh == target.height as int,
            dw >= 1,
            dh >= 1,
            target.wf(),
            target.pixels@ == spec_blit_upto(
                dst0,
                dw,
                src,
                sw,
                sh,
                x as int,
                y as int,
                in_y as int,
                0,
            ),
        decreases sh - in_y,
    {
        let mut in_x: usize = 0;
        while in_x < source.width
            invariant
                source.wf(),
                -0x1_0000_0000_0000_0000 <= x <= 0x1_0000_0000_0000_0000,
                -0x1_0000_0000_0000_0000 <= y <= 0x1_0000_0000_0000_0000,
                in_y < sh,
                in_x <= sw,
                sw == source.width as int,
                sh == source.height as int,
                src == source.pixels@,
                dw == target.width as int,
                dh == target.height as int,
                dw >= 1,
                dh >= 1,
                target.wf(),
                target.pixels@ == spec_blit_upto(
                    dst0,
                    dw,
                    src,
                    sw,
                    sh,
                    x as int,
                    y as int,
                    in_y as int,
                    in_x as int,
                ),
            decreases sw - in_x,
        {
            let ghost pre = target.pixels@;
            let out_x: i128 = in_x as i128 + x;
            let out_y: i128 = in_y as i128 + y;
            let pixel = source.get_pixel(in_x, in_y);
            let skip_outside = out_x < 0 || out_y < 0 || out_x >= target.width as i128 || out_y
                >= target.height as i128;
            if !skip_outside && pixel.a != 0 {
                let ox = out_x as usize;
                let oy = out_y as usize;
                target.put_pixel(ox, oy, pixel);
                proof {
                    let k = oy as int * dw + ox as int;
                    crate::raster::lemma_row_major_index(dw, dh, ox as int, oy as int);
                    lemma_fundamental_div_mod_converse(k, dw, oy as int, ox as int);
                    assert(target.pixels@ =~= spec_blit_upto(
                        dst0,
                        dw,
                        src,
                        sw,
                        sh,
                        x as int,
                        y as int,
                        in_y as int,
                        in_x + 1,
                    )) by {
                        assert forall|q: int| 0 <= q < dst0.len() implies target.pixels@[q]
                            == spec_blit_upto(
                            dst0,
                            dw,
                            src,
                            sw,
                            sh,
                            x as int,
                            y as int,
                            in_y as int,
                            in_x + 1,
                        )[q] by {
                            vstd::arithmetic::div_mod::lemma_fundamental_div_mod(q, dw);
                            if q != k {
                                assert(target.pixels@[q] == pre[q]);
                                assert(q % dw - x as int != in_x as int || q / dw - y as int
                                    != in_y as int) by {
                                    if q % dw - x as int == in_x as int && q / dw - y as int
                                        == in_y as int {
                                        assert(q == (q / dw) * dw + q % dw);
                                        assert(q == k);
                                    }
                                };
                            } else {
                                assert(target.pixels@[k] == pixel);
                                assert(k % dw == ox as int && k / dw == oy as int);
                            }
                        }
                    };
                }
            } else {
                proof {
                    assert(target.pixels@ =~= spec_blit_upto(
                        dst0,
                        dw,
                        src,
                        sw,
                        sh,
                        x as int,
                        y as int,
                        in_y as int,
                        in_x + 1,
                    )) by {
                        assert forall|q: int| 0 <= q < dst0.len() implies target.pixels@[q]
                            == spec_blit_upto(
                            dst0,
                            dw,
                            src,
                            sw,
                            sh,
                            x as int,
                            y as int,
                            in_y as int,
                            in_x + 1,
                        )[q] by {
                            vstd::arithmetic::div_mod::lemma_fundamental_div_mod(q, dw);
                            vstd::arithmetic::div_mod::lemma_mod_bound(q, dw);
                            vstd::arithmetic::div_mod::lemma_div_pos_is_pos(q, dw);
                            vstd::arithmetic::div_mod::lemma_div_is_ordered(q, dst0.len() as int - 1, dw);
                            if q % dw - x as int == in_x as int && q / dw - y as int == in_y as int {
                                if pixel.a != 0 {
                                    assert(q % dw == out_x as int && q / dw == out_y as int);
                                    assert(0 <= q % dw < dw && 0 <= q / dw < dh) by {
                                        assert(dst0.len() == dw * dh);
                                        assert(q <= dw * dh - 1);
                                        assert((dw * dh - 1) / dw == dh - 1) by (nonlinear_arith)
                                            requires
                                                dw >= 1,
                                                dh >= 1,
                                        ;
                                    };
                                    assert(!skip_outside);
                                    assert(false);
                                }
                            }
                        }
                    };
                }
            }
            in_x = in_x + 1;
        }
        proof {
            assert(spec_blit_upto(
                dst0,
                dw,
                src,
                sw,
                sh,
                x as int,
                y as int,
                in_y as int,
                sw,
            ) =~= spec_blit_upto(dst0, dw, src, sw, sh, x as int, y as int, in_y + 1, 0));
        }
        in_y = in_y + 1;
    }
    proof {
        assert(spec_blit_upto(dst0, dw, src, sw, sh, x as int, y as int, sh, 0) =~= spec_blit(
            dst0,
            dw,
            src,
            sw,
            sh,
            x as int,
            y as int,
        ));
    }
}

/// Whether a map's bounding box overlaps the target rectangle.
pub open spec fn spec_intersects(m: MapData, l: int, t: int, r: int, b: int) -> bool {
    spec_left(m) <= r && spec_top(m) <= b && spec_right(m) >= l && spec_bottom(m) >= t
}

/// The canvas that overlaying the maps in order produces: a transparent
/// canvas for the rectangle, with each intersecting map's rendering stamped
/// at its world offset, later maps winning where they overlap.
pub open spec fn spec_overlay(
    maps: Seq<MapData>,
    pal: Seq<Rgba>,
    l: int,
    t: int,
    r: int,
    b: int,
) -> Seq<Rgba>
    decreases maps.len(),
{
    if maps.len() == 0 {
        Seq::new(((r - l + 1) * (b - t + 1)) as nat, |k: int| spec_transparent())
    } else {
        let prev = spec_overlay(maps.drop_last(), pal, l, t, r, b);
        let m = maps.last();
        if spec_intersects(m, l, t, r, b) {
            spec_blit(
                prev,
                r - l + 1,
                spec_render(m.colors@, pal),
                128,
                128,
                spec_left(m) - l,
                spec_top(m) - t,
            )
        } else {
            prev
        }
    }
}

/// Every map that intersects the rectangle has a full color buffer, so its
/// rendering cannot fail.
pub open spec fn spec_all_complete(maps: Seq<MapData>, l: int, t: int, r: int, b: int) -> bool {
    forall|i: int|
        0 <= i < maps.len() && spec_intersects(#[trigger] maps[i], l, t, r, b) ==> maps[i].colors@.len()
            >= 16384
}

/// The rectangle the composite draws: the caller's explicit rectangle when
/// given, else the union bounding rectangle of the surviving maps.
pub open spec fn spec_used_rect(kept: Seq<MapData>, target_rect: Option<Rect>) -> (
    int,
    int,
    int,
    int,
) {
    match target_rect {
        Some(rc) => (rc.left as int, rc.top as int, rc.right as int, rc.bottom as int),
        None => spec_area(kept),
    }
}

/// A nonempty union rectangle is never inverted.
proof fn lemma_area_valid(maps: Seq<MapData>)
    requires
        maps.len() >= 1,
        forall|i: int| 0 <= i < maps.len() ==> 0 <= (#[trigger] maps[i]).scale <= 4,
    ensures
        spec_area(maps).0 <= spec_area(maps).2,
        spec_area(maps).1 <= spec_area(maps).3,
    decreases maps.len(),
{
    if maps.len() == 1 {
        crate::model::lemma_bounding_box_square(maps[0]);
    } else {
        lemma_area_valid(maps.drop_last());
        crate::model::lemma_bounding_box_square(maps.last());
    }
}

/// Whether the composite succeeds: at least one map survives the filter,
/// the target rectangle is not degenerate, the canvas fits in memory, and
/// every intersecting map has a full color buffer.
pub open spec fn spec_composite_ok(kept: Seq<MapData>, target_rect: Option<Rect>) -> bool {
    let (l, t, r, b) = spec_used_rect(kept, target_rect);
    let w = r - l + 1;
    let h = b - t + 1;
    kept.len() > 0 && w > 0 && h > 0 && w * h <= usize::MAX && spec_all_complete(kept, l, t, r, b)
}

/// Overlays every surviving map onto one canvas: maps are filtered by scale
/// and dimension, the target rectangle is the given one or the union of the
/// survivors' boxes, and each survivor whose box overlaps the rectangle is
/// rendered and painted in order, later maps winning where they overlap.
///
/// Fails with a geometry error when no map survives the filter, when an
/// explicit rectangle is inverted, or when the canvas would not fit in
/// memory; fails with an incomplete-buffer error when an intersecting
/// survivor has a short color buffer.
#[verifier::loop_isolation(false)]
pub fn composite(
    maps: Vec<MapData>,
    palette: &Palette,
    target_scale: i8,
    dimension: &Option<String>,
    target_rect: &Option<Rect>,
) -> (res: Result<Raster, Error>)
    requires
        palette.wf(),
        0 <= target_scale <= 4,
    ensures
        ({
            let kept = spec_filter_maps(maps@, target_scale, spec_opt_str(*dimension));
            let (l, t, r, b) = spec_used_rect(kept, *target_rect);
            &&& (res is Ok <==> spec_composite_ok(kept, *target_rect))
            &&& (res matches Ok(img) ==> img.wf() && img.width == r - l + 1 && img.height == b - t
                + 1 && img.pixels@ == spec_overlay(kept, palette.entries@, l, t, r, b))
            &&& (res matches Err(e) ==> (if kept.len() > 0 && r - l + 1 > 0 && b - t + 1 > 0 && (r
                - l + 1) * (b - t + 1) <= usize::MAX {
                e.spec_kind() == ErrorKind::IncompleteBufferError
            } else {
                e.spec_kind() matches ErrorKind::GeometryError(_)
            }))
        }),
{
    let ghost dimv = spec_opt_str(*dimension);
    let ghost kept_s = spec_filter_maps(maps@, target_scale, dimv);
    let kept = filter_maps(maps, target_scale, dimension);
    if kept.len() == 0 {
        return Err(Error::new(ErrorKind::GeometryError("No map files after filtering")));
    }
    proof {
        assert forall|i: int| 0 <= i < kept@.len() implies 0 <= (#[trigger] kept@[i]).scale
            <= 4 by {
            lemma_filter_maps_pred(maps@, target_scale, dimv, i);
        }
    }
    let rect = match target_rect {
        Some(rc) => {
            if rc.right < rc.left || rc.bottom < rc.top {
                return Err(Error::new(ErrorKind::GeometryError("degenerate target rectangle")));
            }
            *rc
        },
        None => {
            let a = area_of(&kept);
            proof {
                lemma_area_valid(kept@);
            }
            a
        },
    };
    let ghost l = rect.left as int;
    let ghost t = rect.top as int;
    let ghost r = rect.right as int;
    let ghost b = rect.bottom as int;
    let w128: i128 = rect.right as i128 - rect.left as i128 + 1;
    let h128: i128 = rect.bottom as i128 - rect.top as i128 + 1;
    if w128 > usize::MAX as i128 || h128 > usize::MAX as i128 {
        proof {
            assert((r - l + 1) * (b - t + 1) > usize::MAX) by (nonlinear_arith)
                requires
                    r - l + 1 >= 1,
                    b - t + 1 >= 1,
                    (r - l + 1 > usize::MAX || b - t + 1 > usize::MAX),
            ;
        }
        return Err(Error::new(ErrorKind::GeometryError("target image too large")));
    }
    let wu: u128 = w128 as u128;
    let hu: u128 = h128 as u128;
    proof {
        assert(wu * hu <= 0xffff_ffff_ffff_ffff * 0xffff_ffff_ffff_ffff) by (nonlinear_arith)
            requires
                wu <= 0xffff_ffff_ffff_ffff,
                hu <= 0xffff_ffff_ffff_ffff,
        ;
    }
    if wu * hu > usize::MAX as u128 {
        return Err(Error::new(ErrorKind::GeometryError("target image too large")));
    }
    let width = wu as usize;
    let height = hu as usize;
    let mut canvas = Raster::new(width, height);
    proof {
        assert(canvas.pixels@ =~= spec_overlay(kept_s.take(0), palette.entries@, l, t, r, b)) by {
            assert(kept_s.take(0) =~= Seq::<MapData>::empty());
        }
    }
    let mut i: usize = 0;
    let n = kept.len();
    while i < n
        invariant
            i <= n,
            n == kept@.len(),
            kept@ == kept_s,
            palette.wf(),
            forall|k: int| 0 <= k < kept@.len() ==> 0 <= (#[trigger] kept@[k]).scale <= 4,
            l == rect.left as int && t == rect.top as int && r == rect.right as int && b
                == rect.bottom as int,
            (l, t, r, b) == spec_used_rect(kept_s, *target_rect),
            kept_s.len() > 0,
            r - l + 1 >= 1,
            b - t + 1 >= 1,
            (r - l + 1) * (b - t + 1) <= usize::MAX,
            width as int == r - l + 1,
            height as int == b - t + 1,
            canvas.wf(),
            canvas.width == width,
            canvas.height == height,
            canvas.pixels@ == spec_overlay(kept_s.take(i as int), palette.entries@, l, t, r, b),
            forall|j: int|
                0 <= j < i && spec_intersects(#[trigger] kept_s[j], l, t, r, b)
                    ==> kept_s[j].colors@.len() >= 16384,
        decreases n - i,
    {
        let m = &kept[i];
        let ml = m.left();
        let mt = m.top();
        let mr = m.right();
        let mb = m.bottom();
        let ghost pre = canvas.pixels@;
        if ml <= rect.right && mt <= rect.bottom && mr >= rect.left && mb >= rect.top {
            let img = match m.render(palette) {
                Ok(img) => img,
                Err(e) => {
                    proof {
                        assert(spec_intersects(kept_s[i as int], l, t, r, b));
                        assert(!spec_all_complete(kept_s, l, t, r, b));
                    }
                    return Err(e);
                },
            };
            paint_image(&img, &mut canvas, ml as i128 - rect.left as i128, mt as i128
                - rect.top as i128);
            proof {
                let tk = kept_s.take(i + 1);
                assert(tk.drop_last() =~= kept_s.take(i as int));
                assert(tk.last() == kept_s[i as int]);
            }
        } else {
            proof {
                let tk = kept_s.take(i + 1);
                assert(tk.drop_last() =~= kept_s.take(i as int));
                assert(tk.last() == kept_s[i as int]);
                assert(!spec_intersects(kept_s[i as int], l, t, r, b));
            }
        }
        i = i + 1;
    }
    proof {
        assert(kept_s.take(n as int) =~= kept_s);
    }
    Ok(canvas)
}

/// For exact pixel alignment an explicit target rectangle's edges should
/// fall on multiples of `2^scale`.  For an edge off that grid this gives
/// the two nearest on-grid values around it (computed via the Euclidean
/// remainder); an edge already on the grid yields nothing.
pub fn snap_suggestions(edge: i64, scale: i8) -> (r: Option<(i64, i64)>)
    requires
        0 <= scale <= 4,
        -0x7fff_ffff_ffff_ff00 <= edge <= 0x7fff_ffff_ffff_ff00,
    ensures
        ({
            let s = spec_scale_factor(scale as int);
            match r {
                None => edge as int % s == 0,
                Some((lo, hi)) => edge as int % s != 0 && lo as int == edge - edge as int % s
                    && hi as int == lo + s && lo < edge < hi,
            }
        }),
{
    let s = crate::model::scale_factor(scale);
    let rem = match edge.checked_rem_euclid(s) {
        Some(v) => v,
        None => {
            proof {
                assert(false);
            }
            0
        },
    };
    if rem == 0 {
        None
    } else {
        let lo = edge - rem;
        Some((lo, lo + s))
    }
}

/// Later maps win: when two maps share the same geometry and both render an
/// opaque pixel at some position of the canvas, overlaying them in the
/// order first-then-second leaves the second map's pixel there.
pub proof fn lemma_later_map_wins(
    a: MapData,
    b: MapData,
    pal: Seq<Rgba>,
    l: int,
    t: int,
    r: int,
    bo: int,
    k: int,
)
    requires
        a.scale == b.scale,
        a.x_center == b.x_center,
        a.z_center == b.z_center,
        spec_intersects(b, l, t, r, bo),
        l <= r,
        t <= bo,
        0 <= k < (r - l + 1) * (bo - t + 1),
        ({
            let sx = k % (r - l + 1) - (spec_left(b) - l);
            let sy = k / (r - l + 1) - (spec_top(b) - t);
            &&& 0 <= sx < 128
            &&& 0 <= sy < 128
            &&& spec_render(a.colors@, pal)[sy * 128 + sx].a != 0
            &&& spec_render(b.colors@, pal)[sy * 128 + sx].a != 0
        }),
    ensures
        ({
            let sx = k % (r - l + 1) - (spec_left(b) - l);
            let sy = k / (r - l + 1) - (spec_top(b) - t);
            spec_overlay(seq![a, b], pal, l, t, r, bo)[k] == spec_render(b.colors@, pal)[sy * 128
                + sx]
        }),
{
    let two = seq![a, b];
    assert(two.drop_last() =~= seq![a]);
    assert(seq![a].drop_last() =~= Seq::<MapData>::empty());
    let blank = spec_overlay(Seq::<MapData>::empty(), pal, l, t, r, bo);
    assert(blank.len() == (r - l + 1) * (bo - t + 1));
    let after_a = spec_overlay(seq![a], pal, l, t, r, bo);
    assert(after_a.len() == (r - l + 1) * (bo - t + 1));
    let result = spec_overlay(two, pal, l, t, r, bo);
    assert(result == spec_blit(
        after_a,
        r - l + 1,
        spec_render(b.colors@, pal),
        128,
        128,
        spec_left(b) - l,
        spec_top(b) - t,
    ));
}

} // verus!
