use tilegrabber::geotiff_plan::{column_spans, row_source, strip_rows, ColumnSpan, TargetCrs};
use tilegrabber::gcj02_plan::{
    batch_source_keys, blit, composite_order, source_pieces, tile_shift, Blit, TileShift,
};

#[test]
fn shifts_split_euclidean() {
    assert_eq!(tile_shift(300, -10), TileShift { tile_off_x: 1, tile_off_y: -1, sub_x: 44, sub_y: 246 });
    assert_eq!(tile_shift(0, -256), TileShift { tile_off_x: 0, tile_off_y: -1, sub_x: 0, sub_y: 0 });
    assert_eq!(tile_shift(-1, 255), TileShift { tile_off_x: -1, tile_off_y: 0, sub_x: 255, sub_y: 255 });
    assert_eq!(tile_shift(i32::MIN, i32::MAX).tile_off_x, -8388608);
}

#[test]
fn pieces_and_blits() {
    let s = tile_shift(300, -10);
    let p = source_pieces(10, 20, &s);
    let cells: Vec<(i64, i64)> = p.iter().map(|q| (q.sx, q.sy)).collect();
    assert_eq!(cells, vec![(11, 19), (12, 19), (11, 20), (12, 20)]);
    assert_eq!(p[0].blit, Blit { dst_x0: 0, dst_y0: 0, src_x0: 44, src_y0: 246, w: 212, h: 10 });
    assert_eq!(p[3].blit, Blit { dst_x0: 212, dst_y0: 10, src_x0: 0, src_y0: 0, w: 44, h: 246 });
    assert_eq!(blit(1, 0, &tile_shift(0, 0)).w, 0);

    // sources off the grid are left out
    let p = source_pieces(0, 0, &tile_shift(-300, 0));
    assert!(p.is_empty());
}

#[test]
fn batch_reads_each_tile_once() {
    let s = tile_shift(10, -10);
    let keys = batch_source_keys(&vec![(5, 3, 3, s), (5, 4, 3, s), (4, 0, 0, s)]);
    assert_eq!(
        keys,
        vec![(4, 0, 0), (4, 1, 0), (5, 3, 2), (5, 3, 3), (5, 4, 2), (5, 4, 3), (5, 5, 2), (5, 5, 3)]
    );
}

#[test]
fn rewriting_order() {
    let r = composite_order(vec![(3, 1, 1), (3, 0, 5), (3, 1, 7), (3, 0, 2), (4, 0, 5)]);
    assert_eq!(r, vec![(3, 0, 5), (4, 0, 5), (3, 0, 2), (3, 1, 7), (3, 1, 1)]);
}

#[test]
fn geotiff_strip_layout() {
    assert_eq!(strip_rows(600, 0), 256);
    assert_eq!(strip_rows(600, 512), 88);
    assert_eq!(row_source(100, 200), (1, 44));
    let spans = column_spans(3, 100, 500);
    assert_eq!(
        spans,
        vec![
            ColumnSpan { tile_col: 0, src_x: 100, dst_x: 0, width: 156 },
            ColumnSpan { tile_col: 1, src_x: 0, dst_x: 156, width: 256 },
            ColumnSpan { tile_col: 2, src_x: 0, dst_x: 412, width: 88 },
        ]
    );
    assert_eq!(spans.iter().map(|s| s.width).sum::<u32>(), 500);
    assert!(column_spans(2, 600, 10).is_empty());
}

#[test]
fn geotiff_target_crs_from_epsg() {
    assert_eq!(TargetCrs::from_epsg(3857), TargetCrs::WebMercator);
    assert_eq!(TargetCrs::from_epsg(32650), TargetCrs::Utm { zone: 50, north: true, epsg: 32650 });
    assert_eq!(TargetCrs::from_epsg(32601), TargetCrs::Utm { zone: 1, north: true, epsg: 32601 });
    assert_eq!(TargetCrs::from_epsg(32760), TargetCrs::Utm { zone: 60, north: false, epsg: 32760 });
    assert_eq!(TargetCrs::from_epsg(32661), TargetCrs::Geographic { epsg: 32661 });
    assert_eq!(TargetCrs::from_epsg(4490), TargetCrs::Geographic { epsg: 4490 });
    assert_eq!(TargetCrs::WebMercator.pixel_crs(), "merc");
    assert_eq!(TargetCrs::from_epsg(32633).pixel_crs(), "geo");
    assert_eq!(TargetCrs::from_epsg(4326).pixel_crs(), "geo");
}
