use imgsearch::query::SCORE_UNIT;
use imgsearch::layout::{
    confidence_title, invalidate_image_cache, pack, CellCache, DisplaySlot, Rect, MAX_CELLS,
};

fn area() -> Rect {
    Rect::new(0, 0, 120, 30)
}

fn overlap(a: &Rect, b: &Rect) -> bool {
    let ax = a.x as u32 + a.width as u32;
    let ay = a.y as u32 + a.height as u32;
    let bx = b.x as u32 + b.width as u32;
    let by = b.y as u32 + b.height as u32;
    a.width > 0
        && a.height > 0
        && b.width > 0
        && b.height > 0
        && (a.x as u32) < bx
        && (b.x as u32) < ax
        && (a.y as u32) < by
        && (b.y as u32) < ay
}

fn regions(slots: &[DisplaySlot]) -> Vec<Rect> {
    slots.iter().map(|s| s.region).collect()
}

#[test]
fn one_result_takes_the_whole_area() {
    let slots = pack(area(), 1);
    assert_eq!(slots.len(), 1);
    assert_eq!(slots[0].region, area());
    assert_eq!(slots[0].index, 0);
    assert!(slots[0].best);
}

#[test]
fn three_results_are_left_half_right_top_right_bottom() {
    let slots = pack(area(), 3);
    assert_eq!(
        regions(&slots),
        vec![
            Rect { x: 0, y: 0, width: 60, height: 30 },
            Rect { x: 60, y: 0, width: 60, height: 15 },
            Rect { x: 60, y: 15, width: 60, height: 15 },
        ]
    );
    assert!(slots[0].best);
    assert!(!slots[1].best);
    assert!(!slots[2].best);
}

#[test]
fn no_result_gives_no_slot() {
    assert!(pack(area(), 0).is_empty());
}

#[test]
fn more_results_than_cells_are_cut_to_ten() {
    assert_eq!(MAX_CELLS, 10);
    assert_eq!(pack(area(), 11).len(), 10);
    assert_eq!(pack(area(), 20).len(), 10);
    assert_eq!(regions(&pack(area(), 500)), regions(&pack(area(), 10)));
}

#[test]
fn two_results_split_the_area_in_halves() {
    let slots = pack(Rect::new(2, 3, 81, 10), 2);
    assert_eq!(
        regions(&slots),
        vec![
            Rect { x: 2, y: 3, width: 40, height: 10 },
            Rect { x: 42, y: 3, width: 41, height: 10 },
        ]
    );
}

#[test]
fn six_results_fill_two_rows_and_open_a_third() {
    let slots = pack(area(), 6);
    assert_eq!(
        regions(&slots),
        vec![
            Rect { x: 0, y: 0, width: 60, height: 30 },
            Rect { x: 60, y: 0, width: 30, height: 10 },
            Rect { x: 90, y: 0, width: 30, height: 10 },
            Rect { x: 60, y: 10, width: 30, height: 10 },
            Rect { x: 90, y: 10, width: 30, height: 10 },
            Rect { x: 60, y: 20, width: 60, height: 10 },
        ]
    );
}

#[test]
fn ten_results_fill_three_rows_of_three() {
    let slots = pack(area(), 10);
    assert_eq!(slots.len(), 10);
    for row in 0..3u16 {
        for col in 0..3u16 {
            let slot = &slots[(1 + row * 3 + col) as usize];
            assert_eq!(
                slot.region,
                Rect { x: 60 + col * 20, y: row * 10, width: 20, height: 10 }
            );
        }
    }
}

#[test]
fn every_count_gives_that_many_regions_that_do_not_overlap() {
    for area in [area(), Rect::new(7, 5, 61, 23), Rect::new(65000, 65000, 535, 535)] {
        for n in 1..=10usize {
            let slots = pack(area, n);
            assert_eq!(slots.len(), n);
            let mut cells: u64 = 0;
            for (i, a) in slots.iter().enumerate() {
                assert_eq!(a.index, i);
                assert_eq!(a.best, i == 0);
                assert!(a.region.width > 0 && a.region.height > 0);
                assert!(a.region.x >= area.x && a.region.y >= area.y);
                assert!(
                    a.region.x as u32 + a.region.width as u32 <= area.x as u32 + area.width as u32
                );
                assert!(
                    a.region.y as u32 + a.region.height as u32
                        <= area.y as u32 + area.height as u32
                );
                cells += a.region.width as u64 * a.region.height as u64;
                for b in slots.iter().skip(i + 1) {
                    assert!(!overlap(&a.region, &b.region));
                }
            }
            assert_eq!(cells, area.width as u64 * area.height as u64);
        }
    }
}

#[test]
fn rows_hold_one_to_three_cells_and_fill_in_order() {
    let expected: [&[usize]; 9] = [
        &[1],
        &[1, 1],
        &[1, 1, 1],
        &[2, 2],
        &[2, 2, 1],
        &[2, 2, 2],
        &[3, 3, 1],
        &[3, 3, 2],
        &[3, 3, 3],
    ];
    for n in 2..=10usize {
        let slots = pack(Rect::new(0, 0, 240, 60), n);
        let mut rows: Vec<(u16, usize)> = Vec::new();
        for slot in slots.iter().skip(1) {
            match rows.last_mut() {
                Some((y, count)) if *y == slot.region.y => *count += 1,
                _ => rows.push((slot.region.y, 1)),
            }
        }
        let counts: Vec<usize> = rows.iter().map(|r| r.1).collect();
        assert_eq!(counts, expected[n - 2].to_vec());
    }
}

#[test]
fn a_tiny_area_still_gets_every_slot() {
    let slots = pack(Rect::new(0, 0, 1, 1), 10);
    assert_eq!(slots.len(), 10);
    for (i, a) in slots.iter().enumerate() {
        for b in slots.iter().skip(i + 1) {
            assert!(!overlap(&a.region, &b.region));
        }
    }
}

#[test]
fn rect_new_keeps_the_rectangle_on_the_screen() {
    assert_eq!(Rect::new(1, 2, 3, 4), Rect { x: 1, y: 2, width: 3, height: 4 });
    assert_eq!(
        Rect::new(65530, 65535, 10, 10),
        Rect { x: 65530, y: 65535, width: 5, height: 0 }
    );
}

#[test]
fn a_cell_is_encoded_again_only_when_its_size_changes() {
    let mut cell = CellCache::new();
    assert_eq!(cell.last_area, None);
    assert!(cell.refresh(Rect::new(0, 0, 10, 5)));
    assert!(!cell.refresh(Rect::new(0, 0, 10, 5)));
    assert!(!cell.refresh(Rect::new(4, 4, 10, 5)));
    assert_eq!(cell.last_area, Some(Rect::new(4, 4, 10, 5)));
    assert!(cell.refresh(Rect::new(4, 4, 11, 5)));
    assert!(cell.refresh(Rect::new(4, 4, 11, 6)));
}

#[test]
fn invalidating_forgets_every_cell() {
    let mut cells = vec![CellCache::new(), CellCache::new(), CellCache::new()];
    cells[0].refresh(Rect::new(0, 0, 1, 1));
    cells[2].refresh(Rect::new(0, 0, 2, 2));
    invalidate_image_cache(&mut cells);
    assert_eq!(cells.len(), 3);
    assert!(cells.iter().all(|c| c.last_area.is_none()));
    assert!(cells[0].refresh(Rect::new(0, 0, 1, 1)));
}

#[test]
fn titles_show_the_score_in_percent() {
    let unit = SCORE_UNIT as i64;
    let fixed = |similarity: f64| (similarity * SCORE_UNIT as f64).round() as i64;
    assert_eq!(confidence_title(fixed(0.9), true), "Highest Confidence: 90%");
    assert_eq!(confidence_title(fixed(0.4), false), "Confidence: 40%");
    assert_eq!(confidence_title(unit, false), "Confidence: 100%");
    assert_eq!(confidence_title(unit - 1, false), "Confidence: 99%");
    assert_eq!(confidence_title(fixed(0.0599), false), "Confidence: 5%");
    assert_eq!(confidence_title(unit / 100, false), "Confidence: 0%");
    assert_eq!(confidence_title(unit / 100 + 1, false), "Confidence: 1%");
    assert_eq!(confidence_title(0, false), "Confidence: 0%");
    assert_eq!(confidence_title(-fixed(0.25), true), "Highest Confidence: 0%");
    assert_eq!(confidence_title(12 * unit + unit / 2, false), "Confidence: 1250%");
    assert_eq!(confidence_title(i64::MAX, false), "Confidence: 858993459199%");
    assert_eq!(confidence_title(i64::MIN, false), "Confidence: 0%");
}
