use needle_layout::error::LayoutError;
use needle_layout::layout::Layout;
use needle_layout::needles::{build_needles, Needle};
use needle_layout::optimize::ShiftRange;
use needle_layout::template;

fn plain() -> Layout {
    Layout::new(vec![0, 10, 20], vec![0, 10, 20], 10, 1).unwrap()
}

fn plain_four() -> Layout {
    Layout::new(vec![0, 1000, 2000, 3000], vec![0, 1000, 2000, 3000], 100, 50).unwrap()
}

fn skewed() -> Layout {
    Layout::new(vec![0, 1000, 2000, 3000], vec![100, 1200, 2100, 3300], 100, 50).unwrap()
}

fn pair() -> Vec<Needle> {
    vec![
        Needle { index: 1, y: 30, height: 20 },
        Needle { index: 2, y: 30, height: 20 },
    ]
}

fn range(first: i32, last: i32, step: i32) -> ShiftRange {
    ShiftRange::new(first, last, step).unwrap()
}

#[test]
fn shift_range_new_keeps_its_bounds() {
    let r = range(1560, 1790, 10);
    assert_eq!(r.first(), 1560);
    assert_eq!(r.last(), 1790);
    assert_eq!(r.step(), 10);
    assert!(ShiftRange::new(5, 5, 1).is_ok());
    assert!(ShiftRange::new(-7, -3, 100).is_ok());
}

#[test]
fn shift_range_new_refuses_a_step_that_is_not_positive() {
    assert!(matches!(ShiftRange::new(1, 10, 0), Err(LayoutError::InvalidConfiguration)));
    assert!(matches!(ShiftRange::new(1, 10, -1), Err(LayoutError::InvalidConfiguration)));
}

#[test]
fn shift_range_new_refuses_a_range_without_candidates() {
    assert!(matches!(ShiftRange::new(11, 10, 1), Err(LayoutError::InvalidConfiguration)));
}

#[test]
fn template_shift_range_runs_from_1560_to_1790() {
    let r = template::shift_range();
    assert_eq!(r.first(), 1560);
    assert_eq!(r.last(), 1790);
    assert_eq!(r.step(), 10);
}

#[test]
fn min_space_is_the_width_of_the_narrowest_room() {
    let layout = plain_four();
    let needles = pair();
    assert_eq!(layout.min_space(3, &needles, 750), Ok(40000));
    assert_eq!(layout.min_space(3, &needles, 1000), Ok(90000));
    // 65000 for the first needle, 40000 for the second
    assert_eq!(layout.min_space(3, &needles, 1250), Ok(40000));
    assert_eq!(layout.min_space(3, &needles, 250), Ok(-60000));
    let layout = skewed();
    let needles = vec![
        Needle { index: 1, y: 30, height: 20 },
        Needle { index: 2, y: 10, height: 20 },
    ];
    assert_eq!(layout.min_space(3, &needles, 800), Ok(43000));
    assert_eq!(layout.min_space(3, &needles, 1000), Ok(83000));
    assert_eq!(layout.min_space(3, &needles, 1100), Ok(70000));
    assert_eq!(layout.min_space(3, &needles, 1300), Ok(30000));
}

#[test]
fn min_space_does_not_depend_on_the_order_of_the_needles() {
    let layout = template::layout();
    let needles = build_needles(&template::layering()).unwrap();
    let mut turned = needles.clone();
    turned.reverse();
    for shift in [1560, 1660, 1790] {
        assert_eq!(
            layout.min_space(3, &needles, shift),
            layout.min_space(3, &turned, shift)
        );
    }
}

#[test]
fn min_space_is_attained_and_is_a_lower_bound() {
    let layout = template::layout();
    let needles = build_needles(&template::layering()).unwrap();
    for shift in [1560, 1660, 1700, 1790] {
        let least = layout.min_space(3, &needles, shift).unwrap();
        let widths: Vec<i128> = needles
            .iter()
            .map(|n| layout.needle_space(3, n.index, n.y, shift, n.height).unwrap().width())
            .collect();
        assert!(widths.iter().all(|w| least <= *w));
        assert!(widths.iter().any(|w| least == *w));
    }
}

#[test]
fn min_space_of_one_needle_is_its_own_width() {
    let layout = template::layout();
    let needle = Needle { index: 7, y: 5000, height: 1000 };
    let room = layout.needle_space(3, 7, 5000, 1620, 1000).unwrap();
    assert!(room.is_feasible());
    assert_eq!(room.width(), 13_690_000);
    assert_eq!(layout.min_space(3, &vec![needle], 1620), Ok(13_690_000));
}

#[test]
fn min_space_refuses_an_empty_population() {
    let layout = template::layout();
    assert_eq!(layout.min_space(3, &vec![], 1660), Err(LayoutError::EmptyPopulation));
}

#[test]
fn min_space_refuses_a_needle_on_the_last_grid_line() {
    let layout = template::layout();
    let needles = vec![
        Needle { index: 3, y: 100, height: 100 },
        Needle { index: 17, y: 100, height: 100 },
        Needle { index: 4, y: 100, height: 100 },
    ];
    assert_eq!(layout.min_space(3, &needles, 1660), Err(LayoutError::InvalidIndex));
}

#[test]
fn min_space_names_the_window_before_the_population() {
    let layout = template::layout();
    assert_eq!(layout.min_space(0, &vec![], 1660), Err(LayoutError::InvalidConfiguration));
    let needles = vec![Needle { index: 99, y: 0, height: 1 }];
    assert_eq!(layout.min_space(0, &needles, 1660), Err(LayoutError::InvalidConfiguration));
}

#[test]
fn optimal_shift_on_the_template_is_1660() {
    let layout = template::layout();
    let needles = build_needles(&template::layering()).unwrap();
    let shift = layout.optimal_shift(template::COUNT, &needles, &template::shift_range());
    assert_eq!(shift, Ok(1660));
    assert_eq!(layout.min_space(template::COUNT, &needles, 1660), Ok(12_330_610));
}

#[test]
fn optimal_shift_gives_the_same_answer_each_time() {
    let layout = template::layout();
    let needles = build_needles(&template::layering()).unwrap();
    let range = template::shift_range();
    let first = layout.optimal_shift(3, &needles, &range);
    let second = layout.optimal_shift(3, &needles, &range);
    assert_eq!(first, second);
    let again = template::layout().optimal_shift(
        3,
        &build_needles(&template::layering()).unwrap(),
        &template::shift_range(),
    );
    assert_eq!(first, again);
}

#[test]
fn optimal_shift_maximises_the_narrowest_room() {
    let layout = template::layout();
    let needles = build_needles(&template::layering()).unwrap();
    let widths: Vec<i128> = (1560..=1790)
        .step_by(10)
        .map(|shift| layout.min_space(3, &needles, shift).unwrap())
        .collect();
    assert_eq!(widths[0], 9_974_600);
    assert_eq!(widths[9], 12_224_600);
    assert_eq!(widths[10], 12_330_610);
    assert_eq!(widths[11], 12_273_010);
    assert_eq!(widths[23], 9_611_800);
    // The narrowest room grows up to the optimum and shrinks after it.
    for k in 0..10 {
        assert!(widths[k] < widths[k + 1]);
    }
    for k in 10..23 {
        assert!(widths[k] > widths[k + 1]);
    }
}

#[test]
fn optimal_shift_sweep_on_a_small_table_has_one_peak() {
    let layout = plain_four();
    let needles = vec![Needle { index: 2, y: 30, height: 20 }];
    let widths: Vec<i128> = (0..=2000)
        .step_by(250)
        .map(|shift| layout.min_space(3, &needles, shift).unwrap())
        .collect();
    assert_eq!(
        widths,
        vec![-110000, -60000, -10000, 40000, 90000, 40000, -10000, -60000, -110000]
    );
    assert_eq!(layout.optimal_shift(3, &needles, &range(0, 2000, 250)), Ok(1000));
}

#[test]
fn optimal_shift_takes_the_first_of_equal_candidates() {
    // A window of one line does not feel the shift: every candidate ties.
    let layout = plain();
    let needles = vec![Needle { index: 0, y: 5, height: 3 }];
    assert_eq!(layout.optimal_shift(1, &needles, &range(2, 9, 1)), Ok(2));
    // 750 and 1250 both leave 40000.
    let layout = plain_four();
    assert_eq!(layout.optimal_shift(3, &pair(), &range(750, 1250, 500)), Ok(750));
    // The tie is below the peak: the peak wins.
    assert_eq!(layout.optimal_shift(3, &pair(), &range(750, 1250, 250)), Ok(1000));
}

#[test]
fn optimal_shift_stops_at_the_last_candidate_within_the_range() {
    let layout = plain_four();
    // Candidates 0, 400, 800: 1200 is beyond 1000.
    assert_eq!(layout.optimal_shift(3, &pair(), &range(0, 1000, 400)), Ok(800));
    assert_eq!(layout.optimal_shift(3, &pair(), &range(1000, 1000, 7)), Ok(1000));
    assert_eq!(
        layout.optimal_shift(3, &pair(), &range(i32::MAX - 1, i32::MAX, i32::MAX)),
        Err(LayoutError::InfeasibleSpacing)
    );
}

#[test]
fn optimal_shift_of_one_needle() {
    let layout = template::layout();
    let needles = vec![Needle { index: 7, y: 5000, height: 1000 }];
    // 13980000 is reached at 1640 first and held up to 1670.
    assert_eq!(
        layout.optimal_shift(3, &needles, &template::shift_range()),
        Ok(1640)
    );
    assert_eq!(layout.min_space(3, &needles, 1640), Ok(13_980_000));
    assert_eq!(layout.min_space(3, &needles, 1630), Ok(13_905_000));
    assert_eq!(layout.min_space(3, &needles, 1670), Ok(13_980_000));
}

#[test]
fn optimal_shift_reports_infeasible_spacing() {
    let layout = plain_four();
    let needles = vec![Needle { index: 2, y: 30, height: 20 }];
    assert_eq!(
        layout.optimal_shift(3, &needles, &range(0, 500, 250)),
        Err(LayoutError::InfeasibleSpacing)
    );
}

#[test]
fn optimal_shift_counts_a_room_of_no_width_as_infeasible() {
    let layout = plain_four();
    let needles = vec![Needle { index: 2, y: 30, height: 20 }];
    assert_eq!(layout.min_space(3, &needles, 550), Ok(0));
    assert_eq!(
        layout.optimal_shift(3, &needles, &range(540, 550, 1)),
        Err(LayoutError::InfeasibleSpacing)
    );
    assert_eq!(layout.min_space(3, &needles, 551), Ok(200));
    assert_eq!(layout.optimal_shift(3, &needles, &range(540, 551, 1)), Ok(551));
}

#[test]
fn optimal_shift_refuses_an_empty_population() {
    let layout = template::layout();
    assert_eq!(
        layout.optimal_shift(3, &vec![], &template::shift_range()),
        Err(LayoutError::EmptyPopulation)
    );
}

#[test]
fn optimal_shift_refuses_a_needle_that_the_table_cannot_bear() {
    let layout = plain_four();
    let needles = vec![
        Needle { index: 1, y: 30, height: 20 },
        Needle { index: 3, y: 30, height: 20 },
    ];
    assert_eq!(
        layout.optimal_shift(3, &needles, &range(0, 2000, 250)),
        Err(LayoutError::InvalidIndex)
    );
}

#[test]
fn optimal_shift_refuses_a_window_of_no_lines() {
    let layout = plain_four();
    assert_eq!(
        layout.optimal_shift(0, &pair(), &range(0, 2000, 250)),
        Err(LayoutError::InvalidConfiguration)
    );
}
