use needle_layout::error::LayoutError;
use needle_layout::layout::Layout;
use needle_layout::needles::{build_needles, Layering, Needle, Pass};
use needle_layout::optimize::ShiftRange;
use needle_layout::outline::{Outline, Tool};
use needle_layout::plan::plan;
use needle_layout::template;

fn plain_four() -> Layout {
    Layout::new(vec![0, 1000, 2000, 3000], vec![0, 1000, 2000, 3000], 100, 50).unwrap()
}

fn row(offset: usize, ceiling: usize) -> Layering {
    Layering {
        passes: vec![Pass { offsets: vec![offset], skipped: 0, top: 0, needle_height: 20 }],
        datum: 50,
        stride: 1,
        ceiling,
    }
}

fn small_tool() -> Tool {
    Tool { needle_width: 30, laser_radius: 5 }
}

#[test]
fn plan_of_the_template() {
    let made = plan(
        &template::layout(),
        template::COUNT,
        &template::layering(),
        &template::shift_range(),
        &template::tool(),
    )
    .unwrap();
    assert_eq!(made.shift, 1660);
    assert_eq!(made.needles, build_needles(&template::layering()).unwrap());
    assert_eq!(made.outlines.len(), 40);
    assert_eq!(
        made.outlines[0],
        Outline { left: 83_032_400, right: 88_032_400, bottom: 3290, top: 2150 }
    );
    assert_eq!(
        made.outlines[1],
        Outline { left: 206_588_000, right: 211_588_000, bottom: 3290, top: 2150 }
    );
    assert_eq!(
        made.outlines[38],
        Outline { left: 582_773_410, right: 587_773_410, bottom: 11490, top: 10117 }
    );
    assert_eq!(
        made.outlines[39],
        Outline { left: 707_490_400, right: 712_490_400, bottom: 11490, top: 10117 }
    );
    assert_eq!(made.outlines.iter().map(|o| o.left).sum::<i128>(), 16_512_721_840);
    assert_eq!(made.outlines.iter().map(|o| o.right).sum::<i128>(), 16_712_721_840);
    assert_eq!(made.outlines.iter().map(|o| o.bottom).sum::<i64>(), 286_355);
    assert_eq!(made.outlines.iter().map(|o| o.top).sum::<i64>(), 238_192);
}

#[test]
fn plan_outlines_every_needle_at_the_optimal_shift() {
    let layout = template::layout();
    let made = plan(
        &layout,
        3,
        &template::layering(),
        &template::shift_range(),
        &template::tool(),
    )
    .unwrap();
    assert_eq!(
        Ok(made.shift),
        layout.optimal_shift(3, &made.needles, &template::shift_range())
    );
    for (needle, outline) in made.needles.iter().zip(made.outlines.iter()) {
        assert_eq!(
            layout.needle_outline(3, needle, made.shift, &template::tool()),
            Ok(*outline)
        );
    }
}

#[test]
fn plan_of_the_template_leaves_every_needle_room() {
    let layout = template::layout();
    let made = plan(
        &layout,
        3,
        &template::layering(),
        &template::shift_range(),
        &template::tool(),
    )
    .unwrap();
    for needle in made.needles.iter() {
        let room = layout
            .needle_space(3, needle.index, needle.y, made.shift, needle.height)
            .unwrap();
        assert!(room.is_feasible());
        // The narrowest room, needle 38, is 12330610 wide.
        assert!(room.width() >= 12_330_610);
    }
}

#[test]
fn plan_is_reproducible() {
    let make = || {
        let made = plan(
            &template::layout(),
            3,
            &template::layering(),
            &template::shift_range(),
            &template::tool(),
        )
        .unwrap();
        (made.shift, made.needles, made.outlines)
    };
    assert_eq!(make(), make());
}

#[test]
fn plan_on_a_small_table() {
    let made = plan(
        &plain_four(),
        3,
        &row(1, 3),
        &ShiftRange::new(0, 2000, 250).unwrap(),
        &small_tool(),
    )
    .unwrap();
    assert_eq!(made.shift, 1000);
    assert_eq!(
        made.needles,
        vec![
            Needle { index: 1, y: 30, height: 20 },
            Needle { index: 2, y: 30, height: 20 },
        ]
    );
    assert_eq!(made.outlines.len(), 2);
}

#[test]
fn plan_refuses_an_unsound_layering() {
    let mut layering = template::layering();
    layering.stride = 0;
    assert!(matches!(
        plan(
            &template::layout(),
            3,
            &layering,
            &template::shift_range(),
            &template::tool()
        ),
        Err(LayoutError::InvalidConfiguration)
    ));
}

#[test]
fn plan_refuses_a_layering_without_needles() {
    let layering = Layering { passes: vec![], datum: 0, stride: 3, ceiling: 17 };
    assert!(matches!(
        plan(
            &template::layout(),
            3,
            &layering,
            &template::shift_range(),
            &template::tool()
        ),
        Err(LayoutError::EmptyPopulation)
    ));
}

#[test]
fn plan_refuses_a_ceiling_beyond_the_last_bearable_line() {
    let mut layering = template::layering();
    layering.ceiling = 18;
    assert!(matches!(
        plan(
            &template::layout(),
            3,
            &layering,
            &template::shift_range(),
            &template::tool()
        ),
        Err(LayoutError::InvalidIndex)
    ));
}

#[test]
fn plan_refuses_an_infeasible_spacing() {
    assert!(matches!(
        plan(
            &plain_four(),
            3,
            &row(1, 3),
            &ShiftRange::new(0, 500, 250).unwrap(),
            &small_tool()
        ),
        Err(LayoutError::InfeasibleSpacing)
    ));
}

#[test]
fn plan_refuses_a_window_of_no_lines() {
    assert!(matches!(
        plan(
            &template::layout(),
            0,
            &template::layering(),
            &template::shift_range(),
            &template::tool()
        ),
        Err(LayoutError::InvalidConfiguration)
    ));
}
