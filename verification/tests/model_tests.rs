use spline_viz::model::{Effects, Input, Model, VisualizationMode};

fn click(n: usize, near_point: Option<usize>, near_handle: Option<usize>, shift: bool) -> Input {
    Input {
        space_pressed: false,
        left_down: true,
        on_slider: false,
        shift,
        near_points: (0..n).map(|i| Some(i) == near_point).collect(),
        near_handles: (0..n).map(|i| Some(i) == near_handle).collect(),
    }
}

fn release(n: usize) -> Input {
    Input {
        space_pressed: false,
        left_down: false,
        on_slider: false,
        shift: false,
        near_points: vec![false; n],
        near_handles: vec![false; n],
    }
}

fn space(n: usize) -> Input {
    Input { space_pressed: true, ..release(n) }
}

#[test]
fn new_model_has_three_points() {
    let m = Model::new();
    assert_eq!(m.point_ids(), &vec![0, 1, 2]);
    assert_eq!(m.next_id(), 3);
    assert_eq!(m.tangent_count(), 3);
    assert_eq!(m.selected_id(), None);
    assert_eq!(m.mode(), VisualizationMode::FullBezier);
    assert!(!m.dragging_slider());
}

#[test]
fn space_cycles_modes() {
    let mut m = Model::new();
    let order = [
        VisualizationMode::PiecewiseSpline,
        VisualizationMode::HermiteSpline,
        VisualizationMode::BSpline,
        VisualizationMode::FullBezier,
    ];
    for mode in order {
        let fx = m.handle_event(&space(3));
        assert_eq!(m.mode(), mode);
        assert_eq!(fx, Effects { scrub_slider: false, added_point: None, move_point: None, move_tangent: None });
    }
}

#[test]
fn click_selects_first_near_point_and_drags_it() {
    let mut m = Model::new();
    let mut inp = click(3, Some(1), None, false);
    inp.near_points[2] = true;
    let fx = m.handle_event(&inp);
    assert_eq!(m.selected_id(), Some(1));
    assert_eq!(fx.move_point, Some(1));
    // keeps dragging while the button is held, wherever the mouse is
    let fx = m.handle_event(&click(3, None, None, false));
    assert_eq!(fx.move_point, Some(1));
    // releasing ends the drag
    let fx = m.handle_event(&release(3));
    assert_eq!(m.selected_id(), None);
    assert_eq!(fx.move_point, None);
}

#[test]
fn shift_click_adds_point_with_fresh_id() {
    let mut m = Model::new();
    let fx = m.handle_event(&click(3, None, None, true));
    assert_eq!(fx.added_point, Some(3));
    assert_eq!(fx.move_point, Some(3));
    assert_eq!(m.point_ids(), &vec![0, 1, 2, 3]);
    assert_eq!(m.next_id(), 4);
    assert_eq!(m.tangent_count(), 4);
    assert_eq!(m.selected_id(), Some(3));
    // holding shift while dragging does not add more points
    let fx = m.handle_event(&click(4, None, None, true));
    assert_eq!(fx.added_point, None);
    assert_eq!(m.point_count(), 4);
}

#[test]
fn slider_takes_priority() {
    let mut m = Model::new();
    let mut inp = click(3, Some(0), None, true);
    inp.on_slider = true;
    let fx = m.handle_event(&inp);
    assert!(fx.scrub_slider);
    assert!(m.dragging_slider());
    assert_eq!(m.point_count(), 3);
    assert_eq!(m.selected_id(), None);
    // stays on the slider while the button is held
    let fx = m.handle_event(&click(3, Some(0), None, false));
    assert!(fx.scrub_slider);
    assert_eq!(fx.move_point, None);
    m.handle_event(&release(3));
    assert!(!m.dragging_slider());
}

#[test]
fn hermite_mode_grabs_tangent_handles_first() {
    let mut m = Model::new();
    m.handle_event(&space(3));
    m.handle_event(&space(3));
    assert_eq!(m.mode(), VisualizationMode::HermiteSpline);
    let fx = m.handle_event(&click(3, Some(0), Some(2), false));
    assert_eq!(m.selected_tangent_id(), Some(2));
    assert_eq!(m.selected_id(), None);
    assert_eq!(fx.move_tangent, Some(2));
    assert_eq!(fx.move_point, None);
}

#[test]
fn handles_ignored_outside_hermite_mode() {
    let mut m = Model::new();
    let fx = m.handle_event(&click(3, None, Some(2), false));
    assert_eq!(m.selected_tangent_id(), None);
    assert_eq!(fx.move_tangent, None);
}

#[test]
fn click_on_nothing_selects_nothing() {
    let mut m = Model::new();
    let fx = m.handle_event(&click(3, None, None, false));
    assert_eq!(m.selected_id(), None);
    assert_eq!(fx, Effects { scrub_slider: false, added_point: None, move_point: None, move_tangent: None });
}
