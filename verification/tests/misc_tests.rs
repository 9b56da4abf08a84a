use bismuth::clamp::Clamped;
use bismuth::geometry::Offset;
use bismuth::math::{ordered_pair, partial_max, partial_min, Interpolate, UPoint3};
use bismuth::parallel::Join;
use bismuth::render::RenderError;
use bismuth::{BoolExt, OptionExt};

#[test]
fn into_some_follows_the_condition() {
    assert_eq!(true.into_some(3), Some(3));
    assert_eq!(false.into_some(3), None);
}

#[test]
fn and_if_filters() {
    assert_eq!(Some(4).and_if(|x| *x % 2 == 0), Some(4));
    assert_eq!(Some(3).and_if(|x| *x % 2 == 0), None);
    assert_eq!(None::<u32>.and_if(|_| true), None);
}

#[test]
fn ordering_helpers() {
    assert_eq!(ordered_pair(5, 2), (2, 5));
    assert_eq!(ordered_pair(1, 2), (1, 2));
    assert_eq!(partial_min(3, 7), 3);
    assert_eq!(partial_max(3, 7), 7);
}

#[test]
fn min_and_max_give_the_ordered_pair() {
    for (a, b) in [(5, 2), (1, 2), (4, 4)] {
        assert_eq!((partial_min(a, b), partial_max(a, b)), ordered_pair(a, b));
    }
    assert_eq!(partial_max(4, 4), 4);
}

#[test]
fn midpoints_round_down() {
    assert_eq!(Interpolate::midpoint(&3u32, &6u32), 4);
    assert_eq!(Interpolate::midpoint(&u32::MAX, &u32::MAX), u32::MAX);
    assert_eq!(
        Interpolate::midpoint(&UPoint3::new(0, 2, 4), &UPoint3::new(2, 2, 7)),
        UPoint3::new(1, 2, 5)
    );
}

#[test]
fn clamped_offsets() {
    let offset = Offset::new(20);
    assert_eq!(offset.to_inner(), 15);
    assert_eq!(Offset::new(3).add_inner(20).to_inner(), 15);
    assert_eq!(Offset::new(3).sub_inner(2).to_inner(), 1);
    assert_eq!(Offset::max_inner_value(), 15);
    assert_eq!(Offset::min_inner_value(), 0);
    let clamped: Clamped<_> = Offset::new(9).clamp(Offset::new(2), Offset::new(5));
    assert_eq!(clamped.to_inner(), 5);
}

#[test]
fn unit_joins() {
    ().join(());
}

#[test]
fn render_error_descriptions() {
    assert_eq!(RenderError::ContextLost.description(), "rendering context lost");
    assert_eq!(RenderError::Unknown.description(), "unknown rendering error");
}
