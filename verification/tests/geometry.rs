use ant_colony::tech::{Metric, PointInfo};
use ant_colony::utils::distance::{chebyshev, euclidean, taxicab, Length};
use ant_colony::utils::{Auxil, Point};

#[test]
fn the_three_metrics_on_a_three_four_five_triangle() {
    assert_eq!(chebyshev(0, 0, 3, 4), Length::Whole(4));
    assert_eq!(euclidean(0, 0, 3, 4), Length::Root(25));
    assert_eq!(taxicab(0, 0, 3, 4), Length::Whole(7));
    assert_eq!(chebyshev(6, 1, 10, 8), Length::Whole(7));
    assert_eq!(euclidean(6, 1, 10, 8), Length::Root(65));
    assert_eq!(taxicab(6, 1, 10, 8), Length::Whole(11));
}

#[test]
fn the_metrics_by_name() {
    assert_eq!(Metric::Chebyshev.measure(-2, 5, 1, 1), Length::Whole(4));
    assert_eq!(Metric::Euclidean.measure(-2, 5, 1, 1), Length::Root(25));
    assert_eq!(Metric::Taxicab.measure(-2, 5, 1, 1), Length::Whole(7));
}

#[test]
fn a_distance_is_the_same_both_ways() {
    let points: [(i16, i16); 6] = [(0, 0), (3, -4), (-99, 99), (i16::MIN, i16::MAX), (i16::MAX, i16::MIN), (7, 7)];
    for a in points {
        for b in points {
            for metric in [Metric::Chebyshev, Metric::Euclidean, Metric::Taxicab] {
                assert_eq!(metric.measure(a.0, a.1, b.0, b.1), metric.measure(b.0, b.1, a.0, a.1));
            }
        }
    }
}

#[test]
fn a_point_is_at_no_distance_from_itself() {
    for (x, y) in [(0, 0), (5, -7), (i16::MIN, i16::MAX)] {
        assert_eq!(chebyshev(x, y, x, y), Length::Whole(0));
        assert_eq!(euclidean(x, y, x, y), Length::Root(0));
        assert_eq!(taxicab(x, y, x, y), Length::Whole(0));
        for metric in [Metric::Chebyshev, Metric::Euclidean, Metric::Taxicab] {
            assert!(metric.measure(x, y, x, y).is_zero());
        }
    }
    assert!(!chebyshev(0, 0, 0, 1).is_zero());
    assert!(!euclidean(0, 0, 1, 0).is_zero());
}

#[test]
fn the_widest_grid_does_not_overflow() {
    assert_eq!(chebyshev(i16::MIN, i16::MIN, i16::MAX, i16::MAX), Length::Whole(65535));
    assert_eq!(taxicab(i16::MIN, i16::MIN, i16::MAX, i16::MAX), Length::Whole(131070));
    assert_eq!(euclidean(i16::MIN, i16::MIN, i16::MAX, i16::MAX), Length::Root(8589672450));
}

#[test]
fn a_point_is_made_as_declared() {
    let point = Point::new('g', 10, 8, 15);
    assert_eq!(point, Point { id: 'g', x: 10, y: 8, food: 15, initial_food: 15 });
    assert_eq!(Point::from(PointInfo::Food('g', 10, 8, 15)), point);
    assert_eq!(
        Point::from(PointInfo::Empty('a', -6, 1)),
        Point { id: 'a', x: -6, y: 1, food: 0, initial_food: 0 }
    );
    let mut eaten = Point { food: 2, ..point };
    eaten.reset();
    assert_eq!(eaten, point);
    assert_eq!(Auxil::new('q', -4), Auxil { id: 'q', ratio: -4 });
}

#[test]
fn a_declaration_tells_what_it_holds() {
    let food = PointInfo::Food('g', 10, 8, 15);
    let none = PointInfo::Food('h', 1, 2, 0);
    let empty = PointInfo::Empty('a', 6, 1);
    assert_eq!((food.get_id(), food.get_position(), food.has_food(), food.get_food()), ('g', (10, 8), true, 15));
    assert_eq!((none.get_id(), none.get_position(), none.has_food(), none.get_food()), ('h', (1, 2), false, 0));
    assert_eq!((empty.get_id(), empty.get_position(), empty.has_food(), empty.get_food()), ('a', (6, 1), false, 0));
}
