use netgen::builder::{geo_shape_to_line, geo_shape_to_multi_line, GeoCoord};
use netgen::error::NetError;
use netgen::plane::{Network, Point};

fn coord(lon: i32, lat: i32, elevation: i32) -> GeoCoord {
    GeoCoord {
        lon,
        lat,
        elevation,
    }
}

#[test]
fn test_build_line_projects_in_order() {
    let coords = vec![
        coord(-700000, 5200000, 0),
        coord(1000000, 4000000, 150),
        coord(150000, 4600000, 0),
    ];
    let line = geo_shape_to_line(&coords).unwrap();
    assert_eq!(line.points.len(), 3);
    assert_eq!(line.points[0], Point::new(0, 0, 0));
    assert_eq!(line.points[1], Point::new(1300, 1300, 1));
    assert_eq!(line.points[2], Point::new(650, 650, 0));
}

#[test]
fn test_build_line_fails_on_first_bad_coordinate() {
    let coords = vec![
        coord(0, 4500000, 0),
        coord(2000000, 4500000, 0),
        coord(-900000, 3000000, 0),
    ];
    assert_eq!(
        geo_shape_to_line(&coords).unwrap_err(),
        NetError::OutOfBounds {
            lon: 2000000,
            lat: 4500000
        }
    );
}

#[test]
fn test_build_multi_line_matches_single_builds() {
    let part_a = vec![coord(-700000, 5200000, 0), coord(0, 4500000, 0)];
    let part_b = vec![
        coord(1000000, 4000000, 100),
        coord(500000, 5000000, 0),
        coord(0, 4200000, 0),
    ];
    let lines = geo_shape_to_multi_line(&vec![part_a.clone(), part_b.clone()]).unwrap();
    assert_eq!(lines.len(), 2);
    assert_eq!(lines[0].points, geo_shape_to_line(&part_a).unwrap().points);
    assert_eq!(lines[1].points, geo_shape_to_line(&part_b).unwrap().points);
}

#[test]
fn test_build_multi_line_is_atomic() {
    let good = vec![coord(0, 4500000, 0)];
    let bad = vec![coord(0, 4500000, 0), coord(0, 9999999, 0)];
    assert_eq!(
        geo_shape_to_multi_line(&vec![good, bad]).unwrap_err(),
        NetError::OutOfBounds {
            lon: 0,
            lat: 9999999
        }
    );
}

#[test]
fn test_build_empty_inputs() {
    let empty_line = geo_shape_to_line(&vec![]).unwrap();
    assert_eq!(empty_line.points.len(), 0);
    let no_lines = geo_shape_to_multi_line(&vec![]).unwrap();
    assert_eq!(no_lines.len(), 0);
}

#[test]
fn test_network_counts_lines_in_order() {
    let mut network = Network::new();
    assert_eq!(network.get_line_count(), 0);
    let first = geo_shape_to_line(&vec![coord(0, 4500000, 0)]).unwrap();
    let second = geo_shape_to_line(&vec![coord(100000, 4700000, 0)]).unwrap();
    let expected_first = first.points.clone();
    let expected_second = second.points.clone();
    network.add_line(first);
    network.add_line(second);
    assert_eq!(network.get_line_count(), 2);
    assert_eq!(network.lines[0].points, expected_first);
    assert_eq!(network.lines[1].points, expected_second);
}

#[test]
fn test_network_add_point() {
    let mut network = Network::new();
    network.add_point(Point::new(1, 2, 3));
    network.add_point(Point::new(4, 5, 6));
    assert_eq!(network.points, vec![Point::new(1, 2, 3), Point::new(4, 5, 6)]);
    assert_eq!(network.get_line_count(), 0);
}
