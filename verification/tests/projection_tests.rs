use netgen::error::NetError;
use netgen::plane::Point;
use netgen::projection::{geo_shape_coordinate_to_point, normalize, project};

#[test]
fn test_normalize() {
    assert_eq!(normalize(0, 10, 100, 0), Ok(0));
    assert_eq!(normalize(0, 10, 100, 5), Ok(50));
    assert_eq!(normalize(0, 10, 100, 10), Ok(100));

    assert_eq!(normalize(30, 10, 100, 30), Ok(0));
    assert_eq!(normalize(30, 10, 100, 20), Ok(50));
    assert_eq!(normalize(30, 10, 100, 10), Ok(100));

    assert_eq!(normalize(-10, 10, 100, -10), Ok(0));
    assert_eq!(normalize(-10, 10, 100, 0), Ok(50));
    assert_eq!(normalize(-10, 10, 100, 10), Ok(100));

    assert_eq!(normalize(-7, 10, 1500, -7), Ok(0));
    assert_eq!(normalize(-7, 10, 1500, 10), Ok(1500));

    assert_eq!(normalize(52, 40, 1500, 52), Ok(0));
    assert_eq!(normalize(52, 40, 1500, 40), Ok(1500));

    assert_eq!(normalize(40, 52, 1500, 52), Ok(1500));
    assert_eq!(normalize(40, 52, 1500, 40), Ok(0));
}

#[test]
fn test_convert() {
    let lon_min = (-7.0_f64 * 100000.0) as i32;
    let lon_max = (10.0_f64 * 100000.0) as i32;
    let lat_min = (40.0_f64 * 100000.0) as i32;
    let lat_max = (52.0_f64 * 100000.0) as i32;

    assert_eq!(
        geo_shape_coordinate_to_point(lon_min, lat_max, 0.0 as i32),
        Ok(Point { x: 0, y: 0, z: 0 })
    );

    assert_eq!(
        geo_shape_coordinate_to_point(lon_max, lat_min, 0.0 as i32),
        Ok(Point {
            x: 1300,
            y: 1300,
            z: 0
        })
    );

    assert_eq!(
        geo_shape_coordinate_to_point(lon_max, lat_min, 100.0 as i32),
        Ok(Point {
            x: 1300,
            y: 1300,
            z: 1
        })
    );
}

#[test]
fn test_normalize_degenerate_interval() {
    assert_eq!(
        normalize(5, 5, 100, 7),
        Err(NetError::DegenerateInterval { from: 5, to: 5 })
    );
}

#[test]
fn test_normalize_endpoints_both_ways() {
    // Either bound order maps its own endpoints exactly onto 0 and size.
    assert_eq!(normalize(-3, 8, 700, -3), Ok(0));
    assert_eq!(normalize(-3, 8, 700, 8), Ok(700));
    assert_eq!(normalize(8, -3, 700, 8), Ok(0));
    assert_eq!(normalize(8, -3, 700, -3), Ok(700));
}

#[test]
fn test_project_out_of_bounds() {
    let lon = (-8.0_f64 * 100000.0) as i32;
    let lat = (45.0_f64 * 100000.0) as i32;
    assert_eq!(
        geo_shape_coordinate_to_point(lon, lat, 0),
        Err(NetError::OutOfBounds { lon, lat })
    );
    assert_eq!(
        project(0, 5300000, 0, 1300),
        Err(NetError::OutOfBounds {
            lon: 0,
            lat: 5300000
        })
    );
}

#[test]
fn test_project_elevation_levels() {
    let p = geo_shape_coordinate_to_point(0, 4500000, 199).unwrap();
    assert_eq!(p.z, 1);
    let n = geo_shape_coordinate_to_point(0, 4500000, -250).unwrap();
    assert_eq!(n.z, 2);
    let zero = geo_shape_coordinate_to_point(0, 4500000, 0).unwrap();
    assert_eq!(zero.z, 0);
}

#[test]
fn test_project_monotonic_samples() {
    // Larger longitude never gives smaller x; larger latitude never gives
    // larger y.
    let a = project(0, 4500000, 0, 1300).unwrap();
    let b = project(100000, 4500000, 0, 1300).unwrap();
    assert!(a.x <= b.x);
    let c = project(0, 4600000, 0, 1300).unwrap();
    assert!(a.y >= c.y);
}

#[test]
fn test_project_injected_grid_size() {
    let p = project(1000000, 4000000, 0, 500).unwrap();
    assert_eq!(p, Point { x: 500, y: 500, z: 0 });
}
