use plotstream::geometry::{demo_records, make_vega_data, DisplayPoint, Frac, Record};

fn corner(x: i64, y: i64) -> DisplayPoint {
    DisplayPoint { x: Frac { num: x as i128, den: 1 }, y: Some(y) }
}

fn value(f: Frac) -> f64 {
    f.num as f64 / f.den as f64
}

#[test]
fn three_records_payload() {
    let recs = vec![
        Record { x0: 200, y0: 223, x1: 210, y1: 233 },
        Record { x0: 300, y0: 323, x1: 310, y1: 333 },
        Record { x0: 100, y0: 123, x1: 110, y1: 133 },
    ];
    let p = make_vega_data(&recs);
    assert_eq!(p.points.len(), 8);
    let sep = DisplayPoint { x: Frac { num: 600, den: 3 }, y: None };
    assert_eq!(
        p.points,
        vec![
            corner(200, 223),
            corner(210, 233),
            sep,
            corner(300, 323),
            corner(310, 333),
            sep,
            corner(100, 123),
            corner(110, 133),
        ]
    );
    assert_eq!(value(p.points[2].x), 200.0);
}

#[test]
fn demo_records_are_the_fixed_input() {
    let d = demo_records();
    assert_eq!(d.len(), 3);
    assert_eq!(d[0], Record { x0: 200, y0: 223, x1: 210, y1: 233 });
    assert_eq!(d[1], Record { x0: 300, y0: 323, x1: 310, y1: 333 });
    assert_eq!(d[2], Record { x0: 100, y0: 123, x1: 110, y1: 133 });
}

#[test]
fn single_record_has_no_separator() {
    let p = make_vega_data(&[Record { x0: -5, y0: 7, x1: 3, y1: -9 }]);
    assert_eq!(p.points, vec![corner(-5, 7), corner(3, -9)]);
}

#[test]
fn separators_sit_every_third_point_at_the_mean() {
    let recs = vec![
        Record { x0: 1, y0: 0, x1: 2, y1: 0 },
        Record { x0: 2, y0: 0, x1: 3, y1: 0 },
        Record { x0: 4, y0: 0, x1: 5, y1: 0 },
        Record { x0: -3, y0: 0, x1: 6, y1: 0 },
    ];
    let p = make_vega_data(&recs);
    assert_eq!(p.points.len(), 3 * 4 - 1);
    for (k, pt) in p.points.iter().enumerate() {
        assert_eq!(pt.y.is_none(), k % 3 == 2);
        if pt.y.is_none() {
            assert_eq!(pt.x, Frac { num: 4, den: 4 });
            assert_eq!(value(pt.x), 1.0);
        }
    }
}

#[test]
fn mean_of_extreme_coordinates_is_exact() {
    let recs = vec![
        Record { x0: i64::MAX, y0: 0, x1: 0, y1: 0 },
        Record { x0: i64::MAX, y0: 0, x1: 0, y1: 0 },
        Record { x0: i64::MIN, y0: 0, x1: 0, y1: 0 },
    ];
    let p = make_vega_data(&recs);
    assert_eq!(p.points[2].x, Frac { num: i64::MAX as i128 * 2 + i64::MIN as i128, den: 3 });
    assert_eq!(p.points[0], corner(i64::MAX, 0));
}
