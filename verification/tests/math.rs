use handmade::game::math::{dot_2, dot_3, dot_4, Rect, V2, V3, V4};

#[test]
fn rect_corners_and_inside() {
    let r = Rect::new(V2 { x: 1, y: 2 }, V2 { x: 4, y: 6 });
    assert!(r.get_min() == V2 { x: 1, y: 2 });
    assert!(r.get_max() == V2 { x: 4, y: 6 });
    assert!(r.p_inside(V2 { x: 1, y: 2 }));
    assert!(r.p_inside(V2 { x: 3, y: 5 }));
    assert!(!r.p_inside(V2 { x: 4, y: 5 }));
    assert!(!r.p_inside(V2 { x: 0, y: 3 }));
    let m = Rect::min_dim(V2 { x: -2, y: 3 }, V2 { x: 5, y: 1 });
    assert!(m.max == V2 { x: 3, y: 4 });
}

#[test]
fn vector_arithmetic() {
    let a = V2 { x: 3, y: -4 };
    let b = V2 { x: 1, y: 2 };
    assert!(a + b == V2 { x: 4, y: -2 });
    assert!(a - b == V2 { x: 2, y: -6 });
    assert!(-a == V2 { x: -3, y: 4 });
    assert!(a * 2 == V2 { x: 6, y: -8 });
    assert!((a + b) - b == a);
    let c = V3 { x: 1, y: 2, z: 3 };
    let d = V3 { x: -1, y: 0, z: 5 };
    assert!(c + d == V3 { x: 0, y: 2, z: 8 });
    assert!(c - d == V3 { x: 2, y: 2, z: -2 });
    assert!(-c == V3 { x: -1, y: -2, z: -3 });
    assert!(c * 3 == V3 { x: 3, y: 6, z: 9 });
}

#[test]
fn dot_products_and_lengths() {
    assert_eq!(dot_2(V2 { x: 3, y: -4 }, V2 { x: 2, y: 1 }), 2);
    assert_eq!(V2 { x: 3, y: -4 }.length_sq(), 25);
    assert_eq!(dot_3(V3 { x: 1, y: 2, z: 3 }, V3 { x: 4, y: 5, z: 6 }), 32);
    assert_eq!(V3 { x: 1, y: 2, z: 2 }.length_sq(), 9);
    let v = V4 { x: 1, y: 2, z: 3, w: 4 };
    assert_eq!(dot_4(v, v), 30);
    assert_eq!(v.length_sq(), 30);
    assert!(v.xyz() == V3 { x: 1, y: 2, z: 3 });
}
