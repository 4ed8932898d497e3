use ssh_colony::types::positions::{Position, Position3D};

#[test]
fn position_arithmetic() {
    let a = Position::new(7i32, -7);
    let b = Position::new(2i32, 2);
    assert_eq!(a.join(b), Position::new(9, -5));
    assert_eq!(a.difference(b), Position::new(5, -9));
    assert_eq!(a.product(b), Position::new(14, -14));
    // division rounds toward zero
    assert_eq!(a.quotient(b), Position::new(3, -3));
    let mut c = a;
    c.add_assign(b);
    c.sub_assign(b);
    assert_eq!(c, a);
    c.mul_assign(b);
    c.div_assign(b);
    assert_eq!(c, a);
}

#[test]
fn position3d_arithmetic() {
    let a = Position3D::new(9u32, 4, 1);
    let b = Position3D::new(2u32, 2, 1);
    assert_eq!(a.difference(b), Position3D::new(7, 2, 0));
    assert_eq!(a.quotient(b), Position3D::new(4, 2, 1));
    let mut c = a;
    c.mul_assign(b);
    assert_eq!(c, Position3D::new(18, 8, 1));
    c.div_assign(b);
    assert_eq!(c, a);
    let mut d = Position3D::new(-7i64, 7, 0);
    d.div_assign(Position3D::new(2i64, -2, 5));
    assert_eq!(d, Position3D::new(-3, -3, 0));
}
