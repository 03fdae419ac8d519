use slal::matrix::Matrix;
use slal::vertex::Vertex;

#[test]
fn add_i8() {
    let v = Vertex::<i8>::new(&[1, 2, 3]);
    let w = Vertex::<i8>::new(&[4, 5, 6]);

    assert_eq!(v.add(&w).unwrap(), Vertex::<i8>::new(&[5, 7, 9]));
}

#[test]
fn add_u8() {
    let v = Vertex::<u8>::new(&[1, 2, 3]);
    let w = Vertex::<u8>::new(&[4, 5, 6]);

    assert_eq!(v.add(&w).unwrap(), Vertex::<u8>::new(&[5, 7, 9]));
}

#[test]
fn add_i16() {
    let v = Vertex::<i16>::new(&[1, 2, 3]);
    let w = Vertex::<i16>::new(&[4, 5, 6]);

    assert_eq!(v.add(&w).unwrap(), Vertex::<i16>::new(&[5, 7, 9]));
}

#[test]
fn add_u16() {
    let v = Vertex::<u16>::new(&[1, 2, 3]);
    let w = Vertex::<u16>::new(&[4, 5, 6]);

    assert_eq!(v.add(&w).unwrap(), Vertex::<u16>::new(&[5, 7, 9]));
}

#[test]
fn add_i32() {
    let v = Vertex::<i32>::new(&[1, 2, 3]);
    let w = Vertex::<i32>::new(&[4, 5, 6]);

    assert_eq!(v.add(&w).unwrap(), Vertex::<i32>::new(&[5, 7, 9]));
}

#[test]
fn add_u32() {
    let v = Vertex::<u32>::new(&[1, 2, 3]);
    let w = Vertex::<u32>::new(&[4, 5, 6]);

    assert_eq!(v.add(&w).unwrap(), Vertex::<u32>::new(&[5, 7, 9]));
}

#[test]
fn add_i64() {
    let v = Vertex::<i64>::new(&[1, 2, 3]);
    let w = Vertex::<i64>::new(&[4, 5, 6]);

    assert_eq!(v.add(&w).unwrap(), Vertex::<i64>::new(&[5, 7, 9]));
}

#[test]
fn add_u64() {
    let v = Vertex::<u64>::new(&[1, 2, 3]);
    let w = Vertex::<u64>::new(&[4, 5, 6]);

    assert_eq!(v.add(&w).unwrap(), Vertex::<u64>::new(&[5, 7, 9]));
}

#[test]
fn add_i128() {
    let v = Vertex::<i128>::new(&[1, 2, 3]);
    let w = Vertex::<i128>::new(&[4, 5, 6]);

    assert_eq!(v.add(&w).unwrap(), Vertex::<i128>::new(&[5, 7, 9]));
}

#[test]
fn add_u128() {
    let v = Vertex::<u128>::new(&[1, 2, 3]);
    let w = Vertex::<u128>::new(&[4, 5, 6]);

    assert_eq!(v.add(&w).unwrap(), Vertex::<u128>::new(&[5, 7, 9]));
}

#[test]
fn add_isize() {
    let v = Vertex::<isize>::new(&[1, 2, 3]);
    let w = Vertex::<isize>::new(&[4, 5, 6]);

    assert_eq!(v.add(&w).unwrap(), Vertex::<isize>::new(&[5, 7, 9]));
}

#[test]
fn add_usize() {
    let v = Vertex::<usize>::new(&[1, 2, 3]);
    let w = Vertex::<usize>::new(&[4, 5, 6]);

    assert_eq!(v.add(&w).unwrap(), Vertex::<usize>::new(&[5, 7, 9]));
}

#[test]
fn sub_i8() {
    let v = Vertex::<i8>::new(&[1, 2, 3]);
    let w = Vertex::<i8>::new(&[4, 5, 6]);

    assert_eq!(v.sub(&w).unwrap(), Vertex::<i8>::new(&[-3, -3, -3]));
}

#[test]
fn sub_u8() {
    let v = Vertex::<u8>::new(&[1, 2, 3]);
    let w = Vertex::<u8>::new(&[4, 5, 6]);

    assert_eq!(w.sub(&v).unwrap(), Vertex::<u8>::new(&[3, 3, 3]));
}

#[test]
fn sub_i16() {
    let v = Vertex::<i16>::new(&[1, 2, 3]);
    let w = Vertex::<i16>::new(&[4, 5, 6]);

    assert_eq!(v.sub(&w).unwrap(), Vertex::<i16>::new(&[-3, -3, -3]));
}

#[test]
fn sub_u16() {
    let v = Vertex::<u16>::new(&[1, 2, 3]);
    let w = Vertex::<u16>::new(&[4, 5, 6]);

    assert_eq!(w.sub(&v).unwrap(), Vertex::<u16>::new(&[3, 3, 3]));
}

#[test]
fn sub_i32() {
    let v = Vertex::<i32>::new(&[1, 2, 3]);
    let w = Vertex::<i32>::new(&[4, 5, 6]);

    assert_eq!(v.sub(&w).unwrap(), Vertex::<i32>::new(&[-3, -3, -3]));
}

#[test]
fn sub_u32() {
    let v = Vertex::<u32>::new(&[1, 2, 3]);
    let w = Vertex::<u32>::new(&[4, 5, 6]);

    assert_eq!(w.sub(&v).unwrap(), Vertex::<u32>::new(&[3, 3, 3]));
}

#[test]
fn sub_i64() {
    let v = Vertex::<i64>::new(&[1, 2, 3]);
    let w = Vertex::<i64>::new(&[4, 5, 6]);

    assert_eq!(v.sub(&w).unwrap(), Vertex::<i64>::new(&[-3, -3, -3]));
}

#[test]
fn sub_u64() {
    let v = Vertex::<u64>::new(&[1, 2, 3]);
    let w = Vertex::<u64>::new(&[4, 5, 6]);

    assert_eq!(w.sub(&v).unwrap(), Vertex::<u64>::new(&[3, 3, 3]));
}

#[test]
fn sub_i128() {
    let v = Vertex::<i128>::new(&[1, 2, 3]);
    let w = Vertex::<i128>::new(&[4, 5, 6]);

    assert_eq!(v.sub(&w).unwrap(), Vertex::<i128>::new(&[-3, -3, -3]));
}

#[test]
fn sub_u128() {
    let v = Vertex::<u128>::new(&[1, 2, 3]);
    let w = Vertex::<u128>::new(&[4, 5, 6]);

    assert_eq!(w.sub(&v).unwrap(), Vertex::<u128>::new(&[3, 3, 3]));
}

#[test]
fn sub_isize() {
    let v = Vertex::<isize>::new(&[1, 2, 3]);
    let w = Vertex::<isize>::new(&[4, 5, 6]);

    assert_eq!(v.sub(&w).unwrap(), Vertex::<isize>::new(&[-3, -3, -3]));
}

#[test]
fn sub_usize() {
    let v = Vertex::<usize>::new(&[1, 2, 3]);
    let w = Vertex::<usize>::new(&[4, 5, 6]);

    assert_eq!(w.sub(&v).unwrap(), Vertex::<usize>::new(&[3, 3, 3]));
}

#[test]
fn mul_scala_i8() {
    let v = Vertex::<i8>::new(&[1, 2, 3]);

    assert_eq!(v.scale(-3), Vertex::<i8>::new(&[-3, -6, -9]));
}

#[test]
fn mul_with_scala_i8() {
    let v = Vertex::<i8>::new(&[1, 2, 3]);

    assert_eq!(v.scale(-3), Vertex::<i8>::new(&[-3, -6, -9]));
}

#[test]
fn mul_scala_u8() {
    let v = Vertex::<u8>::new(&[1, 2, 3]);

    assert_eq!(v.scale(3), Vertex::<u8>::new(&[3, 6, 9]));
}

#[test]
fn mul_with_scala_u8() {
    let v = Vertex::<u8>::new(&[1, 2, 3]);

    assert_eq!(v.scale(3), Vertex::<u8>::new(&[3, 6, 9]));
}

#[test]
fn mul_scala_i16() {
    let v = Vertex::<i16>::new(&[1, 2, 3]);

    assert_eq!(v.scale(-3), Vertex::<i16>::new(&[-3, -6, -9]));
}

#[test]
fn mul_with_scala_i16() {
    let v = Vertex::<i16>::new(&[1, 2, 3]);

    assert_eq!(v.scale(-3), Vertex::<i16>::new(&[-3, -6, -9]));
}

#[test]
fn mul_scala_u16() {
    let v = Vertex::<u16>::new(&[1, 2, 3]);

    assert_eq!(v.scale(3), Vertex::<u16>::new(&[3, 6, 9]));
}

#[test]
fn mul_with_scala_u16() {
    let v = Vertex::<u16>::new(&[1, 2, 3]);

    assert_eq!(v.scale(3), Vertex::<u16>::new(&[3, 6, 9]));
}

#[test]
fn mul_scala_i32() {
    let v = Vertex::<i32>::new(&[1, 2, 3]);

    assert_eq!(v.scale(-3), Vertex::<i32>::new(&[-3, -6, -9]));
}

#[test]
fn mul_with_scala_i32() {
    let v = Vertex::<i32>::new(&[1, 2, 3]);

    assert_eq!(v.scale(-3), Vertex::<i32>::new(&[-3, -6, -9]));
}

#[test]
fn mul_scala_u32() {
    let v = Vertex::<u32>::new(&[1, 2, 3]);

    assert_eq!(v.scale(3), Vertex::<u32>::new(&[3, 6, 9]));
}

#[test]
fn mul_with_scala_u32() {
    let v = Vertex::<u32>::new(&[1, 2, 3]);

    assert_eq!(v.scale(3), Vertex::<u32>::new(&[3, 6, 9]));
}

#[test]
fn mul_scala_i64() {
    let v = Vertex::<i64>::new(&[1, 2, 3]);

    assert_eq!(v.scale(-3), Vertex::<i64>::new(&[-3, -6, -9]));
}

#[test]
fn mul_with_scala_i64() {
    let v = Vertex::<i64>::new(&[1, 2, 3]);

    assert_eq!(v.scale(-3), Vertex::<i64>::new(&[-3, -6, -9]));
}

#[test]
fn mul_scala_u64() {
    let v = Vertex::<u64>::new(&[1, 2, 3]);

    assert_eq!(v.scale(3), Vertex::<u64>::new(&[3, 6, 9]));
}

#[test]
fn mul_with_scala_u64() {
    let v = Vertex::<u64>::new(&[1, 2, 3]);

    assert_eq!(v.scale(3), Vertex::<u64>::new(&[3, 6, 9]));
}

#[test]
fn mul_scala_i128() {
    let v = Vertex::<i128>::new(&[1, 2, 3]);

    assert_eq!(v.scale(-3), Vertex::<i128>::new(&[-3, -6, -9]));
}

#[test]
fn mul_with_scala_i128() {
    let v = Vertex::<i128>::new(&[1, 2, 3]);

    assert_eq!(v.scale(-3), Vertex::<i128>::new(&[-3, -6, -9]));
}

#[test]
fn mul_scala_u128() {
    let v = Vertex::<u128>::new(&[1, 2, 3]);

    assert_eq!(v.scale(3), Vertex::<u128>::new(&[3, 6, 9]));
}

#[test]
fn mul_with_scala_u128() {
    let v = Vertex::<u128>::new(&[1, 2, 3]);

    assert_eq!(v.scale(3), Vertex::<u128>::new(&[3, 6, 9]));
}

#[test]
fn mul_scala_isize() {
    let v = Vertex::<isize>::new(&[1, 2, 3]);

    assert_eq!(v.scale(-3), Vertex::<isize>::new(&[-3, -6, -9]));
}

#[test]
fn mul_with_scala_isize() {
    let v = Vertex::<isize>::new(&[1, 2, 3]);

    assert_eq!(v.scale(-3), Vertex::<isize>::new(&[-3, -6, -9]));
}

#[test]
fn mul_scala_usize() {
    let v = Vertex::<usize>::new(&[1, 2, 3]);

    assert_eq!(v.scale(3), Vertex::<usize>::new(&[3, 6, 9]));
}

#[test]
fn mul_with_scala_usize() {
    let v = Vertex::<usize>::new(&[1, 2, 3]);

    assert_eq!(v.scale(3), Vertex::<usize>::new(&[3, 6, 9]));
}

#[test]
fn mul_i8() {
    let v1 = Vertex::<i8>::new(&[1, 2, 3]);
    let mut v2 = Vertex::<i8>::new(&[4, 5, 6]);

    v2.t();

    assert_eq!(v1.mul(&v2).unwrap(), Matrix::<i8>::new(&vec![vec![32]]).unwrap());
}

#[test]
fn mul_i8_trasposed() {
    let v1 = Vertex::<i8>::new(&[1, 2, 3]);
    let mut v2 = Vertex::<i8>::new(&[4, 5, 6]);

    v2.t();

    assert_eq!(
        v2.mul(&v1).unwrap(),
        Matrix::<i8>::new(&vec![vec![4, 8, 12], vec![5, 10, 15], vec![6, 12, 18]]).unwrap()
    );
}

#[test]
fn mul_u8() {
    let v1 = Vertex::<u8>::new(&[1, 2, 3]);
    let mut v2 = Vertex::<u8>::new(&[4, 5, 6]);

    v2.t();

    assert_eq!(v1.mul(&v2).unwrap(), Matrix::<u8>::new(&vec![vec![32]]).unwrap());
}

#[test]
fn mul_u8_trasposed() {
    let v1 = Vertex::<u8>::new(&[1, 2, 3]);
    let mut v2 = Vertex::<u8>::new(&[4, 5, 6]);

    v2.t();

    assert_eq!(
        v2.mul(&v1).unwrap(),
        Matrix::<u8>::new(&vec![vec![4, 8, 12], vec![5, 10, 15], vec![6, 12, 18]]).unwrap()
    );
}

#[test]
fn mul_u16() {
    let v1 = Vertex::<u16>::new(&[1, 2, 3]);
    let mut v2 = Vertex::<u16>::new(&[4, 5, 6]);

    v2.t();

    assert_eq!(v1.mul(&v2).unwrap(), Matrix::<u16>::new(&vec![vec![32]]).unwrap());
}

#[test]
fn mul_u16_trasposed() {
    let v1 = Vertex::<u16>::new(&[1, 2, 3]);
    let mut v2 = Vertex::<u16>::new(&[4, 5, 6]);

    v2.t();

    assert_eq!(
        v2.mul(&v1).unwrap(),
        Matrix::<u16>::new(&vec![vec![4, 8, 12], vec![5, 10, 15], vec![6, 12, 18]]).unwrap()
    );
}

#[test]
fn mul_i32() {
    let v1 = Vertex::<i32>::new(&[1, 2, 3]);
    let mut v2 = Vertex::<i32>::new(&[4, 5, 6]);

    v2.t();

    assert_eq!(v1.mul(&v2).unwrap(), Matrix::<i32>::new(&vec![vec![32]]).unwrap());
}

#[test]
fn mul_i32_trasposed() {
    let v1 = Vertex::<i32>::new(&[1, 2, 3]);
    let mut v2 = Vertex::<i32>::new(&[4, 5, 6]);

    v2.t();

    assert_eq!(
        v2.mul(&v1).unwrap(),
        Matrix::<i32>::new(&vec![vec![4, 8, 12], vec![5, 10, 15], vec![6, 12, 18]]).unwrap()
    );
}

#[test]
fn mul_u32() {
    let v1 = Vertex::<u32>::new(&[1, 2, 3]);
    let mut v2 = Vertex::<u32>::new(&[4, 5, 6]);

    v2.t();

    assert_eq!(v1.mul(&v2).unwrap(), Matrix::<u32>::new(&vec![vec![32]]).unwrap());
}

#[test]
fn mul_u32_trasposed() {
    let v1 = Vertex::<u32>::new(&[1, 2, 3]);
    let mut v2 = Vertex::<u32>::new(&[4, 5, 6]);

    v2.t();

    assert_eq!(
        v2.mul(&v1).unwrap(),
        Matrix::<u32>::new(&vec![vec![4, 8, 12], vec![5, 10, 15], vec![6, 12, 18]]).unwrap()
    );
}

#[test]
fn mul_i64() {
    let v1 = Vertex::<i64>::new(&[1, 2, 3]);
    let mut v2 = Vertex::<i64>::new(&[4, 5, 6]);

    v2.t();

    assert_eq!(v1.mul(&v2).unwrap(), Matrix::<i64>::new(&vec![vec![32]]).unwrap());
}

#[test]
fn mul_i64_trasposed() {
    let v1 = Vertex::<i64>::new(&[1, 2, 3]);
    let mut v2 = Vertex::<i64>::new(&[4, 5, 6]);

    v2.t();

    assert_eq!(
        v2.mul(&v1).unwrap(),
        Matrix::<i64>::new(&vec![vec![4, 8, 12], vec![5, 10, 15], vec![6, 12, 18]]).unwrap()
    );
}

#[test]
fn mul_u64() {
    let v1 = Vertex::<u64>::new(&[1, 2, 3]);
    let mut v2 = Vertex::<u64>::new(&[4, 5, 6]);

    v2.t();

    assert_eq!(v1.mul(&v2).unwrap(), Matrix::<u64>::new(&vec![vec![32]]).unwrap());
}

#[test]
fn mul_u64_trasposed() {
    let v1 = Vertex::<u64>::new(&[1, 2, 3]);
    let mut v2 = Vertex::<u64>::new(&[4, 5, 6]);

    v2.t();

    assert_eq!(
        v2.mul(&v1).unwrap(),
        Matrix::<u64>::new(&vec![vec![4, 8, 12], vec![5, 10, 15], vec![6, 12, 18]]).unwrap()
    );
}

#[test]
fn mul_i128() {
    let v1 = Vertex::<i128>::new(&[1, 2, 3]);
    let mut v2 = Vertex::<i128>::new(&[4, 5, 6]);

    v2.t();

    assert_eq!(v1.mul(&v2).unwrap(), Matrix::<i128>::new(&vec![vec![32]]).unwrap());
}

#[test]
fn mul_i128_trasposed() {
    let v1 = Vertex::<i128>::new(&[1, 2, 3]);
    let mut v2 = Vertex::<i128>::new(&[4, 5, 6]);

    v2.t();

    assert_eq!(
        v2.mul(&v1).unwrap(),
        Matrix::<i128>::new(&vec![vec![4, 8, 12], vec![5, 10, 15], vec![6, 12, 18]]).unwrap()
    );
}

#[test]
fn mul_u128() {
    let v1 = Vertex::<u128>::new(&[1, 2, 3]);
    let mut v2 = Vertex::<u128>::new(&[4, 5, 6]);

    v2.t();

    assert_eq!(v1.mul(&v2).unwrap(), Matrix::<u128>::new(&vec![vec![32]]).unwrap());
}

#[test]
fn mul_u128_trasposed() {
    let v1 = Vertex::<u128>::new(&[1, 2, 3]);
    let mut v2 = Vertex::<u128>::new(&[4, 5, 6]);

    v2.t();

    assert_eq!(
        v2.mul(&v1).unwrap(),
        Matrix::<u128>::new(&vec![vec![4, 8, 12], vec![5, 10, 15], vec![6, 12, 18]]).unwrap()
    );
}

#[test]
fn mul_isize() {
    let v1 = Vertex::<isize>::new(&[1, 2, 3]);
    let mut v2 = Vertex::<isize>::new(&[4, 5, 6]);

    v2.t();

    assert_eq!(v1.mul(&v2).unwrap(), Matrix::<isize>::new(&vec![vec![32]]).unwrap());
}

#[test]
fn mul_isize_trasposed() {
    let v1 = Vertex::<isize>::new(&[1, 2, 3]);
    let mut v2 = Vertex::<isize>::new(&[4, 5, 6]);

    v2.t();

    assert_eq!(
        v2.mul(&v1).unwrap(),
        Matrix::<isize>::new(&vec![vec![4, 8, 12], vec![5, 10, 15], vec![6, 12, 18]]).unwrap()
    );
}

#[test]
fn mul_usize() {
    let v1 = Vertex::<usize>::new(&[1, 2, 3]);
    let mut v2 = Vertex::<usize>::new(&[4, 5, 6]);

    v2.t();

    assert_eq!(v1.mul(&v2).unwrap(), Matrix::<usize>::new(&vec![vec![32]]).unwrap());
}

#[test]
fn mul_usize_trasposed() {
    let v1 = Vertex::<usize>::new(&[1, 2, 3]);
    let mut v2 = Vertex::<usize>::new(&[4, 5, 6]);

    v2.t();

    assert_eq!(
        v2.mul(&v1).unwrap(),
        Matrix::<usize>::new(&vec![vec![4, 8, 12], vec![5, 10, 15], vec![6, 12, 18]]).unwrap()
    );
}
