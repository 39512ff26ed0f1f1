#[test]
fn test_expressions_basic_assignment() {
    let x: i32 = 1;
    println!("{x}");
    assert_eq!(x, 1);

    let y = 2;
    assert_eq!(y, 2);
}

#[test]
fn test_expressions_mutable_assignment() {
    let mut x = 1;
    x += 1;
    assert_eq!(x, 2);
}

#[test]
fn test_expressions_delayed_assignment() {
    let x: i32;
    x = 1;
    assert_eq!(x, 1);
}

#[test]
fn test_expressions_complex_assignment() {
    let x = if true { 1 } else { 2 };
    assert_eq!(x, 1);

    let y = {
        let z = 1;
        z + 1
    };
    assert_eq!(y, 2);

    let mut a = 0;
    let b = loop {
        a += 1;
        if a == 3 {
            break a;
        }
    };
    assert_eq!(b, 3);
}

#[test]
fn exercise_expressions_shadowing() {
    let x = 1;
    {
        let x = 2;
        assert_eq!(x, 2);
    }
    assert_eq!(x, 1);
}

#[test]
fn exercise_expressions_semicolon() {
    let x = {
        1;
    };
    assert_eq!(x, ());
}
