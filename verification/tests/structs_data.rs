struct UnitFoo;

struct TupleFoo(bool, String);

struct Foo {
    ok: bool,
    msg: String,
}

#[test]
fn test_structs_data_contruction() {
    let foo1 = Foo {
        ok: true,
        msg: "All's good".to_owned(),
    };
    let ok = true;
    let msg = "All's good".to_string();
    let foo2 = Foo { ok, msg };
    assert_eq!(foo1.msg, foo2.msg);
    assert_eq!(foo1.ok, foo2.ok);
}

#[test]
fn test_structs_data_member_access() {
    let foo = Foo {
        ok: true,
        msg: "All's good".to_owned(),
    };
    let is_ok = foo.ok;
    println!("foo.ok {}, is_ok {}", foo.ok, is_ok);

    let the_msg = foo.msg.clone();
    println!("foo.msg {}, the_msg {}", foo.msg, the_msg);
}

#[test]
fn test_structs_data_destructuring() {
    let foo = Foo {
        ok: true,
        msg: "All's good".to_owned(),
    };

    let Foo { ok: is_ok, msg } = foo;

    println!("is_ok {is_ok}, msg {msg}");
}

#[test]
fn exercise_structs_data_1() {
    let foo = TupleFoo(true, "cat".to_owned());

    let TupleFoo(ok, cat) = foo;

    assert_eq!(ok, true);
    assert_eq!(cat, "cat");
}

#[test]
fn exercise_structs_data_2() {
    let foo = TupleFoo(true, "cat".to_owned());

    fn take_msg(foo: TupleFoo) -> String {
        foo.1
    }

    let msg = take_msg(foo);

    assert_eq!(msg, "cat");
}

#[test]
fn exercise_structs_data_3() {
    let foo = TupleFoo(true, "cat".to_owned());

    fn copy_msg(foo: &TupleFoo) -> String {
        foo.1.clone()
    }

    let msg = copy_msg(&foo);

    assert_eq!(msg, foo.1);
}

#[test]
fn test_unit_foo_is_zero_sized() {
    let _unit = UnitFoo;
    assert_eq!(std::mem::size_of::<UnitFoo>(), 0);
}
