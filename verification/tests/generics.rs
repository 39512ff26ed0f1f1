use std::collections::HashMap;

enum Either<L, R> {
    Left(L),
    Right(R),
}

#[test]
fn test_generics_vec() {
    fn first_from_vec<T>(stuff: &mut Vec<T>) -> Option<T> {
        if stuff.is_empty() {
            None
        } else {
            Some(stuff.remove(0))
        }
    }

    let mut list: Vec<i32> = vec![1, 2, 3];

    assert_eq!(first_from_vec(&mut list), Some(1));
}

#[test]
fn test_generics_types() {
    fn foo() -> Either<bool, i32> {
        Either::Left(true)
    }

    match foo() {
        Either::Left(b) => assert_eq!(b, true),
        Either::Right(i) => assert_eq!(i, 0),
    }
}

#[test]
fn test_generics_impls() {
    impl<L, R> Either<L, R> {
        pub fn left(&self) -> Option<&L> {
            if let Either::Left(left) = self {
                Some(left)
            } else {
                None
            }
        }

        pub fn right(&self) -> Option<&R> {
            if let Either::Right(right) = self {
                Some(right)
            } else {
                None
            }
        }
    }

    let choice: Either<bool, i32> = Either::Left(true);
    assert_eq!(choice.left(), Some(&true));
    assert_eq!(choice.right(), None);
}

#[test]
fn test_generics_impls_concrete() {
    impl<T> Either<T, T> {
        pub fn value(self) -> T {
            match self {
                Either::Left(t) => t,
                Either::Right(t) => t,
            }
        }
    }

    let choice: Either<i32, i32> = Either::Left(2);
    assert_eq!(choice.value(), 2);

    impl Either<i32, u32> {
        fn abs(&self) -> u32 {
            match self {
                Either::Left(i) => i.abs() as u32,
                Either::Right(u) => *u,
            }
        }
    }

    let maybe_neg = Either::Left(-1);
    assert_eq!(maybe_neg.abs(), 1);

    struct Foo<T, S> {
        t: T,
        s: S,
    }

    impl Foo<i32, f32> {
        pub fn multiply(&self) -> f32 {
            (self.t as f32) * self.s
        }
    }

    let foo = Foo { t: 2, s: 1.5 };
    assert_eq!(foo.multiply(), 3.0);
}

#[test]
fn exercise_generics_typestate() {
    struct HttpResponseBuilder<STATE> {
        state: STATE,
    }
    struct New;
    struct Headers {
        status_code: u16,
        headers: HashMap<String, String>,
    }
    struct HttpResponse {
        status_code: u16,
        headers: HashMap<String, String>,
        body: String,
    }

    impl HttpResponseBuilder<New> {
        pub fn new() -> Self {
            HttpResponseBuilder { state: New }
        }

        pub fn status(self, code: u16) -> HttpResponseBuilder<Headers> {
            HttpResponseBuilder {
                state: Headers {
                    status_code: code,
                    headers: HashMap::new(),
                },
            }
        }
    }

    impl HttpResponseBuilder<Headers> {
        pub fn add_header(mut self, key: String, val: String) -> Self {
            self.state.headers.insert(key, val);
            self
        }

        pub fn body(self, contents: String) -> HttpResponse {
            let Headers {
                status_code,
                headers,
            } = self.state;
            HttpResponse {
                status_code,
                headers,
                body: contents,
            }
        }
    }

    let response = HttpResponseBuilder::new()
        .status(200)
        .add_header("foo".to_string(), "bar".to_string())
        .body("snoopy".to_string());

    assert_eq!(response.status_code, 200);
    assert_eq!(response.headers.get("foo"), Some(&"bar".to_string()));
    assert_eq!(response.body, "snoopy");
}
