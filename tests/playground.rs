use seq_expand::lifetimes::{display, gen_static_str, longer, longest, Foo, MyBox, Person, W};
use std::rc::Rc;

#[test]
fn test3() {
    // T outlives 'a
    struct Ref<'a, T: 'a> {
        r: &'a T,
    }
}

#[test]
fn test4() {
    let s1: Box<str> = "hello".into();
}

#[test]
fn test5() {
    let s = gen_static_str();
    println!("{}", s);
}

#[test]
fn test6() {
    let x = 5;
    let y = &x;

    assert_eq!(5, x);
    assert_eq!(5, *y);

    let x = Box::new(1);

    let sum = *x + 1;
}

#[test]
fn test7() {
    let y = MyBox::new(3);

    assert_eq!(3, *y);

    let s = MyBox::new(String::from(""));
    display(&s);
}

#[test]
fn test8() {
    struct HasDrop1;
    struct HasDrop2;

    impl Drop for HasDrop1 {
        fn drop(&mut self) {
            println!("Dropping HasDrop1!");
        }
    }
    impl Drop for HasDrop2 {
        fn drop(&mut self) {
            println!("Dropping HasDrop2!");
        }
    }
    struct HasTwoDrops {
        one: HasDrop1,
        two: HasDrop2,
    }

    impl Drop for HasTwoDrops {
        fn drop(&mut self) {
            println!("Dropping HasTwoDrops!");
        }
    }

    struct FOO;

    impl Drop for FOO {
        fn drop(&mut self) {
            println!("Dropping FOO!");
        }
    }

    let _x = HasTwoDrops {
        one: HasDrop1,
        two: HasDrop2,
    };

    let _foo = FOO;

    println!("Running");
}

#[test]
fn test9() {
    struct Foo;

    impl Drop for Foo {
        fn drop(&mut self) {}
    }
}

#[test]
fn test10() {
    struct Owner {
        name: String,
    }

    struct Gadget {
        id: i32,
        owner: Rc<Owner>,
    }

    let gadget_owner = Rc::new(Owner {
        name: "wwdfds".to_string(),
    });

    println!("strong_count = {}", Rc::strong_count(&gadget_owner));
    let gadget1 = Gadget {
        id: 1,
        owner: Rc::clone(&gadget_owner),
    };
    let gadget2 = Gadget {
        id: 2,
        owner: Rc::clone(&gadget_owner),
    };

    drop(gadget_owner);
    drop(gadget1);

    println!("strong_count = {}", Rc::strong_count(&gadget2.owner));

    println!("gadget2 = {}", (*gadget2.owner).name);
}

#[test]
fn test22() {
    struct Cacher<T, E>
    where
        T: Fn(E) -> E,
        E: Copy,
    {
        query: T,
        value: Option<E>,
    }

    impl<T, E> Cacher<T, E>
    where
        T: Fn(E) -> E,
        E: Copy,
    {
        fn new(query: T) -> Cacher<T, E> {
            Cacher { query, value: None }
        }

        fn value(&mut self, arg: E) -> E {
            match self.value {
                Some(v) => v,
                None => {
                    let v = (self.query)(arg);
                    self.value = Some(v);
                    v
                }
            }
        }
    }

    let mut c = Cacher::new(|a| a);

    let v1 = c.value(1);
    let v2 = c.value(2);

    assert_eq!(v2, 1);
}

#[test]
fn test81() {
    fn invalid_output<'a>() -> &'a str {
        "foo"
    }

    fn invalid_output1() -> &'static str {
        "foo"
    }

    fn invalid_output2() -> String {
        "foo".to_string()
    }

    fn failed_borrow<'a, 'b: 'a>() {
        // 'b outlives 'a
        let _x: &'b i32 = &12;

        let y: &'a i32 = &_x;
    }

    fn print_refs<'a, 'b>(x: &'a i32, y: &'b i32) {
        println!("x is {} and y is {}", x, y);
    }
    let b = Box::new(1);
    let a = Box::leak(b);
}

#[test]
fn longest_returns_its_first_argument() {
    let string1 = String::from("long string is long");
    let result;
    {
        let string2 = String::from("xyz");
        result = longest(string1.as_str(), string2.as_str());
    }
    assert_eq!(result, "long string is long");
}

#[test]
fn longer_picks_more_bytes() {
    assert_eq!(longer("abc", "de"), "abc");
    assert_eq!(longer("ab", "cde"), "cde");
    assert_eq!(longer("ab", "cd"), "cd");
}

#[test]
fn wrapper_hands_back_held_slice() {
    let w = W { v: "held" };
    assert_eq!(w.a("other"), "held");
}

#[test]
fn person_keeps_fields() {
    let mut p = Person::new("Ann".to_string(), 30);
    p.display(40);
    assert_eq!(p.name, "Ann");
    assert_eq!(p.age, 30);
    let mut foo = Foo;
    let loan = foo.mutate_and_share();
    loan.share();
}
