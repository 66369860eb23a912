//! Small functions that show how borrows and lifetimes flow through
//! signatures, each with what it hands back stated.
use vstd::prelude::*;

verus! {

/// A borrowed string slice that lives for `'a`.
pub struct W<'a> {
    pub v: &'a str,
}

impl<'a> W<'a> {
    /// Hands back the held slice, whose lifetime outlives that of `t`.
    pub fn a<'b>(&self, t: &'b str) -> (r: &'a str)
        where
            'a: 'b,
        ensures
            r@ == self.v@,
    {
        self.v
    }
}

/// Always the first argument: only its lifetime ties to the result.
pub fn longest<'a, 'b>(x: &'a str, y: &'b str) -> (r: &'a str)
    ensures
        r@ == x@,
{
    x
}

/// Of two slices of one lifetime, the one with more bytes; `y` on a tie.
pub fn longer<'a>(x: &'a str, y: &'a str) -> (r: &'a str)
    ensures
        r@ == if x.len() > y.len() {
            x@
        } else {
            y@
        },
{
    if x.len() > y.len() {
        x
    } else {
        y
    }
}

#[derive(Debug)]
pub struct Foo;

impl Foo {
    /// Reborrows a unique borrow as a shared one, changing nothing.
    pub fn mutate_and_share(&mut self) -> (r: &Self)
        ensures
            *final(self) == *old(self),
            *r == *old(self),
    {
        &*self
    }

    pub fn share(&self) {
    }
}

/// A string that lives for the whole program.
pub fn gen_static_str() -> (r: &'static str)
    ensures
        r@ == "hello"@,
{
    "hello"
}

#[derive(Debug)]
pub struct Person {
    pub name: String,
    pub age: u8,
}

impl Person {
    pub fn new(name: String, age: u8) -> (r: Self)
        ensures
            r.name == name,
            r.age == age,
    {
        Self { name, age }
    }

    /// Borrows the fields in place; the person is left as it was.
    pub fn display(&mut self, age: u8)
        ensures
            *final(self) == *old(self),
    {
        let Person { name, age } = &*self;
    }
}

/// A box of one value that dereferences to it.
pub struct MyBox<T>(pub T);

impl<T> MyBox<T> {
    pub fn new(x: T) -> (r: MyBox<T>)
        ensures
            r.0 == x,
    {
        MyBox(x)
    }
}

impl<T> core::ops::Deref for MyBox<T> {
    type Target = T;

    fn deref(&self) -> (r: &T)
        ensures
            *r == self.0,
    {
        &self.0
    }
}

/// Takes a borrowed slice and does nothing with it.
pub fn display(s: &str) {
}

} // verus!
