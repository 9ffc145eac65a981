use rustracing::convert::MaybeAsRef;

struct Foo;

struct Bar(Foo);

impl MaybeAsRef<Foo> for Bar {
    fn maybe_as_ref(&self) -> Option<&Foo> {
        Some(&self.0)
    }
}

#[test]
fn convert_it_works() {
    let bar = Bar(Foo);
    assert!(bar.maybe_as_ref().is_some());

    let opt = Some(Bar(Foo));
    let r: Option<&Foo> = opt.maybe_as_ref();
    assert!(r.is_some());

    let none: Option<Bar> = None;
    assert!(none.maybe_as_ref().is_none());
}
