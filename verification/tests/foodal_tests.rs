use storyestimate::foodal::{FooData, MemoryFoo};

#[test]
fn foo_set_then_get() {
    let mut foo = MemoryFoo::new();
    assert_eq!(foo.get("color").unwrap(), None);
    foo.set("color", "green").unwrap();
    assert_eq!(foo.get("color").unwrap(), Some("green".to_string()));
    foo.set("color", "blue").unwrap();
    assert_eq!(foo.get("color").unwrap(), Some("blue".to_string()));
}
