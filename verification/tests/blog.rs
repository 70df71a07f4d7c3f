use taskpool::blog;
use taskpool::blog_enum;
use taskpool::blog_types;

#[test]
fn add_text() {
    let mut post = blog::Post::new();

    post.add_text("Test");

    assert_eq!("", post.content());

    post.request_review();

    post.approve();
    assert_eq!("", post.content());

    post.approve();

    assert_eq!("Test", post.content());
}

#[test]
fn reject_pending_review() {
    let mut post = blog::Post::new();

    post.add_text("Test");

    post.request_review();

    post.approve();

    assert_eq!("", post.content());

    post.reject();

    post.request_review();

    post.approve();

    post.approve();
    assert_eq!("Test", post.content());
}

#[test]
fn editable() {
    let mut post = blog::Post::new();

    post.add_text("Test");
    post.add_text("Test");

    post.request_review();

    post.add_text("Test");

    post.approve();

    post.add_text("Test");

    post.approve();

    post.add_text("Test");

    assert_eq!("TestTest", post.content());
}

#[test]
fn lib_add_text() {
    let mut post = blog_enum::Post::new();

    post.add_text("Test");

    assert_eq!("", post.content());

    post.request_review();

    post.approve();
    assert_eq!("", post.content());

    post.approve();

    assert_eq!("Test", post.content());
}

#[test]
fn lib_reject_pending_review() {
    let mut post = blog_enum::Post::new();

    post.add_text("Test");

    post.request_review();

    post.approve();

    assert_eq!("", post.content());

    post.reject();

    post.request_review();

    post.approve();

    post.approve();
    assert_eq!("Test", post.content());
}

#[test]
fn lib_editable() {
    let mut post = blog_enum::Post::new();

    post.add_text("Test");
    post.add_text("Test");

    post.request_review();

    post.add_text("Test");

    post.approve();

    post.add_text("Test");

    post.approve();

    post.add_text("Test");

    assert_eq!("TestTest", post.content());
}

#[test]
fn typed_review_round_trip() {
    let mut post = blog_types::Post::new();

    post.add_text("I ate a salad for lunch today");

    let post = post.request_review();

    let post = post.approve();

    let mut post = post.reject();
    post.add_text("Test");

    let post = post.request_review();

    let post = post.approve();

    let post = post.approve();

    assert_eq!("I ate a salad for lunch todayTest", post.content());
}
