use hello_relay::error::ServeError;
use hello_relay::handlers::{index, index_async, no_params, test1};

#[test]
fn no_params_greets_the_world() {
    assert_eq!(no_params(), "Hello world!\r\n");
}

#[test]
fn index_async_greets_the_world() {
    assert_eq!(index_async(), "Hello world!\r\n");
}

#[test]
fn test1_is_the_test_page() {
    assert_eq!(test1(), "Test\r\n");
}

#[test]
fn index_greets_the_name() {
    assert_eq!(index("Ferris"), Ok("Hello: Ferris!\r\n".to_string()));
}

#[test]
fn index_echoes_the_name_as_it_stands() {
    assert_eq!(index(""), Ok("Hello: !\r\n".to_string()));
    assert_eq!(index("a b"), Ok("Hello: a b!\r\n".to_string()));
    assert_eq!(index("<b>"), Ok("Hello: <b>!\r\n".to_string()));
    assert_eq!(index("żółw"), Ok("Hello: żółw!\r\n".to_string()));
    assert_eq!(index("{name}"), Ok("Hello: {name}!\r\n".to_string()));
}

#[test]
fn index_refuses_a_carriage_return() {
    assert_eq!(index("a\rb"), Err(ServeError::MalformedRequest));
}

#[test]
fn index_refuses_a_line_feed() {
    assert_eq!(index("a\nb"), Err(ServeError::MalformedRequest));
    assert_eq!(index("\n"), Err(ServeError::MalformedRequest));
    assert_eq!(index("x\r\nSet-Cookie: a=b"), Err(ServeError::MalformedRequest));
}
