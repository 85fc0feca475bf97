//! The static handlers: each turns what the router found into a text.

use vstd::prelude::*;
use crate::error::ServeError;
use crate::text::{contains_line_break, has_line_break};

verus! {

/// The greeting for `name`.
pub open spec fn hello_text(name: Seq<char>) -> Seq<char> {
    "Hello: "@ + name + "!\r\n"@
}

/// The greeting that takes no name.
pub open spec fn hello_world_text() -> Seq<char> {
    "Hello world!\r\n"@
}

/// The text of the test page.
pub open spec fn test_text() -> Seq<char> {
    "Test\r\n"@
}

/// What `index` answers: the greeting, or a refusal to echo a name that holds a line break.
pub open spec fn index_result(name: Seq<char>) -> Result<Seq<char>, ServeError> {
    if has_line_break(name) {
        Err(ServeError::MalformedRequest)
    } else {
        Ok(hello_text(name))
    }
}

/// Greets `name`, which is echoed as it stands. A name with a carriage return or a line feed in
/// it is refused.
pub fn index(name: &str) -> (greeting: Result<String, ServeError>)
    ensures
        greeting is Err <==> has_line_break(name@),
        greeting matches Ok(text) ==> text@ == hello_text(name@),
        greeting matches Err(e) ==> e == ServeError::MalformedRequest,
{
    if contains_line_break(name) {
        return Err(ServeError::MalformedRequest);
    }
    let mut text = String::from_str("Hello: ");
    text.append(name);
    text.append("!\r\n");
    Ok(text)
}

/// The greeting of the second resource.
pub fn index_async() -> (text: &'static str)
    ensures
        text@ == hello_world_text(),
{
    "Hello world!\r\n"
}

/// The greeting of the root.
pub fn no_params() -> (text: &'static str)
    ensures
        text@ == hello_world_text(),
{
    "Hello world!\r\n"
}

/// The test page.
pub fn test1() -> (text: &'static str)
    ensures
        text@ == test_text(),
{
    "Test\r\n"
}

} // verus!
