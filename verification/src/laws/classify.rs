//! Laws on errors by what can be done about them.

use std::borrow::Cow;

use vstd::prelude::*;
use vstd::std_specs::convert::FromSpec;

use crate::classify::CorruptionError;
use crate::classify::IntoMessage;
use crate::classify::Message;

verus! {

/// What is made a message says the same as before, and an owned text stays owned while a borrowed one stays borrowed.
pub proof fn law_messages_are_kept(
    text: String,
    literal: &'static str,
    any: Cow<'static, str>,
)
    ensures
        text.as_message() == Cow::<'static, str>::Owned(text),
        text.as_message()@ == text@,
        literal.as_message() == Cow::<'static, str>::Borrowed(literal),
        literal.as_message()@ == literal@,
        any.as_message() == any,
{
}

/// An error that is made of a message says just that message.
pub proof fn law_corruption_says_the_message(
    text: String,
    literal: &'static str,
    message: Message,
)
    ensures
        <CorruptionError as FromSpec<String>>::from_spec(text).message@ == text@,
        <CorruptionError as FromSpec<&'static str>>::from_spec(literal).message@ == literal@,
        <CorruptionError as FromSpec<Message>>::from_spec(message).message@ == message.0@,
{
}

} // verus!
