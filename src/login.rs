use vstd::prelude::*;
use vstd::string::StringExecFns;

verus! {

/// The query with which the login page is reached after a failed attempt.
pub struct QueryParams {
    pub error: String,
    pub tag: String,
}

/// The HTML of one flash message: a paragraph in italics, and a line break.
pub open spec fn message_html(m: Seq<char>) -> Seq<char> {
    "<p><i>"@ + m + "</i></p>\n"@
}

/// The HTML of the messages `ms`, one after the other.
pub open spec fn messages_html(ms: Seq<Seq<char>>) -> Seq<char>
    decreases ms.len(),
{
    if ms.len() == 0 {
        Seq::empty()
    } else {
        messages_html(ms.drop_last()) + message_html(ms.last())
    }
}

/// The HTML that shows the flash messages `messages` on the login page, in
/// order, each in its own paragraph.
pub fn flash_messages_html(messages: &Vec<String>) -> (r: String)
    ensures
        r@ == messages_html(messages@.map_values(|m: String| m@)),
{
    let ghost ms = messages@.map_values(|m: String| m@);
    let mut r = String::new();
    let mut i: usize = 0;
    while i < messages.len()
        invariant
            i <= messages.len(),
            ms == messages@.map_values(|m: String| m@),
            r@ == messages_html(ms.take(i as int)),
        decreases messages.len() - i,
    {
        assert(ms.take(i + 1).drop_last() == ms.take(i as int));
        r.append("<p><i>");
        r.append(messages[i].as_str());
        r.append("</i></p>\n");
        assert(r@ =~= messages_html(ms.take(i + 1)));
        i = i + 1;
    }
    assert(ms.take(i as int) == ms);
    r
}

} // verus!
