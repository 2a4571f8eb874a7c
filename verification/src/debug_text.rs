//! Texts as they are shown to a programmer.
use vstd::prelude::*;
use vstd::string::*;

use crate::text::{cat3, texts};

verus! {

/// The text in quotes, with escapes, as its `Debug` form shows it.
pub uninterp spec fn quoted(text: Seq<char>) -> Seq<char>;

/// `format!("{:?}")` of a `str`: the result depends on the text alone and is named by [`quoted`].
#[verifier::external_body]
fn debug_str(text: &str) -> (shown: String)
    ensures
        shown@ == quoted(text@),
{
    format!("{:?}", text)
}

/// A text that may be missing, as its `Debug` form shows it.
pub open spec fn shown_option(text: Option<Seq<char>>) -> Seq<char> {
    match text {
        Some(t) => "Some("@ + quoted(t) + ")"@,
        None => "None"@,
    }
}

/// A text that may be missing, by what it says.
pub open spec fn optional(text: Option<String>) -> Option<Seq<char>> {
    match text {
        Some(t) => Some(t@),
        None => None,
    }
}

/// A text that may be missing, as it is shown.
pub fn show_option(text: &Option<String>) -> (shown: String)
    ensures
        shown@ == shown_option(optional(*text)),
{
    match text {
        Some(t) => cat3("Some(", debug_str(t.as_str()).as_str(), ")"),
        None => "None".to_owned(),
    }
}

/// The first `n` texts, in quotes and with commas between them.
pub open spec fn shown_items(list: Seq<Seq<char>>, n: nat) -> Seq<char>
    decreases n,
{
    if n == 0 || n > list.len() {
        Seq::empty()
    } else if n == 1 {
        quoted(list[0])
    } else {
        shown_items(list, (n - 1) as nat) + ", "@ + quoted(list[n - 1])
    }
}

/// Several texts, as their `Debug` form shows them.
pub open spec fn shown_list(list: Seq<Seq<char>>) -> Seq<char> {
    "["@ + shown_items(list, list.len()) + "]"@
}

/// Several texts, as they are shown.
pub fn show_list(list: &Vec<String>) -> (shown: String)
    ensures
        shown@ == shown_list(texts(list@)),
{
    let ghost all = texts(list@);
    let mut items = String::new();
    let mut i: usize = 0;
    proof {
        assert(items@ =~= shown_items(all, 0));
    }
    while i < list.len()
        invariant
            i <= list@.len(),
            all == texts(list@),
            items@ == shown_items(all, i as nat),
        decreases list@.len() - i,
    {
        proof {
            assert(all[i as int] == list@[i as int]@);
        }
        let item = debug_str(list[i].as_str());
        if i == 0 {
            items = item;
        } else {
            items = cat3(items.as_str(), ", ", item.as_str());
        }
        i = i + 1;
    }
    cat3("[", items.as_str(), "]")
}

} // verus!
