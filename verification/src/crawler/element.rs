//! Links that a page lists itself.

use vstd::prelude::*;

use crate::crawler::audit::{text_items, texts_in};
use crate::json::{json_array, json_str, json_view, json_views, parse_json, parsed_json, JsonView};
use crate::text::views;

verus! {

/// Every item is a text.
pub open spec fn all_texts(items: Seq<JsonView>) -> bool {
    forall|i: int| 0 <= i < items.len() ==> (#[trigger] items[i]).text() is Some
}

/// The links in a JSON value: its items, where it is a list of texts and nothing else.
pub open spec fn listed_links(v: Option<JsonView>) -> Seq<Seq<char>> {
    match v {
        Some(JsonView::List(items)) => if all_texts(items) {
            texts_in(items)
        } else {
            Seq::empty()
        },
        _ => Seq::empty(),
    }
}

/// The text that the page gave; an empty list where it gave none.
pub open spec fn listing(reply: Option<JsonView>) -> Seq<char> {
    match reply {
        Some(v) => match v.text() {
            Some(s) => s,
            None => "[]"@,
        },
        None => "[]"@,
    }
}

/// The links in a JSON value.
pub fn links_in(v: Option<&serde_json::Value>) -> (r: Vec<String>)
    ensures
        views(r@) == listed_links(
            match v {
                Some(x) => Some(json_view(*x)),
                None => None,
            },
        ),
{
    let none: Vec<String> = Vec::new();
    proof {
        assert(views(none@) =~= Seq::<Seq<char>>::empty());
    }
    let items = match v {
        Some(x) => match json_array(x) {
            Some(items) => items,
            None => {
                return none;
            },
        },
        None => {
            return none;
        },
    };
    let mut i: usize = 0;
    while i < items.len()
        invariant
            i <= items.len(),
            v is Some,
            json_view(*v->0).list() == Some(json_views(items@)),
            views(none@) == Seq::<Seq<char>>::empty(),
            forall|j: int| 0 <= j < i ==> (#[trigger] json_views(items@)[j]).text() is Some,
        decreases items.len() - i,
    {
        if json_str(&items[i]).is_none() {
            proof {
                assert(json_views(items@)[i as int].text() is None);
            }
            return none;
        }
        proof {
            assert(json_views(items@)[i as int].text() is Some);
        }
        i += 1;
    }
    text_items(items)
}

/// The links that a page lists; `reply` is what it gave back, if it did.
pub fn discover_links(reply: Option<&serde_json::Value>) -> (r: Vec<String>)
    ensures
        views(r@) == listed_links(
            parsed_json(
                listing(
                    match reply {
                        Some(v) => Some(json_view(*v)),
                        None => None,
                    },
                ),
            ),
        ),
{
    let text = match reply {
        Some(v) => match json_str(v) {
            Some(s) => s.to_string(),
            None => "[]".to_string(),
        },
        None => "[]".to_string(),
    };
    let parsed = parse_json(text.as_str());
    match &parsed {
        Some(v) => links_in(Some(v)),
        None => links_in(None),
    }
}

/// The links of a list are its texts, in order, where it holds nothing else; anything else has
/// no links.
pub proof fn links_are_read_from_texts(items: Seq<JsonView>, v: JsonView, s: Seq<char>)
    ensures
        (forall|i: int| 0 <= i < items.len() ==> (#[trigger] items[i]).text() is Some)
            ==> listed_links(Some(JsonView::List(items))) == texts_in(items),
        (exists|i: int| 0 <= i < items.len() && (#[trigger] items[i]).text() is None)
            ==> listed_links(Some(JsonView::List(items))).len() == 0,
        !(v is List) ==> listed_links(Some(v)).len() == 0,
        listed_links(None).len() == 0,
        listing(Some(JsonView::Text(s))) == s,
        listing(None) == "[]"@,
{
}

} // verus!
