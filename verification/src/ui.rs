//! What the web interface decides: the label of a sound, the address of a
//! set's page and the set it names, the name of a new set, and what a click
//! on a sound does.

use vstd::prelude::*;
use crate::library::given_name;
use crate::model::opt_view;
use crate::text::{decimal, parse_u64, parse_u64_spec, trim, trimmed, u64_to_decimal, lemma_decimal_roundtrip};

verus! {

/// The label of a sound: its name, or its path where it has none.
pub open spec fn label(path: Seq<char>, name: Option<Seq<char>>) -> Seq<char> {
    match name {
        Some(n) => n,
        None => path,
    }
}

/// The beginning of the address of a set's page.
pub open spec fn set_prefix() -> Seq<char> {
    seq!['/', 's', 'e', 't', '/']
}

/// The address of the page of the set `id`.
pub open spec fn set_href_spec(id: u64) -> Seq<char> {
    set_prefix() + decimal(id as nat)
}

/// The set that an address names: the page `/set/` followed by an
/// identifier in decimal.
pub open spec fn routed_set(address: Seq<char>) -> Option<u64> {
    if address.len() >= 5 && address.take(5) == set_prefix() {
        parse_u64_spec(address.skip(5))
    } else {
        None
    }
}

/// The text shown for a sound: its name, or its path where it has none.
pub fn get_name(path: String, name: Option<String>) -> (r: String)
    ensures
        r@ == label(path@, opt_view(name)),
{
    match name {
        Some(n) => n,
        None => path,
    }
}

/// The address of the page of the set `id`.
pub fn set_href(id: u64) -> (r: String)
    ensures
        r@ == set_href_spec(id),
{
    let digits = u64_to_decimal(id);
    let prefix = "/set/";
    proof {
        reveal_strlit("/set/");
    }
    assert(prefix@ =~= set_prefix());
    let mut r = prefix.to_owned();
    r.append(digits.as_str());
    r
}

/// The set identifier in the `id` parameter of a set's page, where it is
/// present and is a number.
pub fn parse_set_id(param: Option<&str>) -> (r: Option<u64>)
    ensures
        r == match param {
            Some(s) => parse_u64_spec(s@),
            None => None,
        },
{
    match param {
        Some(s) => parse_u64(s),
        None => None,
    }
}

/// The name of a set to add, from what a user typed: the input without
/// surrounding white space, or nothing, and no set, where nothing remains.
pub fn new_set_name(input: &str) -> (r: Option<String>)
    ensures
        opt_view(r) == given_name(input@),
        trimmed(input@).len() > 0 ==> (r matches Some(s) && s@ == trimmed(input@)),
        trimmed(input@).len() == 0 ==> r is None,
{
    let t = trim(input);
    if t.is_empty() {
        None
    } else {
        Some(t.to_owned())
    }
}

/// What a click on a sound asks of the server.
pub enum ClickCommand {
    /// Nothing.
    Nothing,
    /// Play the sound at this path.
    Play(String),
    /// Name the sound `id` with what the user typed.
    Rename { id: u64, name: String },
}

/// The outcome of a click on a sound: the name shown for it afterwards,
/// and the request to the server.
pub struct ClickOutcome {
    pub shown_name: Option<String>,
    pub command: ClickCommand,
}

/// A click on the sound `id`: outside edit mode it is played; in edit mode
/// the user was asked for a name, and `answer` is what they gave, if they
/// gave one; the sound is then renamed to it and shown with it.
pub fn click_sound(editing: bool, id: u64, path: String, current: Option<String>, answer: Option<String>) -> (r: ClickOutcome)
    ensures
        !editing ==> opt_view(r.shown_name) == opt_view(current),
        !editing ==> (r.command matches ClickCommand::Play(p) && p@ == path@),
        editing && answer is None ==> opt_view(r.shown_name) == opt_view(current) && r.command is Nothing,
        editing ==> (answer matches Some(a) ==> opt_view(r.shown_name) == Some(a@)),
        editing ==> (answer matches Some(a) ==> (r.command matches ClickCommand::Rename { id: i, name } && i == id && name@ == a@)),
{
    if editing {
        match answer {
            Some(a) => {
                let shown = a.clone();
                ClickOutcome { shown_name: Some(shown), command: ClickCommand::Rename { id, name: a } }
            },
            None => ClickOutcome { shown_name: current, command: ClickCommand::Nothing },
        }
    } else {
        ClickOutcome { shown_name: current, command: ClickCommand::Play(path) }
    }
}

/// Following the link to a set's page leads back to that set.
pub proof fn lemma_set_route_roundtrip(id: u64)
    ensures
        routed_set(set_href_spec(id)) == Some(id),
{
    let a = set_href_spec(id);
    assert(a.take(5) =~= set_prefix());
    assert(a.skip(5) =~= decimal(id as nat));
    lemma_decimal_roundtrip(id);
}

} // verus!
