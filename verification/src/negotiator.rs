//! Substream protocol negotiation: a pure selection of one mutually
//! supported application protocol for a freshly opened byte stream.
//!
//! The dialer proposes its candidate protocols in preference order; the
//! listener picks, from its registered set, the first proposal it supports.
//! A mismatch fails only that substream, never the parent connection.

use vstd::prelude::*;

use crate::types::Role;

verus! {

/// The first name in `prefer` that also occurs in `offered`.
pub open spec fn first_match(prefer: Seq<Seq<char>>, offered: Seq<Seq<char>>) -> Option<Seq<char>>
    decreases prefer.len(),
{
    if prefer.len() == 0 {
        None
    } else if offered.contains(prefer[0]) {
        Some(prefer[0])
    } else {
        first_match(prefer.skip(1), offered)
    }
}

/// The characters of an optional name.
pub open spec fn opt_chars(r: Option<String>) -> Option<Seq<char>> {
    match r {
        Some(s) => Some(s@),
        None => None,
    }
}

/// The protocol the negotiation settles on, given both ends' lists: the
/// dialer's proposals are tried in order against what the listener
/// registered.
pub open spec fn negotiated(
    role: Role,
    local: Seq<Seq<char>>,
    remote: Seq<Seq<char>>,
) -> Option<Seq<char>> {
    match role {
        Role::Dialer => first_match(local, remote),
        Role::Listener => first_match(remote, local),
    }
}

/// Skipping proposals that the listener does not support leaves the
/// selection unchanged.
proof fn lemma_first_match_skip(prefer: Seq<Seq<char>>, offered: Seq<Seq<char>>, i: int)
    requires
        0 <= i <= prefer.len(),
        forall|j: int| 0 <= j < i ==> !offered.contains(#[trigger] prefer[j]),
    ensures
        first_match(prefer, offered) == first_match(prefer.skip(i), offered),
    decreases i,
{
    if i > 0 {
        lemma_first_match_skip(prefer, offered, i - 1);
        assert(prefer.skip(i - 1).len() > 0);
        assert(prefer.skip(i - 1)[0] == prefer[i - 1]);
        assert(!offered.contains(prefer.skip(i - 1)[0]));
        assert(prefer.skip(i - 1).skip(1) =~= prefer.skip(i));
    } else {
        assert(prefer.skip(0) =~= prefer);
    }
}

/// Whether `name` occurs in `names`.
fn contains_name(names: &Vec<String>, name: &String) -> (r: bool)
    ensures
        r == names.deep_view().contains(name@),
{
    let mut i: usize = 0;
    while i < names.len()
        invariant
            i <= names@.len(),
            forall|j: int| 0 <= j < i ==> names.deep_view()[j] != name@,
        decreases names@.len() - i,
    {
        if names[i] == *name {
            proof {
                assert(names.deep_view()[i as int] == name@);
            }
            return true;
        }
        i = i + 1;
    }
    false
}

/// The first name in `prefer` that also occurs in `offered`.
fn first_match_exec(prefer: &Vec<String>, offered: &Vec<String>) -> (r: Option<String>)
    ensures
        opt_chars(r) == first_match(prefer.deep_view(), offered.deep_view()),
{
    let mut i: usize = 0;
    while i < prefer.len()
        invariant
            i <= prefer@.len(),
            forall|j: int|
                0 <= j < i ==> !offered.deep_view().contains(#[trigger] prefer.deep_view()[j]),
        decreases prefer@.len() - i,
    {
        if contains_name(offered, &prefer[i]) {
            proof {
                lemma_first_match_skip(prefer.deep_view(), offered.deep_view(), i as int);
                assert(prefer.deep_view().skip(i as int)[0] == prefer.deep_view()[i as int]);
            }
            return Some(prefer[i].clone());
        }
        i = i + 1;
    }
    proof {
        lemma_first_match_skip(prefer.deep_view(), offered.deep_view(), prefer@.len() as int);
        assert(prefer.deep_view().skip(prefer@.len() as int).len() == 0);
    }
    None
}

/// Select the protocol for a fresh substream: the dialer proposes `local`
/// in preference order, the listener answers with the first proposal found
/// in its registered set. `None` is a mismatch, which fails only this
/// substream.
pub fn select_protocol(role: Role, local: &Vec<String>, remote: &Vec<String>) -> (r: Option<
    String,
>)
    ensures
        opt_chars(r) == negotiated(role, local.deep_view(), remote.deep_view()),
{
    match role {
        Role::Dialer => first_match_exec(local, remote),
        Role::Listener => first_match_exec(remote, local),
    }
}

/// Both ends of one substream settle on the same protocol: the dialer's
/// selection against the listener's set equals the listener's selection
/// against the dialer's proposals.
pub proof fn lemma_negotiation_agreement(dialer: Seq<Seq<char>>, listener: Seq<Seq<char>>)
    ensures
        negotiated(Role::Dialer, dialer, listener) == negotiated(Role::Listener, listener, dialer),
{
}

} // verus!
