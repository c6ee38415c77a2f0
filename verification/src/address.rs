//! Addresses as they are compared and drawn: the bare address inside a raw
//! socket string, and labels that are safe as identifiers of a graph.

use crate::pattern::{captured, replace_first, replaced};
use crate::text::{chars_of, lemma_empty_text, lemma_filter_push, push_char};
use vstd::prelude::*;

verus! {

/// A protocol at the end of an address, such as `/tcp`.
pub const PROTOCOL_SUFFIX: &'static str = r"/\w+$";

/// A port at the end of an address, such as `:8080`.
pub const PORT_SUFFIX: &'static str = r":\d{1,5}$";

/// A prefix length at the end of an address, such as `/24`.
pub const PREFIX_SUFFIX: &'static str = r"/\d+$";

/// A zone at the end of an address, such as `%eth0`.
pub const ZONE_SUFFIX: &'static str = r"%[0-9a-z]+$";

/// `text` without the leftmost match of `pattern`; `text` itself where the
/// pattern has no match in it.
pub open spec fn stripped(pattern: Seq<char>, text: Seq<char>) -> Seq<char> {
    if captured(pattern, text) is None {
        text
    } else {
        replaced(pattern, text, Seq::empty())
    }
}

/// The bare address in a raw address: what is left when a protocol, then a
/// port, then a prefix length, then a zone is taken from its end.
pub open spec fn bare_address_of(raw: Seq<char>) -> Seq<char> {
    stripped(
        ZONE_SUFFIX@,
        stripped(PREFIX_SUFFIX@, stripped(PORT_SUFFIX@, stripped(PROTOCOL_SUFFIX@, raw))),
    )
}

/// Whether `text` is bare already: it ends in none of the four suffixes.
pub open spec fn is_bare(text: Seq<char>) -> bool {
    &&& captured(PROTOCOL_SUFFIX@, text) is None
    &&& captured(PORT_SUFFIX@, text) is None
    &&& captured(PREFIX_SUFFIX@, text) is None
    &&& captured(ZONE_SUFFIX@, text) is None
}

/// Whether a character stays in a label.
pub open spec fn is_kept(c: char) -> bool {
    c != '-' && c != '@'
}

/// The character that stands for `c` in a label.
pub open spec fn label_char(c: char) -> char {
    if c == ':' {
        '_'
    } else {
        c
    }
}

/// `label` as an identifier: without `-` and `@`, and with `_` for `:`.
pub open spec fn sanitized(label: Seq<char>) -> Seq<char> {
    label.filter(|c: char| is_kept(c)).map_values(|c: char| label_char(c))
}

/// The bare address in `raw`.
pub fn bare_address(raw: &str) -> (bare: String)
    ensures
        bare@ == bare_address_of(raw@),
{
    proof {
        lemma_empty_text();
    }
    let without_protocol = replace_first(PROTOCOL_SUFFIX, raw, "");
    let without_port = replace_first(PORT_SUFFIX, without_protocol.as_str(), "");
    let without_prefix = replace_first(PREFIX_SUFFIX, without_port.as_str(), "");
    replace_first(ZONE_SUFFIX, without_prefix.as_str(), "")
}

/// `label` as an identifier of a graph.
pub fn sanitize_label(label: &str) -> (clean: String)
    ensures
        clean@ == sanitized(label@),
{
    let chars = chars_of(label);
    let ghost keep = |c: char| is_kept(c);
    let ghost stand = |c: char| label_char(c);
    let mut clean = String::new();
    let mut i: usize = 0;
    assert(chars@.take(0).filter(keep) =~= Seq::<char>::empty()) by {
        reveal(Seq::filter);
    }
    while i < chars.len()
        invariant
            i <= chars.len(),
            keep == |c: char| is_kept(c),
            stand == |c: char| label_char(c),
            clean@ =~= chars@.take(i as int).filter(keep).map_values(stand),
        decreases chars.len() - i,
    {
        let c = chars[i];
        proof {
            lemma_filter_push(chars@.take(i as int), c, keep);
            assert(chars@.take(i as int + 1) =~= chars@.take(i as int).push(c));
        }
        if c == ':' {
            push_char(&mut clean, '_');
        } else if c != '-' && c != '@' {
            push_char(&mut clean, c);
        }
        i += 1;
    }
    assert(chars@.take(i as int) =~= chars@);
    clean
}

/// An address that is bare already is its own bare address.
pub proof fn lemma_bare_address_of_bare(text: Seq<char>)
    requires
        is_bare(text),
    ensures
        bare_address_of(text) == text,
{
}

/// Taking the bare address is idempotent wherever its result is bare. It
/// is not where the first pass lays a suffix open: `a/b/c` gives `a/b`, and
/// `a/b` gives `a`.
pub proof fn lemma_bare_address_idempotent(raw: Seq<char>)
    requires
        is_bare(bare_address_of(raw)),
    ensures
        bare_address_of(bare_address_of(raw)) == bare_address_of(raw),
{
    lemma_bare_address_of_bare(bare_address_of(raw));
}

} // verus!
