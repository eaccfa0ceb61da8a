//! Audio nodes as the sound server lists them, and which of them are
//! physical sinks.

use vstd::prelude::*;
use vstd::utf8::encode_utf8;

verus! {

/// The properties of a node that matter here.
#[derive(Clone, Debug)]
pub struct PwProps {
    pub media_class: Option<String>,
    pub node_name: Option<String>,
    pub factory_name: Option<String>,
}

#[derive(Clone, Debug)]
pub struct PwInfo {
    pub props: Option<PwProps>,
}

#[derive(Clone, Debug)]
pub struct PwNode {
    pub id: u32,
    pub info: Option<PwInfo>,
}

/// Whether the text is the name of one of the virtual sinks that are
/// never treated as physical.
pub open spec fn is_ignored_sink(name: Seq<char>) -> bool {
    name == "X1"@ || name == "X2"@
}

/// The name under which a node counts as a physical sink, if it does: it
/// is an audio sink, no null sink, and its name is not an ignored one.
pub open spec fn physical_sink_name(node: PwNode) -> Option<String> {
    match node.info {
        Some(PwInfo { props: Some(props) }) => {
            if props.media_class is Some && props.media_class->Some_0@ == "Audio/Sink"@ && !(
            props.factory_name is Some && props.factory_name->Some_0@
                == "support.null-audio-sink"@) && props.node_name is Some && !is_ignored_sink(
                props.node_name->Some_0@,
            ) {
                props.node_name
            } else {
                None
            }
        },
        _ => None,
    }
}

/// Whether the text of `s` is `literal`.
fn text_is(s: &String, literal: &str) -> (same: bool)
    ensures
        same == (s@ == literal@),
{
    let owned = literal.to_owned();
    *s == owned
}

/// The name of a node that is a physical sink.
pub fn physical_sink(node: &PwNode) -> (name: Option<&String>)
    ensures
        name is Some <==> physical_sink_name(*node) is Some,
        name is Some ==> *name->Some_0 == physical_sink_name(*node)->Some_0,
{
    let info = match &node.info {
        Some(info) => info,
        None => {
            return None;
        },
    };
    let props = match &info.props {
        Some(props) => props,
        None => {
            return None;
        },
    };
    match &props.media_class {
        Some(class) => {
            if !text_is(class, "Audio/Sink") {
                return None;
            }
        },
        None => {
            return None;
        },
    }
    match &props.factory_name {
        Some(factory) => {
            if text_is(factory, "support.null-audio-sink") {
                return None;
            }
        },
        None => {},
    }
    match &props.node_name {
        Some(name) => {
            if text_is(name, "X1") || text_is(name, "X2") {
                None
            } else {
                Some(name)
            }
        },
        None => None,
    }
}

/// The bytes of a text in UTF-8, by which names are ordered.
pub open spec fn text_bytes(text: Seq<char>) -> Seq<u8> {
    encode_utf8(text)
}

/// Byte strings in dictionary order: `a` comes no later than `b`.
pub open spec fn bytes_le(a: Seq<u8>, b: Seq<u8>) -> bool
    decreases a.len(),
{
    if a.len() == 0 {
        true
    } else if b.len() == 0 {
        false
    } else if a[0] != b[0] {
        a[0] < b[0]
    } else {
        bytes_le(a.drop_first(), b.drop_first())
    }
}

/// Of two byte strings one comes no later than the other.
pub proof fn lemma_bytes_le_total(a: Seq<u8>, b: Seq<u8>)
    ensures
        bytes_le(a, b) || bytes_le(b, a),
    decreases a.len(),
{
    if a.len() > 0 && b.len() > 0 && a[0] == b[0] {
        lemma_bytes_le_total(a.drop_first(), b.drop_first());
    }
}

/// Dictionary order is transitive.
pub proof fn lemma_bytes_le_transitive(a: Seq<u8>, b: Seq<u8>, c: Seq<u8>)
    requires
        bytes_le(a, b),
        bytes_le(b, c),
    ensures
        bytes_le(a, c),
    decreases a.len(),
{
    if a.len() > 0 && b.len() > 0 && c.len() > 0 && a[0] == b[0] && b[0] == c[0] {
        lemma_bytes_le_transitive(a.drop_first(), b.drop_first(), c.drop_first());
    }
}

/// Whether `a` comes no later than `b` in dictionary order.
pub fn bytes_no_later(a: &[u8], b: &[u8]) -> (le: bool)
    ensures
        le == bytes_le(a@, b@),
{
    let mut i: usize = 0;
    proof {
        assert(a@.skip(0) =~= a@ && b@.skip(0) =~= b@);
    }
    while i < a.len() && i < b.len()
        invariant
            0 <= i <= a@.len(),
            i <= b@.len(),
            bytes_le(a@, b@) == bytes_le(a@.skip(i as int), b@.skip(i as int)),
        decreases a@.len() - i,
    {
        proof {
            let x = a@.skip(i as int);
            let y = b@.skip(i as int);
            assert(x[0] == a@[i as int] && y[0] == b@[i as int]);
            assert(x.drop_first() =~= a@.skip(i + 1));
            assert(y.drop_first() =~= b@.skip(i + 1));
        }
        if a[i] != b[i] {
            return a[i] < b[i];
        }
        i += 1;
    }
    i == a.len()
}

} // verus!
