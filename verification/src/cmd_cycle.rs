//! Cycling the virtual sink through the physical sinks: which sinks it is
//! linked to, and which one comes next.

use vstd::prelude::*;
use vstd::string::StringExecFns;
use crate::pipewire::{
    bytes_le, bytes_no_later, lemma_bytes_le_total, lemma_bytes_le_transitive, physical_sink,
    physical_sink_name, text_bytes, PwNode,
};
use crate::text::{
    chars_of, copy_range, find, find_char, is_whitespace, lemma_find_bounds, lines,
    char_is_whitespace, position_of, position_of_text, same_chars, split_lines, stands_at,
    starts_with, trim, trim_bounds,
};

verus! {

/// The names of the physical sinks among the nodes, in the order of the
/// nodes.
pub open spec fn physical_sink_names(nodes: Seq<PwNode>) -> Seq<String>
    decreases nodes.len(),
{
    if nodes.len() == 0 {
        Seq::empty()
    } else if physical_sink_name(nodes.last()) is Some {
        physical_sink_names(nodes.drop_last()).push(physical_sink_name(nodes.last())->Some_0)
    } else {
        physical_sink_names(nodes.drop_last())
    }
}

/// Whether the names are in dictionary order of their bytes, equal ones
/// side by side.
pub open spec fn names_ascend(names: Seq<String>) -> bool {
    forall|i: int, j: int|
        0 <= i < j < names.len() ==> bytes_le(text_bytes(names[i]@), text_bytes(names[j]@))
}

/// Puts `name` into an ascending list, behind every name that comes no
/// later.
fn insert_name(names: &mut Vec<String>, name: String)
    requires
        names_ascend(old(names)@),
    ensures
        names_ascend(final(names)@),
        final(names)@.to_multiset() == old(names)@.to_multiset().insert(name),
{
    let mut at: usize = 0;
    while at < names.len() && bytes_no_later(names[at].as_str().as_bytes(), name.as_str().as_bytes())
        invariant
            0 <= at <= names.len(),
            names@ == old(names)@,
            forall|k: int|
                0 <= k < at ==> bytes_le(text_bytes(#[trigger] names@[k]@), text_bytes(name@)),
        decreases names.len() - at,
    {
        at += 1;
    }
    let ghost before = names@;
    names.insert(at, name);
    proof {
        let after = names@;
        assert(after.remove(at as int) =~= before);
        vstd::seq_lib::to_multiset_remove(after, at as int);
        assert(after.to_multiset().count(name) > 0) by {
            broadcast use vstd::seq_lib::group_to_multiset_ensures;

            assert(after.contains(name)) by {
                assert(after[at as int] == name);
            }
        }
        assert(after.to_multiset() =~= before.to_multiset().insert(name));
        assert forall|i: int, j: int| 0 <= i < j < after.len() implies bytes_le(
            text_bytes(after[i]@),
            text_bytes(after[j]@),
        ) by {
            if j < at {
                assert(bytes_le(text_bytes(before[i]@), text_bytes(before[j]@)));
            } else if i > at {
                assert(bytes_le(text_bytes(before[i - 1]@), text_bytes(before[j - 1]@)));
            } else if i < at && j > at {
                assert(bytes_le(text_bytes(before[i]@), text_bytes(before[j - 1]@)));
            } else if i == at {
                lemma_bytes_le_total(text_bytes(before[at as int]@), text_bytes(name@));
                if j - 1 > at {
                    assert(bytes_le(text_bytes(before[at as int]@), text_bytes(before[j - 1]@)));
                    lemma_bytes_le_transitive(
                        text_bytes(name@),
                        text_bytes(before[at as int]@),
                        text_bytes(before[j - 1]@),
                    );
                }
            } else {
                assert(bytes_le(text_bytes(before[i]@), text_bytes(name@)));
            }
        }
    }
}

/// The names of the physical sinks among the nodes, in dictionary order.
/// A name that two nodes carry comes twice.
pub fn get_physical_sink_names(nodes: &[PwNode]) -> (names: Vec<String>)
    ensures
        names_ascend(names@),
        names@.to_multiset() == physical_sink_names(nodes@).to_multiset(),
{
    let mut names: Vec<String> = Vec::new();
    let mut i: usize = 0;
    proof {
        assert(nodes@.take(0) =~= Seq::empty());
    }
    while i < nodes.len()
        invariant
            0 <= i <= nodes@.len(),
            names_ascend(names@),
            names@.to_multiset() == physical_sink_names(nodes@.take(i as int)).to_multiset(),
        decreases nodes@.len() - i,
    {
        proof {
            assert(nodes@.take(i + 1).drop_last() =~= nodes@.take(i as int));
            assert(nodes@.take(i + 1).last() == nodes@[i as int]);
        }
        match physical_sink(&nodes[i]) {
            Some(name) => {
                proof {
                    vstd::seq_lib::to_multiset_build(
                        physical_sink_names(nodes@.take(i as int)),
                        *name,
                    );
                }
                insert_name(&mut names, name.clone());
            },
            None => {},
        }
        i += 1;
    }
    proof {
        assert(nodes@.take(nodes@.len() as int) =~= nodes@);
    }
    names
}

/// The arrow that marks a link in the list of links.
pub open spec fn arrow() -> Seq<char> {
    seq!['-', '>']
}

/// Whether a line of the list of links is a heading, which names a port;
/// the lines under a heading begin with white space.
pub open spec fn is_heading(line: Seq<char>) -> bool {
    !(line.len() > 0 && is_whitespace(line[0]))
}

/// Whether a line holds an arrow.
pub open spec fn names_link(line: Seq<char>) -> bool {
    find(line, arrow(), 0) < line.len()
}

/// The node that a line with an arrow points to: of what stands between
/// the first arrow and the next, without white space at either end, the
/// part before the first colon.
pub open spec fn link_target(line: Seq<char>) -> Seq<char> {
    let start = find(line, arrow(), 0) + 2;
    let port = trim(line.subrange(start, find(line, arrow(), start)));
    port.take(find_char(port, ':', 0))
}

/// The nodes that the lines link `source` to, where the last heading
/// before the lines was `section`: the targets of the lines with an arrow
/// under a heading that begins with the source's name and a colon.
pub open spec fn scan_links(lines: Seq<Seq<char>>, section: Seq<char>, source: Seq<char>) -> Set<
    Seq<char>,
>
    decreases lines.len(),
{
    if lines.len() == 0 {
        Set::empty()
    } else if is_heading(lines[0]) {
        scan_links(lines.drop_first(), trim(lines[0]), source)
    } else if starts_with(section, source.push(':')) && names_link(lines[0]) {
        scan_links(lines.drop_first(), section, source).insert(link_target(lines[0]))
    } else {
        scan_links(lines.drop_first(), section, source)
    }
}

/// The nodes that a list of links says `source` is linked to.
pub open spec fn linked_targets(output: Seq<char>, source: Seq<char>) -> Set<Seq<char>> {
    scan_links(lines(output), Seq::empty(), source)
}

/// The target of a line that holds an arrow.
fn target_of(line: &[char]) -> (target: Vec<char>)
    requires
        names_link(line@),
    ensures
        target@ == link_target(line@),
{
    let arrow_text: [char; 2] = ['-', '>'];
    assert(arrow_text@ =~= arrow());
    proof {
        lemma_find_bounds(line@, arrow(), 0);
    }
    let first = position_of_text(line, arrow_text.as_slice(), 0);
    let length = line.len();
    assert(first + 2 <= length) by {
        assert(arrow().len() == 2);
    }
    let start = first + 2;
    let end = position_of_text(line, arrow_text.as_slice(), start);
    let part = copy_range(line, start, end);
    let (from, to) = trim_bounds(part.as_slice());
    let port = copy_range(part.as_slice(), from, to);
    let colon = position_of(port.as_slice(), ':', 0);
    let target = copy_range(port.as_slice(), 0, colon);
    assert(port@.subrange(0, colon as int) =~= port@.take(colon as int));
    target
}

/// Which of the valid targets the list of links says `source` is linked
/// to: one flag for each valid target, in their order.
pub fn get_active_links(output: &str, source: &str, valid_targets: &[String]) -> (active: Vec<
    bool,
>)
    ensures
        active@.len() == valid_targets@.len(),
        forall|i: int|
            0 <= i < active@.len() ==> #[trigger] active@[i] == linked_targets(
                output@,
                source@,
            ).contains(valid_targets@[i]@),
{
    let text = chars_of(output);
    let all = split_lines(text.as_slice());
    let mut prefix = chars_of(source);
    prefix.push(':');
    let arrow_text: [char; 2] = ['-', '>'];
    assert(arrow_text@ =~= arrow());
    let ghost rows = lines(output@);
    let ghost total = linked_targets(output@, source@);
    let mut section: Vec<char> = Vec::new();
    let mut found: Vec<Vec<char>> = Vec::new();
    let mut i: usize = 0;
    proof {
        assert(rows.skip(0) =~= rows);
        assert(total =~= Set::<Seq<char>>::empty().union(scan_links(rows, section@, source@)));
    }
    while i < all.len()
        invariant
            0 <= i <= all@.len(),
            all@.len() == rows.len(),
            forall|k: int| 0 <= k < all@.len() ==> (#[trigger] all@[k])@ == rows[k],
            prefix@ == source@.push(':'),
            arrow_text@ == arrow(),
            forall|x: Seq<char>|
                total.contains(x) <==> (exists|k: int|
                    0 <= k < found@.len() && (#[trigger] found@[k])@ == x) || scan_links(
                    rows.skip(i as int),
                    section@,
                    source@,
                ).contains(x),
        decreases all@.len() - i,
    {
        let line = &all[i];
        let ghost rest = rows.skip(i as int);
        let ghost before = found@;
        let ghost old_section = section@;
        proof {
            assert(rest[0] == line@);
            assert(rest.drop_first() =~= rows.skip(i + 1));
        }
        if !(line.len() > 0 && char_is_whitespace(line[0])) {
            let (from, to) = trim_bounds(line.as_slice());
            section = copy_range(line.as_slice(), from, to);
        } else if stands_at(section.as_slice(), prefix.as_slice(), 0) {
            proof {
                lemma_find_bounds(line@, arrow(), 0);
            }
            let first = position_of_text(line.as_slice(), arrow_text.as_slice(), 0);
            if first < line.len() {
                let target = target_of(line.as_slice());
                found.push(target);
                proof {
                    let t = link_target(line@);
                    assert(found@[before.len() as int]@ == t);
                    assert forall|x: Seq<char>|
                        total.contains(x) <==> (exists|k: int|
                            0 <= k < found@.len() && (#[trigger] found@[k])@ == x) || scan_links(
                            rows.skip(i + 1),
                            section@,
                            source@,
                        ).contains(x) by {
                        if exists|k: int| 0 <= k < before.len() && (#[trigger] before[k])@ == x {
                            let k = choose|k: int|
                                0 <= k < before.len() && (#[trigger] before[k])@ == x;
                            assert(found@[k]@ == x);
                        }
                        if exists|k: int| 0 <= k < found@.len() && (#[trigger] found@[k])@ == x {
                            let k = choose|k: int|
                                0 <= k < found@.len() && (#[trigger] found@[k])@ == x;
                            if k < before.len() {
                                assert(before[k]@ == x);
                            }
                        }
                    }
                }
            }
        }
        i += 1;
    }
    proof {
        assert(rows.skip(i as int).len() == 0);
    }
    let mut active: Vec<bool> = Vec::new();
    let mut t: usize = 0;
    while t < valid_targets.len()
        invariant
            0 <= t <= valid_targets@.len(),
            active@.len() == t,
            forall|x: Seq<char>|
                total.contains(x) <==> (exists|k: int|
                    0 <= k < found@.len() && (#[trigger] found@[k])@ == x),
            forall|j: int|
                0 <= j < t ==> #[trigger] active@[j] == total.contains(valid_targets@[j]@),
        decreases valid_targets@.len() - t,
    {
        let name = chars_of(valid_targets[t].as_str());
        let mut linked = false;
        let mut k: usize = 0;
        while k < found.len() && !linked
            invariant
                0 <= k <= found@.len(),
                name@ == valid_targets@[t as int]@,
                linked ==> exists|m: int| 0 <= m < found@.len() && (#[trigger] found@[m])@ == name@,
                !linked ==> forall|m: int| 0 <= m < k ==> (#[trigger] found@[m])@ != name@,
            decreases found@.len() - k,
        {
            if same_chars(found[k].as_slice(), name.as_slice()) {
                linked = true;
            }
            k += 1;
        }
        active.push(linked);
        t += 1;
    }
    active
}

/// The virtual sink that is cycled through the physical sinks.
pub const VIRTUAL_SINK_TO_CYCLE: &'static str = "X1";

/// What one step of the cycle changes: the sinks to take the virtual sink
/// off, and the sink to put it on.
#[derive(Clone, Debug)]
pub struct CyclePlan {
    pub unlink: Vec<String>,
    pub link: String,
}

/// Whether no name before position `i` is the name at `i`.
pub open spec fn is_first(names: Seq<String>, i: int) -> bool {
    forall|j: int| 0 <= j < i ==> (#[trigger] names[j])@ != names[i]@
}

/// Whether the name at `i` is linked, and stands at `i` for the first time.
pub open spec fn counts(names: Seq<String>, targets: Set<Seq<char>>, i: int) -> bool {
    targets.contains(names[i]@) && is_first(names, i)
}

/// The last position below `upto` that counts; -1 where none does.
pub open spec fn last_active(names: Seq<String>, targets: Set<Seq<char>>, upto: int) -> int
    decreases upto,
{
    if upto <= 0 {
        -1
    } else if counts(names, targets, upto - 1) {
        upto - 1
    } else {
        last_active(names, targets, upto - 1)
    }
}

/// The position of the sink that comes next: the one behind the last
/// linked sink, the first one again behind the last of all; the first one
/// where no sink is linked.
pub open spec fn next_index(names: Seq<String>, targets: Set<Seq<char>>) -> int {
    let last = last_active(names, targets, names.len() as int);
    if last < 0 {
        0
    } else {
        (last + 1) % (names.len() as int)
    }
}

/// The linked sinks below `upto` other than `keep`, each once, by position.
pub open spec fn to_unlink(
    names: Seq<String>,
    targets: Set<Seq<char>>,
    keep: Seq<char>,
    upto: int,
) -> Seq<String>
    decreases upto,
{
    if upto <= 0 {
        Seq::empty()
    } else if counts(names, targets, upto - 1) && names[upto - 1]@ != keep {
        to_unlink(names, targets, keep, upto - 1).push(names[upto - 1])
    } else {
        to_unlink(names, targets, keep, upto - 1)
    }
}

/// Whether the name at `i` stands there for the first time.
fn first_of_its_name(names: &[String], i: usize) -> (first: bool)
    requires
        i < names@.len(),
    ensures
        first == is_first(names@, i as int),
{
    let mut j: usize = 0;
    while j < i
        invariant
            0 <= j <= i < names@.len(),
            forall|k: int| 0 <= k < j ==> (#[trigger] names@[k])@ != names@[i as int]@,
        decreases i - j,
    {
        if names[j] == names[i] {
            return false;
        }
        j += 1;
    }
    true
}

/// One step of the cycle, given the physical sinks and the list of links
/// as the sound server prints it. The virtual sink goes to the sink
/// behind the last one it is linked to, and leaves every other sink that
/// it is linked to. Without physical sinks there is nothing to do.
pub fn run(physical: &[String], links: &str) -> (plan: Option<CyclePlan>)
    ensures
        plan is None <==> physical@.len() == 0,
        plan is Some ==> {
            let targets = linked_targets(links@, VIRTUAL_SINK_TO_CYCLE@);
            &&& plan->Some_0.link == physical@[next_index(physical@, targets)]
            &&& plan->Some_0.unlink@ == to_unlink(
                physical@,
                targets,
                plan->Some_0.link@,
                physical@.len() as int,
            )
        },
{
    if physical.len() == 0 {
        return None;
    }
    let active = get_active_links(links, VIRTUAL_SINK_TO_CYCLE, physical);
    let ghost targets = linked_targets(links@, VIRTUAL_SINK_TO_CYCLE@);
    let mut counting: Vec<bool> = Vec::new();
    let mut last: Option<usize> = None;
    let mut i: usize = 0;
    while i < physical.len()
        invariant
            0 <= i <= physical@.len(),
            active@.len() == physical@.len(),
            forall|k: int|
                0 <= k < active@.len() ==> #[trigger] active@[k] == targets.contains(
                    physical@[k]@,
                ),
            counting@.len() == i,
            forall|k: int| 0 <= k < i ==> #[trigger] counting@[k] == counts(physical@, targets, k),
            last is None <==> last_active(physical@, targets, i as int) == -1,
            last is Some ==> last->Some_0 == last_active(physical@, targets, i as int),
            last_active(physical@, targets, i as int) < i,
        decreases physical@.len() - i,
    {
        let here = active[i] && first_of_its_name(physical, i);
        if here {
            last = Some(i);
        }
        counting.push(here);
        i += 1;
    }
    let next: usize = match last {
        Some(at) => (at + 1) % physical.len(),
        None => 0,
    };
    let link = physical[next].clone();
    let mut unlink: Vec<String> = Vec::new();
    let mut k: usize = 0;
    while k < physical.len()
        invariant
            0 <= k <= physical@.len(),
            counting@.len() == physical@.len(),
            forall|m: int|
                0 <= m < counting@.len() ==> #[trigger] counting@[m] == counts(
                    physical@,
                    targets,
                    m,
                ),
            unlink@ == to_unlink(physical@, targets, link@, k as int),
        decreases physical@.len() - k,
    {
        if counting[k] && physical[k] != link {
            unlink.push(physical[k].clone());
        }
        k += 1;
    }
    Some(CyclePlan { unlink, link })
}

/// The arguments of one call of the link tool, for one channel: `-d`
/// first where the link is to be taken away, then the source's monitor
/// port and the sink's playback port of that channel.
pub open spec fn link_arguments(
    source: Seq<char>,
    sink: Seq<char>,
    unlink: bool,
    channel: Seq<char>,
) -> Seq<Seq<char>> {
    let ports = seq![source + ":monitor_"@ + channel, sink + ":playback_"@ + channel];
    if unlink {
        seq!["-d"@] + ports
    } else {
        ports
    }
}

/// The arguments of the two calls of the link tool that link a source to
/// a sink, or take the link away: for the front left channel and for the
/// front right one.
#[derive(Clone, Debug)]
pub struct LinkCalls {
    pub front_left: Vec<String>,
    pub front_right: Vec<String>,
}

/// Whether the arguments are those that `expected` gives.
pub open spec fn same_arguments(arguments: Seq<String>, expected: Seq<Seq<char>>) -> bool {
    arguments.len() == expected.len() && forall|i: int|
        0 <= i < arguments.len() ==> (#[trigger] arguments[i])@ == expected[i]
}

/// The arguments of the call for one channel.
fn channel_arguments(source: &str, sink: &str, unlink: bool, channel: &str) -> (arguments: Vec<
    String,
>)
    ensures
        same_arguments(arguments@, link_arguments(source@, sink@, unlink, channel@)),
{
    let mut arguments: Vec<String> = Vec::new();
    if unlink {
        arguments.push("-d".to_owned());
    }
    let mut monitor = source.to_owned();
    monitor.append(":monitor_");
    monitor.append(channel);
    arguments.push(monitor);
    let mut playback = sink.to_owned();
    playback.append(":playback_");
    playback.append(channel);
    arguments.push(playback);
    arguments
}

/// The calls of the link tool that link `source` to `sink`, or with
/// `unlink` take that link away.
pub fn set_link(source: &str, sink: &str, unlink: bool) -> (calls: LinkCalls)
    ensures
        same_arguments(calls.front_left@, link_arguments(source@, sink@, unlink, "FL"@)),
        same_arguments(calls.front_right@, link_arguments(source@, sink@, unlink, "FR"@)),
{
    LinkCalls {
        front_left: channel_arguments(source, sink, unlink, "FL"),
        front_right: channel_arguments(source, sink, unlink, "FR"),
    }
}

} // verus!
