//! Markers of the streams that this machine hosts, so that it does not watch
//! itself. A marker is a file named after the stream id that holds the join
//! code.
use crate::protocol::{infos_view, InfoV, StreamInfo};
use crate::relay::codes::{code_for, id_text, lemma_code_chars, lemma_id_chars};
use crate::seqs::{lemma_filter_step, lemma_filter_whole};
use crate::text::{alnum, chars_of, is_alnum, lemma_trim_end, lemma_trim_start, same_text, string_of,
    trim, trimmed, white};
use vstd::prelude::*;

verus! {

/// Characters that the name of a marker may have.
pub open spec fn nameable(c: char) -> bool {
    alnum(c) || c == '-' || c == '_'
}

/// The name of the marker of a stream.
pub open spec fn marker_name(stream_id: Seq<char>) -> Seq<char> {
    stream_id.filter(|c: char| nameable(c))
}

/// The name of the marker of a stream: its id, as far as it is fit for a name.
pub fn file_name(stream_id: &str) -> (out: String)
    ensures
        out@ == marker_name(stream_id@),
{
    let chars = chars_of(stream_id);
    let ghost keep = |c: char| nameable(c);
    let mut kept: Vec<char> = Vec::new();
    let mut i: usize = 0;
    while i < chars.len()
        invariant
            chars@ == stream_id@,
            i <= chars@.len(),
            keep == (|c: char| nameable(c)),
            kept@ == stream_id@.take(i as int).filter(keep),
        decreases chars@.len() - i,
    {
        proof {
            lemma_filter_step(stream_id@, keep, i as int);
        }
        let c: char = chars[i];
        if is_alnum(c) || c == '-' || c == '_' {
            kept.push(c);
        }
        i += 1;
    }
    assert(stream_id@.take(i as int) == stream_id@);
    string_of(kept.as_slice())
}

/// The stream id and the join code of the marker called `name` with the given
/// contents.
pub fn marker(name: &str, contents: &str) -> (m: (String, String))
    ensures
        m.0@ == name@,
        m.1@ == trimmed(contents@),
{
    (name.to_string(), trim(chars_of(contents).as_slice()))
}

/// A marker that is written for a stream of the relay reads back as the
/// stream's id and join code.
pub proof fn law_marker_reads_back(id: Seq<char>, code: Seq<char>, name: Seq<char>)
    requires
        id_text(id),
        code_for(code, name),
    ensures
        marker_name(id) == id,
        trimmed(code) == code,
{
    lemma_id_chars(id);
    let keep = |c: char| nameable(c);
    lemma_kept_whole(id, keep);
    assert(marker_name(id) == id.filter(keep));
    lemma_code_chars(code, name);
    lemma_trim_start(code);
    lemma_trim_end(code);
    assert(!white(code[0]));
    assert(!white(code.last()));
}

proof fn lemma_kept_whole(s: Seq<char>, keep: spec_fn(char) -> bool)
    requires
        forall|i: int| 0 <= i < s.len() ==> keep(#[trigger] s[i]),
    ensures
        s.filter(keep) == s,
{
    lemma_filter_whole(s, keep);
}

/// Whether one of the markers carries `target` as its id or as its join code.
pub open spec fn owns(markers: Seq<(String, String)>, target: Seq<char>) -> bool {
    exists|i: int|
        0 <= i < markers.len() && ((#[trigger] markers[i]).0@ == target || markers[i].1@ == target)
}

/// Whether `target`, a join code or a stream id, is of this machine's own.
pub fn is_owned(markers: &[(String, String)], target: &str) -> (yes: bool)
    ensures
        yes == owns(markers@, target@),
{
    let mut i: usize = 0;
    while i < markers.len()
        invariant
            i <= markers@.len(),
            forall|j: int|
                0 <= j < i ==> (#[trigger] markers@[j]).0@ != target@ && markers@[j].1@ != target@,
        decreases markers@.len() - i,
    {
        if same_text(markers[i].0.as_str(), target) || same_text(markers[i].1.as_str(), target) {
            return true;
        }
        i += 1;
    }
    false
}

/// The ids of the markers, in order.
pub open spec fn ids_of(markers: Seq<(String, String)>) -> Seq<Seq<char>> {
    markers.map_values(|m: (String, String)| m.0@)
}

/// The characters of each string of a list.
pub open spec fn texts_view(v: Seq<String>) -> Seq<Seq<char>> {
    v.map_values(|s: String| s@)
}

/// The ids of this machine's own streams.
pub fn own_ids(markers: &[(String, String)]) -> (ids: Vec<String>)
    ensures
        texts_view(ids@) == ids_of(markers@),
{
    let mut ids: Vec<String> = Vec::new();
    let mut i: usize = 0;
    while i < markers.len()
        invariant
            i <= markers@.len(),
            ids@.len() == i,
            forall|j: int| 0 <= j < i ==> (#[trigger] ids@[j])@ == markers@[j].0@,
        decreases markers@.len() - i,
    {
        ids.push(markers[i].0.clone());
        i += 1;
    }
    assert(texts_view(ids@) =~= ids_of(markers@));
    ids
}

/// The join code of this machine's own stream, that of the first marker.
pub fn own_code(markers: &[(String, String)]) -> (code: Option<String>)
    ensures
        code == (if markers@.len() > 0 {
            Some(markers@[0].1)
        } else {
            None
        }),
{
    if markers.len() > 0 {
        Some(markers[0].1.clone())
    } else {
        None
    }
}

/// The streams of a listing that are not among `own`.
pub open spec fn foreign(list: Seq<InfoV>, own: Seq<Seq<char>>) -> Seq<InfoV> {
    list.filter(|i: InfoV| !own.contains(i.stream_id))
}

/// Whether a list of strings holds `x`.
pub fn among(list: &Vec<String>, x: &str) -> (yes: bool)
    ensures
        yes == texts_view(list@).contains(x@),
{
    let mut i: usize = 0;
    while i < list.len()
        invariant
            i <= list@.len(),
            forall|j: int| 0 <= j < i ==> #[trigger] texts_view(list@)[j] != x@,
        decreases list@.len() - i,
    {
        if same_text(list[i].as_str(), x) {
            assert(texts_view(list@)[i as int] == x@);
            return true;
        }
        i += 1;
    }
    false
}

/// Leaves this machine's own streams out of a listing.
pub fn without_own(list: &Vec<StreamInfo>, own: &Vec<String>) -> (out: Vec<StreamInfo>)
    ensures
        infos_view(out@) == foreign(infos_view(list@), texts_view(own@)),
{
    let ghost all = infos_view(list@);
    let ghost keep = |i: InfoV| !texts_view(own@).contains(i.stream_id);
    let mut out: Vec<StreamInfo> = Vec::new();
    let mut i: usize = 0;
    assert(infos_view(out@) =~= all.take(0).filter(keep)) by {
        reveal(Seq::filter);
    }
    while i < list.len()
        invariant
            i <= list@.len(),
            all == infos_view(list@),
            keep == (|i: InfoV| !texts_view(own@).contains(i.stream_id)),
            infos_view(out@) == all.take(i as int).filter(keep),
        decreases list@.len() - i,
    {
        proof {
            lemma_filter_step(all, keep, i as int);
        }
        if !among(own, list[i].stream_id.as_str()) {
            let ghost before = out@;
            out.push(list[i].clone());
            assert(infos_view(out@) =~= infos_view(before).push(all[i as int]));
        }
        i += 1;
    }
    assert(all.take(i as int) == all);
    out
}

/// A listing keeps every stream that is not this machine's own, as it is and in
/// its place, and loses every one that is.
pub proof fn law_foreign_streams_stay(list: Seq<InfoV>, own: Seq<Seq<char>>, last: InfoV)
    ensures
        foreign(Seq::empty(), own) == Seq::<InfoV>::empty(),
        own.contains(last.stream_id) ==> foreign(list.push(last), own) == foreign(list, own),
        !own.contains(last.stream_id) ==> foreign(list.push(last), own) == foreign(list, own).push(
            last,
        ),
{
    let keep = |i: InfoV| !own.contains(i.stream_id);
    list.lemma_filter_push(last, keep);
    reveal(Seq::filter);
    assert(Seq::<InfoV>::empty().filter(keep) =~= Seq::<InfoV>::empty());
}

/// A machine owns what one of its markers names, by id or by join code: one more
/// marker adds its id and its join code, and takes nothing away.
pub proof fn law_markers_name_what_is_owned(
    markers: Seq<(String, String)>,
    last: (String, String),
    target: Seq<char>,
)
    ensures
        !owns(Seq::empty(), target),
        owns(markers.push(last), target) <==> owns(markers, target) || last.0@ == target || last.1@
            == target,
        ids_of(markers.push(last)) == ids_of(markers).push(last.0@),
        ids_of(Seq::empty()) == Seq::<Seq<char>>::empty(),
{
    let more = markers.push(last);
    if owns(markers, target) {
        let i = choose|i: int|
            0 <= i < markers.len() && ((#[trigger] markers[i]).0@ == target || markers[i].1@
                == target);
        assert(more[i] == markers[i]);
    }
    if owns(more, target) {
        let i = choose|i: int|
            0 <= i < more.len() && ((#[trigger] more[i]).0@ == target || more[i].1@ == target);
        if i < markers.len() {
            assert(markers[i] == more[i]);
        }
    }
    assert(more[markers.len() as int] == last);
    assert(ids_of(more) =~= ids_of(markers).push(last.0@));
    assert(ids_of(Seq::empty()) =~= Seq::<Seq<char>>::empty());
}

/// The name of a marker is the stream id without the characters that are no
/// letter, digit, hyphen or underscore, and in its order.
pub proof fn law_marker_names_are_safe(id: Seq<char>, c: char)
    ensures
        marker_name(Seq::empty()) == Seq::<char>::empty(),
        marker_name(id.push(c)) == if 'a' <= c <= 'z' || 'A' <= c <= 'Z' || '0' <= c <= '9' || c
            == '-' || c == '_' {
            marker_name(id).push(c)
        } else {
            marker_name(id)
        },
{
    let keep = |c: char| nameable(c);
    id.lemma_filter_push(c, keep);
    reveal(Seq::filter);
    assert(Seq::<char>::empty().filter(keep) =~= Seq::<char>::empty());
}

/// The model of a list of strings has one entry for each, in order.
pub proof fn law_texts_are_modelled_in_full(v: Seq<String>, i: int)
    requires
        0 <= i < v.len(),
    ensures
        texts_view(v).len() == v.len(),
        texts_view(v)[i] == v[i]@,
{
}

} // verus!
