//! The global guarantees of the parser, each proved over the state machine
//! that the executable driver is verified against.

use vstd::prelude::*;
use vstd::seq_lib::*;
use crate::draft::{draft_complete, named_draft, record_of, DraftView};
use crate::line::{spec_is_comment_or_empty, spec_is_profile, spec_profile_name};
use crate::parser::{commit_to, feed_line, feed_lines, initial_state, StateView};
use crate::record::RecordView;

verus! {

/// Every profile held by the map has a non-empty name, a non-empty access
/// key and a non-empty secret key.
pub open spec fn map_complete(m: Map<Seq<char>, RecordView>) -> bool {
    forall|k: Seq<char>|
        #[trigger] m.dom().contains(k) ==> k.len() > 0 && m[k].access_key.len() > 0
            && m[k].secret_key.len() > 0
}

proof fn lemma_commit_preserves_complete(d: DraftView, m: Map<Seq<char>, RecordView>)
    requires
        map_complete(m),
    ensures
        map_complete(commit_to(d, m)),
{
    if draft_complete(d) {
        match d.profile_name {
            Some(n) => {
                assert(n.len() > 0);
                assert(record_of(d).access_key.len() > 0);
                assert(record_of(d).secret_key.len() > 0);
            },
            None => {},
        }
    }
}

proof fn lemma_feed_lines_keeps_complete(st: StateView, lines: Seq<Seq<char>>)
    requires
        map_complete(st.map),
    ensures
        feed_lines(st, lines) matches Ok(st2) ==> map_complete(st2.map),
    decreases lines.len(),
{
    if lines.len() > 0 {
        lemma_feed_lines_keeps_complete(st, lines.drop_last());
        match feed_lines(st, lines.drop_last()) {
            Ok(st1) => {
                lemma_commit_preserves_complete(st1.draft, st1.map);
            },
            Err(_) => {},
        }
    }
}

/// Profiles absent an access key or a secret key never appear in the result
/// map: every record a parse commits has a non-empty profile name, access
/// key and secret key.
pub proof fn lemma_parse_map_complete(lines: Seq<Seq<char>>)
    ensures
        feed_lines(initial_state(), lines) matches Ok(st) ==> map_complete(
            commit_to(st.draft, st.map),
        ),
{
    lemma_feed_lines_keeps_complete(initial_state(), lines);
    match feed_lines(initial_state(), lines) {
        Ok(st) => {
            lemma_commit_preserves_complete(st.draft, st.map);
        },
        Err(_) => {},
    }
}

/// Whether no line of the sequence is a profile header.
pub open spec fn span_has_no_header(lines: Seq<Seq<char>>) -> bool {
    forall|i: int| 0 <= i < lines.len() ==> !spec_is_profile(#[trigger] lines[i])
}

/// A field set by an earlier line of a profile's span is never overwritten
/// by a later line of the same span: over any header-free run of lines, a
/// draft field already present keeps its value, the profile name is kept,
/// and the map is untouched.
pub proof fn lemma_first_write_wins(st: StateView, lines: Seq<Seq<char>>)
    requires
        span_has_no_header(lines),
    ensures
        feed_lines(st, lines) is Ok,
        feed_lines(st, lines) matches Ok(st2) ==> {
            &&& st2.draft.profile_name == st.draft.profile_name
            &&& (st.draft.access_key is Some ==> st2.draft.access_key == st.draft.access_key)
            &&& (st.draft.secret_key is Some ==> st2.draft.secret_key == st.draft.secret_key)
            &&& (st.draft.token is Some ==> st2.draft.token == st.draft.token)
            &&& st2.map == st.map
        },
    decreases lines.len(),
{
    if lines.len() > 0 {
        assert(span_has_no_header(lines.drop_last())) by {
            assert(forall|i: int|
                0 <= i < lines.len() - 1 ==> #[trigger] lines.drop_last()[i] == lines[i]);
        }
        lemma_first_write_wins(st, lines.drop_last());
        assert(!spec_is_profile(lines[lines.len() - 1]));
    }
}

/// Comment and blank lines never affect the state: feeding one is a no-op.
pub proof fn lemma_noise_line_is_no_op(st: StateView, line: Seq<char>)
    requires
        spec_is_comment_or_empty(line),
    ensures
        feed_line(st, line) == Some(st),
{
}

/// The file with every comment and blank line removed.
pub open spec fn strip_noise(lines: Seq<Seq<char>>) -> Seq<Seq<char>> {
    lines.filter(|l: Seq<char>| !spec_is_comment_or_empty(l))
}

/// Removing every comment and blank line from a file that parses leaves the
/// parse of the remaining lines with the very same final state, and so with
/// an identical result map.
pub proof fn lemma_noise_removal_preserves_result(st: StateView, lines: Seq<Seq<char>>)
    ensures
        feed_lines(st, lines) matches Ok(st2) ==> feed_lines(st, strip_noise(lines)) == Ok::<
            StateView,
            int,
        >(st2),
    decreases lines.len(),
{
    reveal(Seq::filter);
    if lines.len() == 0 {
        assert(strip_noise(lines) =~= lines);
    } else {
        lemma_noise_removal_preserves_result(st, lines.drop_last());
        match feed_lines(st, lines.drop_last()) {
            Ok(st1) => {
                let last = lines.last();
                let fdl = strip_noise(lines.drop_last());
                if spec_is_comment_or_empty(last) {
                    assert(strip_noise(lines) == fdl);
                } else {
                    assert(strip_noise(lines) == fdl.push(last));
                    assert(fdl.push(last).drop_last() =~= fdl);
                    assert(fdl.push(last).last() == last);
                }
            },
            Err(_) => {},
        }
    }
}

/// A profile header always starts a fresh span: whatever the draft held
/// before, the state after the header is the freshly named draft, over the
/// map with the previous draft committed.
pub proof fn lemma_header_starts_fresh_span(st: StateView, line: Seq<char>)
    ensures
        spec_profile_name(line) matches Some(n) ==> feed_line(st, line) == Some(
            StateView { draft: named_draft(n), map: commit_to(st.draft, st.map) },
        ),
{
}

/// Within one header-free span the draft evolves by the line contents
/// alone: two folds that start from the same draft end in the same draft.
pub proof fn lemma_span_determines_draft(st1: StateView, st2: StateView, lines: Seq<Seq<char>>)
    requires
        st1.draft == st2.draft,
        span_has_no_header(lines),
    ensures
        feed_lines(st1, lines) is Ok,
        feed_lines(st2, lines) is Ok,
        feed_lines(st1, lines) matches Ok(r1) ==> (feed_lines(st2, lines) matches Ok(r2)
            && r1.draft == r2.draft),
    decreases lines.len(),
{
    if lines.len() > 0 {
        assert(span_has_no_header(lines.drop_last())) by {
            assert(forall|i: int|
                0 <= i < lines.len() - 1 ==> #[trigger] lines.drop_last()[i] == lines[i]);
        }
        lemma_span_determines_draft(st1, st2, lines.drop_last());
        assert(!spec_is_profile(lines[lines.len() - 1]));
    }
}

/// Re-declaring a profile header opens a span whose draft owes nothing to
/// any earlier span of the same name: after a header followed by a
/// header-free span, the draft equals the one obtained by folding the span
/// over a freshly named draft alone.  The record committed for that name at
/// the next header or at end of input therefore reflects only the second
/// span's fields.
pub proof fn lemma_second_span_wins(st: StateView, header: Seq<char>, span: Seq<Seq<char>>)
    requires
        span_has_no_header(span),
    ensures
        spec_profile_name(header) matches Some(n) ==> {
            &&& feed_lines(st, seq![header] + span) is Ok
            &&& feed_lines(
                StateView { draft: named_draft(n), map: Map::<Seq<char>, RecordView>::empty() },
                span,
            ) is Ok
            &&& (feed_lines(st, seq![header] + span) matches Ok(r1) ==> (feed_lines(
                StateView { draft: named_draft(n), map: Map::<Seq<char>, RecordView>::empty() },
                span,
            ) matches Ok(r2) && r1.draft == r2.draft))
        },
{
    match spec_profile_name(header) {
        Some(n) => {
            lemma_header_starts_fresh_span(st, header);
            let st_h = StateView { draft: named_draft(n), map: commit_to(st.draft, st.map) };
            let canon = StateView {
                draft: named_draft(n),
                map: Map::<Seq<char>, RecordView>::empty(),
            };
            lemma_feed_lines_after_one(st, header, span);
            lemma_span_determines_draft(st_h, canon, span);
        },
        None => {},
    }
}

/// Feeding one successful line and then a tail that folds without error
/// reaches the same state as feeding the concatenation.
proof fn lemma_feed_lines_after_one(st: StateView, first: Seq<char>, tail: Seq<Seq<char>>)
    requires
        feed_line(st, first) is Some,
    ensures
        feed_line(st, first) matches Some(st1) ==> (feed_lines(st1, tail) matches Ok(r)
            ==> feed_lines(st, seq![first] + tail) == Ok::<StateView, int>(r)),
    decreases tail.len(),
{
    match feed_line(st, first) {
        Some(st1) => {
            let c = seq![first] + tail;
            if tail.len() == 0 {
                assert(feed_lines(st1, tail) == Ok::<StateView, int>(st1));
                assert(c =~= seq![first]);
                assert(c.len() == 1);
                assert(c.drop_last() =~= Seq::<Seq<char>>::empty());
                assert(feed_lines(st, c.drop_last()) == Ok::<StateView, int>(st));
                assert(c.last() == first);
                assert(feed_lines(st, c) == Ok::<StateView, int>(st1));
            } else {
                lemma_feed_lines_after_one(st, first, tail.drop_last());
                assert(c.drop_last() =~= seq![first] + tail.drop_last());
                assert(c.last() == tail.last());
                match feed_lines(st1, tail) {
                    Ok(r) => {
                        match feed_lines(st1, tail.drop_last()) {
                            Ok(rp) => {
                                assert(feed_lines(st, seq![first] + tail.drop_last()) == Ok::<
                                    StateView,
                                    int,
                                >(rp));
                                assert(feed_lines(st, c.drop_last()) == Ok::<StateView, int>(rp));
                                assert(feed_line(rp, tail.last()) == Some(r));
                                assert(feed_lines(st, c) == Ok::<StateView, int>(r));
                            },
                            Err(_) => {
                                assert(false);
                            },
                        }
                    },
                    Err(_) => {},
                }
            }
        },
        None => {},
    }
}

} // verus!
