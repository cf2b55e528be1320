//! The laws the monitor abstraction obeys, stated over the spec
//! functions that the executable functions' contracts use.

use vstd::prelude::*;

use crate::monitor::{
    connected_lines, find_entry, first_primary, lemma_first_primary_skip, line_state,
    spec_primary, spec_status, spec_toggle, spec_turn_off, CommandView, MonitorError,
};
use crate::parse::{first_token, has_resolution, is_primary_line, spec_resolution};
use crate::state::MonitorState;

verus! {

/// Discovery law: when the connected line at position `i` is the only
/// one carrying the primary marker, discovery returns that line's
/// leading token, however many lines are connected.
pub proof fn lemma_discovery_picks_primary(lines: Seq<Seq<char>>, i: int)
    requires
        0 <= i < connected_lines(lines).len(),
        is_primary_line(connected_lines(lines)[i]),
        forall|j: int|
            0 <= j < connected_lines(lines).len() && j != i ==> !is_primary_line(
                #[trigger] connected_lines(lines)[j],
            ),
    ensures
        spec_primary(lines) == Ok::<Seq<char>, MonitorError>(
            first_token(connected_lines(lines)[i]),
        ),
{
    let conn = connected_lines(lines);
    if conn.len() > 1 {
        lemma_first_primary_skip(conn, i);
        assert(conn.skip(i)[0] == conn[i]);
        assert(first_primary(conn) == Some(conn[i]));
    } else {
        assert(i == 0);
    }
}

/// Discovery law: when no connected line carries the primary marker,
/// discovery falls back to the first connected line in tool-reported
/// order.
pub proof fn lemma_discovery_fallback(lines: Seq<Seq<char>>)
    requires
        connected_lines(lines).len() > 0,
        forall|j: int|
            0 <= j < connected_lines(lines).len() ==> !is_primary_line(
                #[trigger] connected_lines(lines)[j],
            ),
    ensures
        spec_primary(lines) == Ok::<Seq<char>, MonitorError>(
            first_token(connected_lines(lines)[0]),
        ),
{
    let conn = connected_lines(lines);
    if conn.len() > 1 {
        lemma_first_primary_skip(conn, conn.len() as int);
        assert(conn.skip(conn.len() as int) =~= Seq::<Seq<char>>::empty());
        assert(first_primary(conn) == None::<Seq<char>>);
    }
}

/// Discovery law: with no connected line at all, discovery fails with
/// `NoConnectedMonitors`.
pub proof fn lemma_discovery_no_connected(lines: Seq<Seq<char>>)
    requires
        connected_lines(lines).len() == 0,
    ensures
        spec_primary(lines) == Err::<Seq<char>, MonitorError>(MonitorError::NoConnectedMonitors),
{
}

/// Status law: a line holding a bounded resolution token parses as
/// `On`; a line without one parses as `Off`.
pub proof fn lemma_status_from_resolution(l: Seq<char>)
    ensures
        has_resolution(l) ==> line_state(l) == MonitorState::On,
        !has_resolution(l) ==> line_state(l) == MonitorState::Off,
{
}

/// Toggle law: requesting the state the status capture already reports
/// issues no transition command at all.
pub proof fn lemma_toggle_idempotent(
    name: Seq<char>,
    target: MonitorState,
    status_lines: Seq<Seq<char>>,
    transition_lines: Seq<Seq<char>>,
)
    requires
        spec_status(name, status_lines) == Ok::<MonitorState, MonitorError>(target),
    ensures
        spec_toggle(name, target, status_lines, transition_lines) == Ok::<
            Seq<CommandView>,
            MonitorError,
        >(Seq::empty()),
{
}

/// Toggle law: an off transition issues exactly one command, and its
/// frame-buffer argument equals the resolution captured from the
/// transition-time query.
pub proof fn lemma_toggle_off_pins_resolution(
    name: Seq<char>,
    status_lines: Seq<Seq<char>>,
    transition_lines: Seq<Seq<char>>,
    l: Seq<char>,
    fb: Seq<char>,
)
    requires
        spec_status(name, status_lines) == Ok::<MonitorState, MonitorError>(MonitorState::On),
        find_entry(transition_lines, name) == Some(l),
        spec_resolution(l) == Some(fb),
    ensures
        spec_toggle(name, MonitorState::Off, status_lines, transition_lines) == Ok::<
            Seq<CommandView>,
            MonitorError,
        >(seq![CommandView::TurnOff { output: name, fb }]),
{
    assert(spec_turn_off(name, transition_lines) == Ok::<Seq<CommandView>, MonitorError>(
        seq![CommandView::TurnOff { output: name, fb }],
    ));
}

/// Toggle law: when the transition-time entry reports no resolution,
/// the off request is silently skipped and no command is issued.
pub proof fn lemma_toggle_off_skips_without_resolution(
    name: Seq<char>,
    status_lines: Seq<Seq<char>>,
    transition_lines: Seq<Seq<char>>,
    l: Seq<char>,
)
    requires
        spec_status(name, status_lines) == Ok::<MonitorState, MonitorError>(MonitorState::On),
        find_entry(transition_lines, name) == Some(l),
        spec_resolution(l) == None::<Seq<char>>,
    ensures
        spec_toggle(name, MonitorState::Off, status_lines, transition_lines) == Ok::<
            Seq<CommandView>,
            MonitorError,
        >(Seq::empty()),
{
}

} // verus!
