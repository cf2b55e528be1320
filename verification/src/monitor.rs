//! The monitor abstraction and its output-parsing backend: primary
//! discovery, state query, resolution capture, and toggle decisions.

use vstd::prelude::*;

use crate::parse::{
    find_resolution, first_token, has_resolution, is_connected_line, is_primary_line,
    leading_token, line_is_connected, line_is_primary, spec_resolution, starts_with,
    str_starts_with,
};
use crate::state::MonitorState;

verus! {

/// Why an operation on the monitor could not be carried out.
#[derive(Clone, Copy, Debug, PartialEq, Eq, Structural)]
pub enum MonitorError {
    /// Discovery found no line describing a connected output.
    NoConnectedMonitors,
    /// A previously resolved handle no longer appears in a fresh query.
    MonitorVanished,
}

// ---------------------------------------------------------------------
// Discovery
// ---------------------------------------------------------------------

/// The connected lines of a query capture, in tool-reported order.
pub open spec fn connected_lines(lines: Seq<Seq<char>>) -> Seq<Seq<char>> {
    lines.filter(|l: Seq<char>| is_connected_line(l))
}

/// The first line of `conn` that carries the primary marker, if any.
pub open spec fn first_primary(conn: Seq<Seq<char>>) -> Option<Seq<char>>
    decreases conn.len(),
{
    if conn.len() == 0 {
        None
    } else if is_primary_line(conn[0]) {
        Some(conn[0])
    } else {
        first_primary(conn.drop_first())
    }
}

/// The name discovery resolves from a query capture: the leading token
/// of the primary-marked connected line when several outputs are
/// connected and one is so marked, else of the first connected line;
/// an error when no line is connected.
pub open spec fn spec_primary(lines: Seq<Seq<char>>) -> Result<Seq<char>, MonitorError> {
    let conn = connected_lines(lines);
    if conn.len() == 0 {
        Err(MonitorError::NoConnectedMonitors)
    } else if conn.len() > 1 {
        match first_primary(conn) {
            Some(l) => Ok(first_token(l)),
            None => Ok(first_token(conn[0])),
        }
    } else {
        Ok(first_token(conn[0]))
    }
}

// ---------------------------------------------------------------------
// Entry lookup
// ---------------------------------------------------------------------

/// The first line of a capture whose text begins with `name`, if any.
pub open spec fn find_entry(lines: Seq<Seq<char>>, name: Seq<char>) -> Option<Seq<char>>
    decreases lines.len(),
{
    if lines.len() == 0 {
        None
    } else if starts_with(lines[0], name) {
        Some(lines[0])
    } else {
        find_entry(lines.drop_first(), name)
    }
}

/// The state a single output line reports: `On` iff a bounded
/// resolution token stands in the line.
pub open spec fn line_state(l: Seq<char>) -> MonitorState {
    if has_resolution(l) {
        MonitorState::On
    } else {
        MonitorState::Off
    }
}

/// The state a fresh capture reports for the output named `name`.
pub open spec fn spec_status(name: Seq<char>, lines: Seq<Seq<char>>) -> Result<
    MonitorState,
    MonitorError,
> {
    match find_entry(lines, name) {
        Some(l) => Ok(line_state(l)),
        None => Err(MonitorError::MonitorVanished),
    }
}

// ---------------------------------------------------------------------
// Transition commands
// ---------------------------------------------------------------------

/// One command for the external tool, as plain values.
#[derive(Debug)]
pub enum XrandrCommand {
    /// Enable the output; the tool negotiates the mode automatically.
    TurnOn { output: String },
    /// Disable the output while pinning the virtual frame buffer to
    /// `fb`, so the remaining desktop keeps its geometry.
    TurnOff { output: String, fb: String },
}

/// The mathematical value of an [`XrandrCommand`].
pub enum CommandView {
    TurnOn { output: Seq<char> },
    TurnOff { output: Seq<char>, fb: Seq<char> },
}

impl View for XrandrCommand {
    type V = CommandView;

    open spec fn view(&self) -> CommandView {
        match self {
            XrandrCommand::TurnOn { output } => CommandView::TurnOn { output: output@ },
            XrandrCommand::TurnOff { output, fb } => CommandView::TurnOff {
                output: output@,
                fb: fb@,
            },
        }
    }
}

impl DeepView for XrandrCommand {
    type V = CommandView;

    open spec fn deep_view(&self) -> CommandView {
        self.view()
    }
}

/// The argument list of a transition command.
pub open spec fn spec_args(c: CommandView) -> Seq<Seq<char>> {
    match c {
        CommandView::TurnOn { output } => seq!["--output"@, output, "--auto"@],
        CommandView::TurnOff { output, fb } => seq![
            "--output"@,
            output,
            "--fb"@,
            fb,
            "--off"@,
        ],
    }
}

impl XrandrCommand {
    /// The arguments to hand the external tool for this command.
    pub fn args(&self) -> (r: Vec<String>)
        ensures
            r.deep_view() == spec_args(self@),
    {
        let mut v: Vec<String> = Vec::new();
        match self {
            XrandrCommand::TurnOn { output } => {
                v.push("--output".to_owned());
                v.push(output.clone());
                v.push("--auto".to_owned());
            },
            XrandrCommand::TurnOff { output, fb } => {
                v.push("--output".to_owned());
                v.push(output.clone());
                v.push("--fb".to_owned());
                v.push(fb.clone());
                v.push("--off".to_owned());
            },
        }
        proof {
            assert(v.deep_view() =~= spec_args(self@));
        }
        v
    }
}

/// The commands an off request issues, deciding from the capture taken
/// at transition time: one off command pinning the live resolution, or
/// none at all when the output reports no resolution.
pub open spec fn spec_turn_off(name: Seq<char>, lines: Seq<Seq<char>>) -> Result<
    Seq<CommandView>,
    MonitorError,
> {
    match find_entry(lines, name) {
        Some(l) => match spec_resolution(l) {
            Some(fb) => Ok(seq![CommandView::TurnOff { output: name, fb }]),
            None => Ok(Seq::empty()),
        },
        None => Err(MonitorError::MonitorVanished),
    }
}

/// The commands a toggle request issues: none when the status capture
/// already reports `target`; one enable command for an on transition;
/// for an off transition, whatever [`spec_turn_off`] decides from the
/// transition capture.
pub open spec fn spec_toggle(
    name: Seq<char>,
    target: MonitorState,
    status_lines: Seq<Seq<char>>,
    transition_lines: Seq<Seq<char>>,
) -> Result<Seq<CommandView>, MonitorError> {
    match find_entry(status_lines, name) {
        Some(l) => {
            if line_state(l) == target {
                Ok(Seq::empty())
            } else {
                match target {
                    MonitorState::On => Ok(seq![CommandView::TurnOn { output: name }]),
                    MonitorState::Off => spec_turn_off(name, transition_lines),
                }
            }
        },
        None => Err(MonitorError::MonitorVanished),
    }
}

// ---------------------------------------------------------------------
// The abstraction and its backend
// ---------------------------------------------------------------------

/// The contract a monitor backend satisfies: report the current power
/// state and decide the commands that bring the monitor to a requested
/// state. Every operation works from fresh captures of the query
/// tool's output lines, since the physical state can change outside
/// this process at any time.
pub trait Monitor {
    /// The name of the output this handle stands for.
    spec fn handle_name(&self) -> Seq<char>;

    /// The monitor's current power state, read from the capture
    /// `query`.
    fn status(&self, query: &Vec<String>) -> (r: Result<MonitorState, MonitorError>)
        ensures
            r == spec_status(self.handle_name(), query.deep_view()),
    ;

    /// The commands that bring the monitor to `target`: none when
    /// `status_query` already reports `target`, otherwise the
    /// state-appropriate transition. An off transition reads the
    /// resolution to pin from the separate capture
    /// `transition_query`, taken when the transition is carried out.
    fn toggle(
        &self,
        target: MonitorState,
        status_query: &Vec<String>,
        transition_query: &Vec<String>,
    ) -> (r: Result<Vec<XrandrCommand>, MonitorError>)
        ensures
            match r {
                Ok(cmds) => spec_toggle(
                    self.handle_name(),
                    target,
                    status_query.deep_view(),
                    transition_query.deep_view(),
                ) == Ok::<Seq<CommandView>, MonitorError>(cmds.deep_view()),
                Err(e) => spec_toggle(
                    self.handle_name(),
                    target,
                    status_query.deep_view(),
                    transition_query.deep_view(),
                ) == Err::<Seq<CommandView>, MonitorError>(e),
            },
    ;
}

/// A handle to one physical output of the display tool, identified by
/// its textual name.
#[derive(Debug)]
pub struct XMonitor {
    name: String,
}

impl View for XMonitor {
    type V = Seq<char>;

    closed spec fn view(&self) -> Seq<char> {
        self.name@
    }
}

/// `first_primary` skips a prefix free of the primary marker.
pub(crate) proof fn lemma_first_primary_skip(conn: Seq<Seq<char>>, i: int)
    requires
        0 <= i <= conn.len(),
        forall|k: int| 0 <= k < i ==> !is_primary_line(#[trigger] conn[k]),
    ensures
        first_primary(conn) == first_primary(conn.skip(i)),
    decreases i,
{
    if i == 0 {
        assert(conn.skip(0) =~= conn);
    } else {
        lemma_first_primary_skip(conn, i - 1);
        let tail = conn.skip(i - 1);
        assert(tail[0] == conn[i - 1]);
        assert(tail.drop_first() =~= conn.skip(i));
    }
}

/// `find_entry` skips a prefix of lines that do not begin with `name`.
pub(crate) proof fn lemma_find_entry_skip(lines: Seq<Seq<char>>, name: Seq<char>, i: int)
    requires
        0 <= i <= lines.len(),
        forall|k: int| 0 <= k < i ==> !starts_with(#[trigger] lines[k], name),
    ensures
        find_entry(lines, name) == find_entry(lines.skip(i), name),
    decreases i,
{
    if i == 0 {
        assert(lines.skip(0) =~= lines);
    } else {
        lemma_find_entry_skip(lines, name, i - 1);
        let tail = lines.skip(i - 1);
        assert(tail[0] == lines[i - 1]);
        assert(tail.drop_first() =~= lines.skip(i));
    }
}

impl XMonitor {
    /// A handle for the output named `name`.
    pub fn new(name: String) -> (r: XMonitor)
        ensures
            r@ == name@,
    {
        XMonitor { name }
    }

    /// The name of the output this handle stands for.
    pub fn name(&self) -> (r: &String)
        ensures
            r@ == self@,
    {
        &self.name
    }

    /// Discover the primary output from the capture `lines`: among the
    /// connected lines, the one marked primary when several are
    /// connected, else the first, in tool-reported order; an error
    /// when none is connected.
    pub fn primary(lines: &Vec<String>) -> (r: Result<XMonitor, MonitorError>)
        ensures
            match r {
                Ok(m) => spec_primary(lines.deep_view()) == Ok::<Seq<char>, MonitorError>(m@),
                Err(e) => spec_primary(lines.deep_view()) == Err::<Seq<char>, MonitorError>(e),
            },
    {
        let ghost lv = lines.deep_view();
        let mut connected: Vec<String> = Vec::new();
        let mut i: usize = 0;
        proof {
            assert(lv.subrange(0, 0) =~= Seq::<Seq<char>>::empty());
            assert(connected_lines(lv.subrange(0, 0)) =~= Seq::<Seq<char>>::empty());
            assert(connected.deep_view() =~= Seq::<Seq<char>>::empty());
        }
        while i < lines.len()
            invariant
                i <= lines.len(),
                lv == lines.deep_view(),
                connected.deep_view() == connected_lines(lv.subrange(0, i as int)),
            decreases lines.len() - i,
        {
            let ghost prefix = lv.subrange(0, i as int);
            if line_is_connected(lines[i].as_str()) {
                connected.push(lines[i].clone());
            }
            proof {
                assert(lv.subrange(0, i + 1) =~= prefix.push(lv[i as int]));
                assert(prefix.push(lv[i as int]).drop_last() =~= prefix);
                reveal(Seq::filter);
                if is_connected_line(lv[i as int]) {
                    assert(connected.deep_view() =~= connected_lines(prefix).push(
                        lv[i as int],
                    ));
                }
                assert(connected.deep_view() =~= connected_lines(lv.subrange(0, i + 1)));
            }
            i += 1;
        }
        proof {
            assert(lv.subrange(0, lv.len() as int) =~= lv);
        }
        let ghost conn = connected_lines(lv);
        if connected.len() == 0 {
            return Err(MonitorError::NoConnectedMonitors);
        }
        if connected.len() > 1 {
            let mut j: usize = 0;
            while j < connected.len()
                invariant
                    j <= connected.len(),
                    lv == lines.deep_view(),
                    conn == connected_lines(lv),
                    conn == connected.deep_view(),
                    connected.deep_view().len() > 1,
                    forall|k: int| 0 <= k < j ==> !is_primary_line(#[trigger] conn[k]),
                decreases connected.len() - j,
            {
                if line_is_primary(connected[j].as_str()) {
                    proof {
                        lemma_first_primary_skip(conn, j as int);
                        assert(conn.skip(j as int)[0] == conn[j as int]);
                        assert(first_primary(conn) == Some(conn[j as int]));
                    }
                    let name = leading_token(connected[j].as_str());
                    return Ok(XMonitor { name });
                }
                j += 1;
            }
            proof {
                lemma_first_primary_skip(conn, conn.len() as int);
                assert(conn.skip(conn.len() as int) =~= Seq::<Seq<char>>::empty());
                assert(first_primary(conn) == None::<Seq<char>>);
            }
        }
        let name = leading_token(connected[0].as_str());
        Ok(XMonitor { name })
    }

    /// The line of the capture `lines` that describes this monitor:
    /// the first whose text begins with the monitor's name. Its
    /// absence means the monitor vanished since discovery.
    pub fn xrandr_entry(&self, lines: &Vec<String>) -> (r: Result<String, MonitorError>)
        ensures
            match r {
                Ok(l) => find_entry(lines.deep_view(), self@) == Some(l@),
                Err(e) => find_entry(lines.deep_view(), self@) == None::<Seq<char>>
                    && e == MonitorError::MonitorVanished,
            },
    {
        let ghost lv = lines.deep_view();
        let mut i: usize = 0;
        while i < lines.len()
            invariant
                i <= lines.len(),
                lv == lines.deep_view(),
                forall|k: int| 0 <= k < i ==> !starts_with(#[trigger] lv[k], self@),
            decreases lines.len() - i,
        {
            if str_starts_with(lines[i].as_str(), self.name.as_str()) {
                proof {
                    lemma_find_entry_skip(lv, self@, i as int);
                    assert(lv.skip(i as int)[0] == lv[i as int]);
                }
                return Ok(lines[i].clone());
            }
            i += 1;
        }
        proof {
            lemma_find_entry_skip(lv, self@, lv.len() as int);
            assert(lv.skip(lv.len() as int) =~= Seq::<Seq<char>>::empty());
        }
        Err(MonitorError::MonitorVanished)
    }

    /// The resolution token of this monitor's entry in the capture
    /// `lines`, when one stands there.
    pub fn resolution(&self, lines: &Vec<String>) -> (r: Result<Option<String>, MonitorError>)
        ensures
            match r {
                Ok(o) => find_entry(lines.deep_view(), self@) matches Some(l)
                    && o.deep_view() == spec_resolution(l),
                Err(e) => find_entry(lines.deep_view(), self@) == None::<Seq<char>>
                    && e == MonitorError::MonitorVanished,
            },
    {
        match self.xrandr_entry(lines) {
            Ok(entry) => Ok(find_resolution(entry.as_str())),
            Err(e) => Err(e),
        }
    }

    /// The commands an off request issues: one off command pinning the
    /// resolution read from `lines`, or none when the entry reports no
    /// resolution.
    fn turn_off(&self, lines: &Vec<String>) -> (r: Result<Vec<XrandrCommand>, MonitorError>)
        ensures
            match r {
                Ok(cmds) => spec_turn_off(self@, lines.deep_view()) == Ok::<
                    Seq<CommandView>,
                    MonitorError,
                >(cmds.deep_view()),
                Err(e) => spec_turn_off(self@, lines.deep_view()) == Err::<
                    Seq<CommandView>,
                    MonitorError,
                >(e),
            },
    {
        match self.resolution(lines) {
            Ok(Some(fb)) => {
                let mut cmds: Vec<XrandrCommand> = Vec::new();
                cmds.push(XrandrCommand::TurnOff { output: self.name.clone(), fb });
                proof {
                    assert(cmds.deep_view() =~= seq![
                        CommandView::TurnOff {
                            output: self@,
                            fb: cmds[0]->TurnOff_fb@,
                        },
                    ]);
                }
                Ok(cmds)
            },
            Ok(None) => {
                let cmds: Vec<XrandrCommand> = Vec::new();
                proof {
                    assert(cmds.deep_view() =~= Seq::<CommandView>::empty());
                }
                Ok(cmds)
            },
            Err(e) => Err(e),
        }
    }
}

impl Monitor for XMonitor {
    open spec fn handle_name(&self) -> Seq<char> {
        self@
    }

    fn status(&self, query: &Vec<String>) -> (r: Result<MonitorState, MonitorError>) {
        match self.xrandr_entry(query) {
            Ok(entry) => {
                if find_resolution(entry.as_str()).is_some() {
                    Ok(MonitorState::On)
                } else {
                    Ok(MonitorState::Off)
                }
            },
            Err(e) => Err(e),
        }
    }

    fn toggle(
        &self,
        target: MonitorState,
        status_query: &Vec<String>,
        transition_query: &Vec<String>,
    ) -> (r: Result<Vec<XrandrCommand>, MonitorError>) {
        match self.status(status_query) {
            Ok(current) => {
                if current == target {
                    let cmds: Vec<XrandrCommand> = Vec::new();
                    proof {
                        assert(cmds.deep_view() =~= Seq::<CommandView>::empty());
                    }
                    Ok(cmds)
                } else {
                    match target {
                        MonitorState::On => {
                            let mut cmds: Vec<XrandrCommand> = Vec::new();
                            cmds.push(XrandrCommand::TurnOn { output: self.name.clone() });
                            proof {
                                assert(cmds.deep_view() =~= seq![
                                    CommandView::TurnOn { output: self@ },
                                ]);
                            }
                            Ok(cmds)
                        },
                        MonitorState::Off => self.turn_off(transition_query),
                    }
                }
            },
            Err(e) => Err(e),
        }
    }
}

/// Discover the primary monitor from the capture `lines` and hand back
/// a handle to it.
pub fn primary_monitor(lines: &Vec<String>) -> (r: Result<XMonitor, MonitorError>)
    ensures
        match r {
            Ok(m) => spec_primary(lines.deep_view()) == Ok::<Seq<char>, MonitorError>(m@),
            Err(e) => spec_primary(lines.deep_view()) == Err::<Seq<char>, MonitorError>(e),
        },
{
    XMonitor::primary(lines)
}

} // verus!
