use vstd::prelude::*;

use crate::decimal::{decimal, format_usize, lemma_parse_format_roundtrip, parse_usize, parse_usize_spec};

verus! {

/// The selector id of the entry that stands for "no motor".
pub open spec fn no_motor_id_spec() -> Seq<char> {
    seq!['-', '1']
}

/// The label of the entry that stands for "no motor".
pub open spec fn no_motor_label_spec() -> Seq<char> {
    seq!['N', 'o', 'n', 'e']
}

/// The id under which the selector lists its `i`-th entry: the "no motor"
/// entry first, then motor `k` as entry `k + 1`, under the decimal text of `k`.
pub open spec fn selector_entry_id(i: nat) -> Seq<char> {
    if i == 0 {
        no_motor_id_spec()
    } else {
        decimal((i - 1) as nat)
    }
}

/// The id of the "no motor" entry of the motor selector.
pub fn no_motor_id() -> (id: &'static str)
    ensures
        id@ == no_motor_id_spec(),
{
    proof { reveal_strlit("-1"); }
    "-1"
}

/// One entry of the motor selector: the id it is found by and the text it shows.
pub struct SelectorEntry {
    pub id: String,
    pub label: String,
}

/// The entries of the motor selector for the supported motors named in
/// `motor_names`, in order: "None" under the id "-1", then each motor under
/// the decimal text of its index.
pub fn motor_selector_entries(motor_names: &Vec<String>) -> (entries: Vec<SelectorEntry>)
    ensures
        entries.len() == motor_names.len() + 1,
        forall|i: int| 0 <= i < entries.len() ==> #[trigger] entries[i].id@ == selector_entry_id(i as nat),
        entries[0].label@ == no_motor_label_spec(),
        forall|k: int| 0 <= k < motor_names.len() ==> #[trigger] entries[k + 1].label@ == motor_names[k]@,
{
    let mut entries: Vec<SelectorEntry> = Vec::new();
    proof { reveal_strlit("None"); }
    entries.push(SelectorEntry { id: no_motor_id().to_owned(), label: "None".to_owned() });
    let mut k: usize = 0;
    while k < motor_names.len()
        invariant
            k <= motor_names.len(),
            entries.len() == k + 1,
            forall|i: int| 0 <= i < entries.len() ==> #[trigger] entries[i].id@ == selector_entry_id(i as nat),
            entries[0].label@ == no_motor_label_spec(),
            forall|j: int| 0 <= j < k ==> #[trigger] entries[j + 1].label@ == motor_names[j]@,
        decreases motor_names.len() - k,
    {
        let id = format_usize(k);
        let label = motor_names[k].clone();
        let ghost before = entries;
        entries.push(SelectorEntry { id, label });
        assert forall|i: int| 0 <= i < entries.len() implies #[trigger] entries[i].id@ == selector_entry_id(i as nat) by {
            if i < k + 1 {
                assert(entries[i] == before[i]);
                assert(before[i].id@ == selector_entry_id(i as nat));
            } else {
                assert(entries[i].id@ == decimal(k as nat));
                assert(selector_entry_id(i as nat) == decimal(k as nat));
            }
        }
        assert forall|j: int| 0 <= j < k + 1 implies #[trigger] entries[j + 1].label@ == motor_names[j]@ by {
            if j < k {
                assert(entries[j + 1] == before[j + 1]);
                assert(before[j + 1].label@ == motor_names[j]@);
            } else {
                assert(j == k);
            }
        }
        k = k + 1;
    }
    entries
}

/// What the selector shows when the window opens.
pub struct SelectorState {
    /// The id of the entry made active.
    pub active_id: String,
    /// Whether the motor graph button is made sensitive (when false, it is
    /// left as it is).
    pub enable_graph_button: bool,
}

/// The id that is made active for the stored selection: the motor's entry
/// when a motor is selected, else the "no motor" entry.
pub open spec fn initial_active_id(selected: Option<usize>) -> Seq<char> {
    match selected {
        Some(n) => decimal(n as nat),
        None => no_motor_id_spec(),
    }
}

/// The selector state that shows the stored motor selection.
pub fn initial_selector_state(selected: Option<usize>) -> (state: SelectorState)
    ensures
        state.active_id@ == initial_active_id(selected),
        state.enable_graph_button == selected.is_some(),
{
    match selected {
        Some(n) => SelectorState { active_id: format_usize(n), enable_graph_button: true },
        None => SelectorState { active_id: no_motor_id().to_owned(), enable_graph_button: false },
    }
}

/// What happens to the motor graph window after a change of selection.
#[derive(Clone, Copy, Debug, PartialEq, Eq, Structural)]
pub enum DisplayAction {
    /// Draw the graph again, for the newly selected motor.
    Redraw,
    /// Hide the graph window.
    Hide,
    /// Leave the graph window as it is.
    Keep,
}

/// The outcome of a change of the motor selector.
#[derive(Clone, Copy, Debug, PartialEq, Eq, Structural)]
pub struct MotorSelection {
    /// The motor that is stored as selected.
    pub motor: Option<usize>,
    /// Whether the motor graph button is sensitive afterwards.
    pub graph_button_sensitive: bool,
    /// What happens to the graph window.
    pub display: DisplayAction,
}

/// The outcome of the selector changing to the entry `active_id` (`None`
/// when no entry is active): an id that parses as a number selects that
/// motor; any other id selects none and hides the graph; no entry selects
/// none and leaves the graph alone.
pub open spec fn select_motor_spec(active_id: Option<Seq<char>>) -> MotorSelection {
    match active_id {
        Some(id) => match parse_usize_spec(id) {
            Some(n) => MotorSelection { motor: Some(n), graph_button_sensitive: true, display: DisplayAction::Redraw },
            None => MotorSelection { motor: None, graph_button_sensitive: false, display: DisplayAction::Hide },
        },
        None => MotorSelection { motor: None, graph_button_sensitive: false, display: DisplayAction::Keep },
    }
}

/// Decides what a change of the motor selector does.
pub fn select_motor(active_id: Option<&str>) -> (selection: MotorSelection)
    ensures
        selection == select_motor_spec(match active_id { Some(id) => Some(id@), None => None }),
{
    match active_id {
        Some(id) => match parse_usize(id) {
            Some(n) => MotorSelection { motor: Some(n), graph_button_sensitive: true, display: DisplayAction::Redraw },
            None => MotorSelection { motor: None, graph_button_sensitive: false, display: DisplayAction::Hide },
        },
        None => MotorSelection { motor: None, graph_button_sensitive: false, display: DisplayAction::Keep },
    }
}

/// Law: a change of the selector to an entry whose id is a number selects
/// that motor, enables the graph button and redraws the graph; to any
/// other entry selects no motor, disables the button and hides the graph;
/// to no entry at all selects no motor, disables the button and leaves the
/// graph as it is.
pub proof fn lemma_selection_outcomes(active_id: Option<Seq<char>>)
    ensures
        active_id is None ==> select_motor_spec(active_id) == (MotorSelection {
            motor: None,
            graph_button_sensitive: false,
            display: DisplayAction::Keep,
        }),
        active_id matches Some(id) ==> (parse_usize_spec(id) matches Some(n) ==> select_motor_spec(active_id) == (
        MotorSelection { motor: Some(n), graph_button_sensitive: true, display: DisplayAction::Redraw })),
        active_id matches Some(id) ==> (parse_usize_spec(id) is None ==> select_motor_spec(active_id) == (
        MotorSelection { motor: None, graph_button_sensitive: false, display: DisplayAction::Hide })),
{
}

/// Law: choosing the selector entry of a motor selects exactly that motor,
/// enables its graph and redraws it; choosing the "None" entry selects no
/// motor, disables the graph button and hides the graph.
pub proof fn lemma_entry_selects_its_motor(i: nat)
    requires
        i <= usize::MAX + 1,
    ensures
        i == 0 ==> select_motor_spec(Some(selector_entry_id(i))) == (MotorSelection {
            motor: None,
            graph_button_sensitive: false,
            display: DisplayAction::Hide,
        }),
        i > 0 ==> select_motor_spec(Some(selector_entry_id(i))) == (MotorSelection {
            motor: Some((i - 1) as usize),
            graph_button_sensitive: true,
            display: DisplayAction::Redraw,
        }),
{
    if i > 0 {
        lemma_parse_format_roundtrip((i - 1) as usize);
    } else {
        assert(!crate::decimal::is_digit(no_motor_id_spec()[0]));
    }
}

/// Law: the entry made active when the window opens selects, when the user
/// keeps it, the motor that was stored.
pub proof fn lemma_initial_state_keeps_selection(selected: Option<usize>)
    ensures
        select_motor_spec(Some(initial_active_id(selected))).motor == selected,
{
    match selected {
        Some(n) => lemma_parse_format_roundtrip(n),
        None => assert(!crate::decimal::is_digit(no_motor_id_spec()[0])),
    }
}

/// The guard that keeps the timestep and frequency inputs from updating each
/// other in a loop: setting one input from the other fires the other's
/// change handler, which must then do nothing.
pub struct LinkGuard {
    suppressed: bool,
}

impl View for LinkGuard {
    type V = bool;

    /// Whether an update between the linked inputs is under way.
    closed spec fn view(&self) -> bool {
        self.suppressed
    }
}

impl LinkGuard {
    /// A guard with no update under way.
    pub fn new() -> (guard: Self)
        ensures
            !guard@,
    {
        LinkGuard { suppressed: false }
    }

    /// Called when one input changed: returns whether to pass the change on
    /// to the other input, which is so only when no update between them is
    /// under way (else the change is the echo of that update). Afterwards an
    /// update is under way either way.
    pub fn begin_update(&mut self) -> (propagate: bool)
        ensures
            propagate == !old(self)@,
            final(self)@,
    {
        if self.suppressed {
            false
        } else {
            self.suppressed = true;
            true
        }
    }

    /// Called when the other input has been set: the update is over.
    pub fn end_update(&mut self)
        ensures
            !final(self)@,
    {
        self.suppressed = false;
    }
}

} // verus!
