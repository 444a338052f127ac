use vstd::prelude::*;

use crate::lexing::{fallback_lexes, is_path_text, is_unclosed_group, is_unterminated_string, lex_tokens, LexedText};

verus! {

/// The arguments of the `avionics_harness` attribute.
pub struct AvionicsParameters {
    /// The expression that creates the avionics state (its constructor's path).
    pub default: String,
    /// Whether to leave out the generated panic handler.
    pub no_panic: bool,
}

/// The trait of the `impl` block that the `avionics_harness` attribute is on.
pub struct TraitRef {
    /// Whether the impl is negative (`impl !Trait for ...`).
    pub negated: bool,
    /// Whether the trait's path starts with `::`.
    pub leading_colon: bool,
    /// The path's segments, each as written.
    pub segments: Vec<String>,
}

/// Why the `avionics_harness` attribute rejects an impl.
#[derive(Clone, Copy, Debug, PartialEq, Eq, Structural)]
pub enum HarnessError {
    /// The impl block implements no trait.
    NoTrait,
    /// The implemented trait's path does not end in `Avionics`.
    NotAvionics,
    /// The impl is a negative impl.
    Negated,
    /// The `default` argument does not read as Rust tokens.
    InvalidDefault,
}

/// Where the harnessed avionics run.
#[derive(Clone, Copy, Debug, PartialEq, Eq, Structural)]
pub enum Platform {
    /// Under the preflight simulator: the guidance entry point and the panic
    /// callback are exported for it.
    Simulator,
    /// On the flight computer: the guidance entry point is a C function.
    FlightComputer,
}

/// What the generated panic handler does.
#[derive(Clone, Copy, Debug, PartialEq, Eq, Structural)]
pub enum PanicHandler {
    /// No panic handler is generated.
    Omitted,
    /// The handler calls the callback that the simulator registered.
    SimulatorCallback,
    /// The handler calls the flight computer's `panic_abort`.
    Abort,
}

/// What the `avionics_harness` attribute generates around an accepted impl.
pub struct HarnessPlan {
    pub platform: Platform,
    pub panic_handler: PanicHandler,
    /// The tokens of the `default` argument, which initialise the state.
    pub default_init: LexedText,
}

/// The segments of a path joined by `::`.
pub open spec fn join_segments(segments: Seq<Seq<char>>) -> Seq<char>
    decreases segments.len(),
{
    if segments.len() == 0 {
        Seq::empty()
    } else if segments.len() == 1 {
        segments[0]
    } else {
        join_segments(segments.drop_last()) + "::"@ + segments.last()
    }
}

/// The text of the implemented trait's path.
pub open spec fn trait_path_spec(t: TraitRef) -> Seq<char> {
    (if t.leading_colon { "::"@ } else { Seq::<char>::empty() }) + join_segments(
        t.segments@.map_values(|s: String| s@),
    )
}

/// Whether `s` ends with `suffix`.
pub open spec fn ends_with_spec(s: Seq<char>, suffix: Seq<char>) -> bool {
    suffix.len() <= s.len() && s.subrange(s.len() - suffix.len(), s.len() as int) == suffix
}

/// The checks on the impl: it must implement a trait whose path ends in
/// `Avionics`, and must not be a negative impl.
pub open spec fn check_impl_spec(trait_ref: Option<TraitRef>) -> Result<(), HarnessError> {
    match trait_ref {
        None => Err(HarnessError::NoTrait),
        Some(t) => if !ends_with_spec(trait_path_spec(t), "Avionics"@) {
            Err(HarnessError::NotAvionics)
        } else if t.negated {
            Err(HarnessError::Negated)
        } else {
            Ok(())
        },
    }
}

/// The platform that the harness is generated for.
pub open spec fn platform_spec(simulator: bool) -> Platform {
    if simulator {
        Platform::Simulator
    } else {
        Platform::FlightComputer
    }
}

/// The panic handler that the harness generates.
pub open spec fn panic_handler_spec(no_panic: bool, simulator: bool) -> PanicHandler {
    if no_panic {
        PanicHandler::Omitted
    } else if simulator {
        PanicHandler::SimulatorCallback
    } else {
        PanicHandler::Abort
    }
}

/// Law: the impl passes the checks exactly when it implements a trait
/// whose path text ends in `Avionics` (with or without a leading `::`,
/// with any number of segments) and is not a negative impl; the reasons
/// for a rejection are reported in that order.
pub proof fn lemma_avionics_impl_accepted(trait_ref: Option<TraitRef>)
    ensures
        trait_ref is None ==> check_impl_spec(trait_ref) == Err::<(), HarnessError>(HarnessError::NoTrait),
        trait_ref matches Some(t) ==> {
            let text = trait_path_spec(t);
            let avionics = text.len() >= 8 && text.subrange(text.len() - 8, text.len() as int) == seq![
                'A',
                'v',
                'i',
                'o',
                'n',
                'i',
                'c',
                's',
            ];
            &&& (avionics && !t.negated) ==> check_impl_spec(trait_ref) == Ok::<(), HarnessError>(())
            &&& !avionics ==> check_impl_spec(trait_ref) == Err::<(), HarnessError>(HarnessError::NotAvionics)
            &&& (avionics && t.negated) ==> check_impl_spec(trait_ref) == Err::<(), HarnessError>(HarnessError::Negated)
        },
{
    reveal_strlit("Avionics");
    assert("Avionics"@ =~= seq!['A', 'v', 'i', 'o', 'n', 'i', 'c', 's']);
}

/// Law: `no_panic` leaves the panic handler out on either platform; else
/// the simulator's handler calls its callback and the flight computer's
/// aborts. The entry points follow the platform alone.
pub proof fn lemma_panic_handler_choice(no_panic: bool, simulator: bool)
    ensures
        no_panic ==> panic_handler_spec(no_panic, simulator) == PanicHandler::Omitted,
        !no_panic && simulator ==> panic_handler_spec(no_panic, simulator) == PanicHandler::SimulatorCallback,
        !no_panic && !simulator ==> panic_handler_spec(no_panic, simulator) == PanicHandler::Abort,
        simulator ==> platform_spec(simulator) == Platform::Simulator,
        !simulator ==> platform_spec(simulator) == Platform::FlightComputer,
{
}

/// The text of the implemented trait's path.
pub fn trait_path(t: &TraitRef) -> (text: String)
    ensures
        text@ == trait_path_spec(*t),
{
    let mut text = if t.leading_colon {
        "::".to_owned()
    } else {
        String::new()
    };
    let ghost prefix = text@;
    let ghost segs = t.segments@.map_values(|s: String| s@);
    let mut i: usize = 0;
    while i < t.segments.len()
        invariant
            i <= t.segments.len(),
            segs == t.segments@.map_values(|s: String| s@),
            prefix == (if t.leading_colon { "::"@ } else { Seq::<char>::empty() }),
            text@ == prefix + join_segments(segs.take(i as int)),
        decreases t.segments.len() - i,
    {
        assert(segs.take(i + 1).drop_last() =~= segs.take(i as int));
        if i > 0 {
            text.append("::");
        }
        text.append(t.segments[i].as_str());
        proof {
            if i == 0 {
                assert(segs.take(1) =~= seq![segs[0]]);
            }
            assert(text@ =~= prefix + join_segments(segs.take(i + 1)));
        }
        i = i + 1;
    }
    assert(segs.take(i as int) =~= segs);
    text
}

/// Whether `s` ends with `suffix`.
pub fn ends_with(s: &str, suffix: &str) -> (r: bool)
    ensures
        r == ends_with_spec(s@, suffix@),
{
    let n: usize = s.unicode_len();
    let m: usize = suffix.unicode_len();
    if m > n {
        return false;
    }
    let mut j: usize = 0;
    while j < m
        invariant
            m <= n,
            n == s@.len(),
            m == suffix@.len(),
            j <= m,
            forall|k: int| 0 <= k < j ==> s@[n - m + k] == suffix@[k],
        decreases m - j,
    {
        if s.get_char(n - m + j) != suffix.get_char(j) {
            assert(s@.subrange(n - m, n as int)[j as int] != suffix@[j as int]);
            return false;
        }
        j = j + 1;
    }
    assert(s@.subrange(n - m, n as int) =~= suffix@);
    true
}

/// The checks that the `avionics_harness` attribute makes of the impl it is
/// on, in the order it makes them.
pub fn check_impl(trait_ref: &Option<TraitRef>) -> (r: Result<(), HarnessError>)
    ensures
        r == check_impl_spec(*trait_ref),
{
    match trait_ref {
        None => Err(HarnessError::NoTrait),
        Some(t) => {
            let path = trait_path(t);
            proof { reveal_strlit("Avionics"); }
            if !ends_with(path.as_str(), "Avionics") {
                Err(HarnessError::NotAvionics)
            } else if t.negated {
                Err(HarnessError::Negated)
            } else {
                Ok(())
            }
        },
    }
}

/// What the `avionics_harness` attribute generates around an impl that
/// passed its checks, given the outcome of reading the `default` argument
/// as tokens: the entry points for the simulator (when `simulator`) or for
/// the flight computer, and the panic handler unless `no_panic` is set.
pub fn plan_harness(
    no_panic: bool,
    simulator: bool,
    default_init: Result<LexedText, proc_macro2::LexError>,
) -> (r: Result<HarnessPlan, HarnessError>)
    ensures
        match default_init {
            Ok(tokens) => r matches Ok(plan) && plan.default_init == tokens && plan.platform == platform_spec(simulator)
                && plan.panic_handler == panic_handler_spec(no_panic, simulator),
            Err(_) => r matches Err(e) && e == HarnessError::InvalidDefault,
        },
{
    let platform = if simulator {
        Platform::Simulator
    } else {
        Platform::FlightComputer
    };
    let panic_handler = if no_panic {
        PanicHandler::Omitted
    } else if simulator {
        PanicHandler::SimulatorCallback
    } else {
        PanicHandler::Abort
    };
    match default_init {
        Ok(default_init) => Ok(HarnessPlan { platform, panic_handler, default_init }),
        Err(_) => Err(HarnessError::InvalidDefault),
    }
}

/// The `avionics_harness` attribute: checks the impl, then reads the
/// `default` argument as tokens and settles what to generate. A rejected
/// impl is reported before the argument is read; an argument that does not
/// lex is reported as `InvalidDefault` (as one that opens a string or a
/// parenthesis and never closes it always is); an accepted impl whose
/// `default` is a plain path (such as `Controller::new`) is always planned,
/// with the tokens read from `default` as the state's initialiser.
pub fn harness(params: &AvionicsParameters, trait_ref: &Option<TraitRef>, simulator: bool) -> (r: Result<HarnessPlan, HarnessError>)
    ensures
        match check_impl_spec(*trait_ref) {
            Err(e) => r matches Err(err) && err == e,
            Ok(()) => match r {
                Ok(plan) => plan.platform == platform_spec(simulator)
                    && plan.panic_handler == panic_handler_spec(params.no_panic, simulator)
                    && plan.default_init.source() == params.default@,
                Err(err) => err == HarnessError::InvalidDefault && !is_path_text(params.default@),
            },
        },
        check_impl_spec(*trait_ref) is Ok && is_path_text(params.default@) ==> r is Ok,
        check_impl_spec(*trait_ref) is Ok && !fallback_lexes(params.default@) ==> r == Err::<
            HarnessPlan,
            HarnessError,
        >(HarnessError::InvalidDefault),
        check_impl_spec(*trait_ref) is Ok && (is_unterminated_string(params.default@) || is_unclosed_group(
            params.default@,
        )) ==> r == Err::<HarnessPlan, HarnessError>(HarnessError::InvalidDefault),
{
    match check_impl(trait_ref) {
        Err(e) => Err(e),
        Ok(()) => plan_harness(params.no_panic, simulator, lex_tokens(params.default.as_str())),
    }
}

/// The text of the compile error that the attribute reports for `e`.
pub open spec fn harness_error_message(e: HarnessError) -> Seq<char> {
    match e {
        HarnessError::NoTrait => "no trait was found to implement"@,
        HarnessError::NotAvionics => "expected a trait implementation of `Avionics`"@,
        HarnessError::Negated => "cannot negate the `Avionics` implementation"@,
        HarnessError::InvalidDefault => "lex error"@,
    }
}

impl HarnessError {
    /// The text of the compile error that the attribute reports.
    pub fn message(&self) -> (text: String)
        ensures
            text@ == harness_error_message(*self),
    {
        match self {
            HarnessError::NoTrait => "no trait was found to implement".to_owned(),
            HarnessError::NotAvionics => "expected a trait implementation of `Avionics`".to_owned(),
            HarnessError::Negated => "cannot negate the `Avionics` implementation".to_owned(),
            HarnessError::InvalidDefault => "lex error".to_owned(),
        }
    }
}

} // verus!
