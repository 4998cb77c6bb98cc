//! The browser as a state machine. The machine names the outside work that
//! it is waiting for as an [`Effect`]; whoever drives it performs that work
//! and hands the result back as an [`Event`]. The machine never blocks, draws
//! or sends anything itself.

use crate::catalogue::{discovered, lemma_fold_counts_names, lemma_fold_wf, pair_count, Catalogue,
    CatalogueView, ConnectionInfo};
use crate::filter::{matcher_input, selected, selection, FilterError, FilterErrorModel,
    MatcherExit};
use crate::keys::{command, input_command, is_key_press, pressed, Command, Input};
use crate::launcher::{banner, banner_text, launch_outcome, notice, notice_text, outcome, prompt,
    prompt_text, success_status, TerminalReply};
use crate::navigation::{confirm, confirmed, count, cursor_in_place, lemma_position_in_place, lines,
    move_down, move_up, moved_down, moved_up, position, position_of, resolve, resolved, visible,
    Choice, ChoiceModel, ConfirmPolicy, ViewModel, ViewState};
use crate::screen::{row_models, rows, rows_of, title_of, Row};
use crate::session::{authenticate, credential_variable, handshake_for, info_for,
    query_for, require_key, terminal_for, AuthError, ConfigError, Credential, Failure, FailureModel,
    FetchError, Filters, FiltersModel, Request, RequestModel};
use crate::text::{copy_all, join_lines, texts, Text};
use vstd::prelude::*;

verus! {

/// What the machine is waiting for.
#[derive(Debug, PartialEq, Eq)]
pub enum Phase {
    /// The configuration has not been read.
    Unconfigured,
    /// The handshake is under way.
    Handshaking { api_key: String },
    /// The query for the connection identifiers is under way.
    Querying,
    /// The request for the metadata of `ids` is under way.
    Resolving { ids: Vec<String> },
    /// The view is shown and the next input event awaited.
    Browsing,
    /// The external matcher runs.
    Filtering,
    /// The request to open a session against `identifier` is under way.
    Launching { identifier: String },
    /// The outcome of a launch is shown and the user's key awaited.
    Acknowledging { notice: String },
    /// The browser has ended.
    Exiting,
}

/// The mathematical value of a [`Phase`].
pub enum PhaseModel {
    Unconfigured,
    Handshaking { api_key: Text },
    Querying,
    Resolving { ids: Seq<Text> },
    Browsing,
    Filtering,
    Launching { identifier: Text },
    Acknowledging { notice: Text },
    Exiting,
}

impl View for Phase {
    type V = PhaseModel;

    open spec fn view(&self) -> PhaseModel {
        match self {
            Phase::Unconfigured => PhaseModel::Unconfigured,
            Phase::Handshaking { api_key } => PhaseModel::Handshaking { api_key: api_key@ },
            Phase::Querying => PhaseModel::Querying,
            Phase::Resolving { ids } => PhaseModel::Resolving { ids: texts(ids@) },
            Phase::Browsing => PhaseModel::Browsing,
            Phase::Filtering => PhaseModel::Filtering,
            Phase::Launching { identifier } => PhaseModel::Launching { identifier: identifier@ },
            Phase::Acknowledging { notice } => PhaseModel::Acknowledging { notice: notice@ },
            Phase::Exiting => PhaseModel::Exiting,
        }
    }
}

/// The result of outside work, handed to the machine.
#[derive(Debug, PartialEq, Eq)]
pub enum Event {
    /// The configuration was read: the API key, where one is configured.
    Configured { api_key: Option<String> },
    /// The handshake ended: the session token, or why none came.
    HandshakeDone { token: Result<String, Failure> },
    /// The query ended: the identifiers found, in the order received.
    QueryDone { found: Result<Vec<String>, Failure> },
    /// The metadata request ended: one element for each identifier asked
    /// about, in the same order.
    InfoDone { infos: Result<Vec<ConnectionInfo>, Failure> },
    /// The terminal delivered an input event.
    Input { input: Input },
    /// The external matcher ended.
    MatcherDone { exit: MatcherExit },
    /// The request to open a session was answered.
    TerminalDone { reply: TerminalReply },
}

/// The outside work that the machine asks for.
#[derive(Debug, PartialEq, Eq)]
pub enum Effect {
    /// Read the API key from the environment variable `variable`.
    Configure { variable: String },
    /// Perform the exchange and hand back its reply.
    Send { request: Request },
    /// Draw the view and await one input event.
    Render,
    /// Run the matcher with `input` on its input stream.
    Match { input: String },
    /// Clear the screen, show `banner`, then perform the exchange.
    Launch { banner: String, request: Request },
    /// Show `notice` and `prompt`, then await one input event.
    Acknowledge { notice: String, prompt: String },
    /// Leave: there is nothing more to do.
    Stop,
}

/// The mathematical value of an [`Effect`].
pub enum EffectModel {
    Configure { variable: Text },
    Send { request: RequestModel },
    Render,
    Match { input: Text },
    Launch { banner: Text, request: RequestModel },
    Acknowledge { notice: Text, prompt: Text },
    Stop,
}

impl View for Effect {
    type V = EffectModel;

    open spec fn view(&self) -> EffectModel {
        match self {
            Effect::Configure { variable } => EffectModel::Configure { variable: variable@ },
            Effect::Send { request } => EffectModel::Send { request: request@ },
            Effect::Render => EffectModel::Render,
            Effect::Match { input } => EffectModel::Match { input: input@ },
            Effect::Launch { banner, request } => EffectModel::Launch {
                banner: banner@,
                request: request@,
            },
            Effect::Acknowledge { notice, prompt } => EffectModel::Acknowledge {
                notice: notice@,
                prompt: prompt@,
            },
            Effect::Stop => EffectModel::Stop,
        }
    }
}

/// What goes to the diagnostic channel, beside the view.
#[derive(Debug, PartialEq, Eq)]
pub enum Fault {
    /// Fatal: the browser ends before it has shown anything.
    Config(ConfigError),
    /// The browser goes on unauthenticated, with an empty catalogue.
    Auth(AuthError),
    /// The browser goes on with the catalogue as it was.
    Fetch(FetchError),
    /// The browser goes on as if the filter had not been asked for.
    Filter(FilterError),
}

/// The mathematical value of a [`Fault`].
pub enum FaultModel {
    Config(ConfigError),
    Auth(FailureModel),
    Fetch(FailureModel),
    Filter(FilterErrorModel),
}

impl View for Fault {
    type V = FaultModel;

    open spec fn view(&self) -> FaultModel {
        match self {
            Fault::Config(e) => FaultModel::Config(*e),
            Fault::Auth(e) => FaultModel::Auth(e.cause@),
            Fault::Fetch(e) => FaultModel::Fetch(e.cause@),
            Fault::Filter(e) => FaultModel::Filter(e@),
        }
    }
}

/// The mathematical value of a fault that may be none.
pub open spec fn fault_model(fault: Option<Fault>) -> Option<FaultModel> {
    match fault {
        Some(f) => Some(f@),
        None => None,
    }
}

/// The text of a fault, as the diagnostic channel shows it.
pub open spec fn fault_text(fault: FaultModel) -> Text {
    match fault {
        FaultModel::Config(ConfigError::MissingCredential) =>
            "XPIPE_API_KEY environment variable not set"@,
        FaultModel::Auth(_) => "Error during handshake."@,
        FaultModel::Fetch(FailureModel::Network { reason }) => "Error fetching connections: "@
            + reason,
        FaultModel::Fetch(FailureModel::BadPayload { reason }) => "Error fetching connections: "@
            + reason,
        FaultModel::Filter(FilterErrorModel::NotRun { reason }) => "Failed to run fzf: "@ + reason,
        FaultModel::Filter(FilterErrorModel::NoSelection) =>
            "No selection made or fzf process failed."@,
        FaultModel::Filter(FilterErrorModel::Unknown { .. }) =>
            "Selected server not found in resources."@,
    }
}

impl Fault {
    /// Whether the browser ends on this fault.
    pub fn is_fatal(&self) -> (r: bool)
        ensures
            r == (self@ is Config),
    {
        match self {
            Fault::Config(_) => true,
            _ => false,
        }
    }

    /// The text of the fault, for the diagnostic channel.
    pub fn message(&self) -> (s: String)
        ensures
            s@ == fault_text(self@),
    {
        match self {
            Fault::Config(ConfigError::MissingCredential) => {
                "XPIPE_API_KEY environment variable not set".to_owned()
            },
            Fault::Auth(_) => "Error during handshake.".to_owned(),
            Fault::Fetch(e) => {
                let mut s = "Error fetching connections: ".to_owned();
                match &e.cause {
                    Failure::Network { reason } => s.append(reason.as_str()),
                    Failure::BadPayload { reason } => s.append(reason.as_str()),
                }
                s
            },
            Fault::Filter(FilterError::NotRun { reason }) => {
                let mut s = "Failed to run fzf: ".to_owned();
                s.append(reason.as_str());
                s
            },
            Fault::Filter(FilterError::NoSelection) => {
                "No selection made or fzf process failed.".to_owned()
            },
            Fault::Filter(FilterError::Unknown { .. }) => {
                "Selected server not found in resources.".to_owned()
            },
        }
    }
}

/// The state of the browser, as mathematics.
pub struct Model {
    /// The bearer token, once the handshake has yielded one.
    pub credential: Option<Text>,
    pub catalogue: CatalogueView,
    pub filters: FiltersModel,
    pub policy: ConfirmPolicy,
    pub view: ViewModel,
    /// The index of the selected item among those that the view shows.
    pub cursor: nat,
    pub phase: PhaseModel,
}

/// A state, and what its transition sent to the diagnostic channel.
pub struct Step {
    pub state: Model,
    pub fault: Option<FaultModel>,
}

/// Whether a phase has a request under way that carries the bearer token.
pub open spec fn authenticated_phase(phase: PhaseModel) -> bool {
    phase is Querying || phase is Resolving || phase is Launching
}

impl Model {
    /// The items that the view shows.
    pub open spec fn items(self) -> Seq<Text> {
        visible(self.catalogue, self.view)
    }

    /// The bearer token, or the empty text where there is none.
    pub open spec fn token(self) -> Text {
        match self.credential {
            Some(token) => token,
            None => Seq::empty(),
        }
    }

    /// The invariant of the machine: the catalogue is well formed, the cursor
    /// points into the visible items or at the top of an empty list, and no
    /// authenticated request is under way without a credential.
    pub open spec fn wf(self) -> bool {
        &&& self.catalogue.wf()
        &&& cursor_in_place(self.cursor, self.items().len())
        &&& authenticated_phase(self.phase) ==> self.credential is Some
    }

    /// The state in which the browser starts: nothing configured, nothing
    /// fetched, the flat list with the cursor at the top.
    pub open spec fn initial(policy: ConfirmPolicy, filters: FiltersModel) -> Model {
        Model {
            credential: None,
            catalogue: CatalogueView::empty(),
            filters,
            policy,
            view: ViewModel::Flat,
            cursor: 0,
            phase: PhaseModel::Unconfigured,
        }
    }

    /// This state in another phase.
    pub open spec fn in_phase(self, phase: PhaseModel) -> Model {
        Model { phase, ..self }
    }

    /// This state with a session against `identifier` about to be opened; or
    /// browsing, where there is no credential to open one with.
    pub open spec fn launching(self, identifier: Text) -> Model {
        if self.credential is Some {
            self.in_phase(PhaseModel::Launching { identifier })
        } else {
            self.in_phase(PhaseModel::Browsing)
        }
    }
}

/// A step that sends nothing to the diagnostic channel.
pub open spec fn quiet(state: Model) -> Step {
    Step { state, fault: None }
}

/// A step that reports a fault.
pub open spec fn faulty(state: Model, fault: FaultModel) -> Step {
    Step { state, fault: Some(fault) }
}

/// The step on the configuration: with a key the handshake begins; without
/// one the browser ends on a configuration error.
pub open spec fn configured(m: Model, api_key: Option<String>) -> Step {
    match api_key {
        Some(key) => quiet(m.in_phase(PhaseModel::Handshaking { api_key: key@ })),
        None => faulty(
            m.in_phase(PhaseModel::Exiting),
            FaultModel::Config(ConfigError::MissingCredential),
        ),
    }
}

/// The step on the end of the handshake: with a token the fetch begins;
/// without one the browser goes on unauthenticated.
pub open spec fn shaken(m: Model, reply: Result<String, Failure>) -> Step {
    match reply {
        Ok(token) => quiet(
            Model { credential: Some(token@), phase: PhaseModel::Querying, ..m },
        ),
        Err(cause) => faulty(m.in_phase(PhaseModel::Browsing), FaultModel::Auth(cause@)),
    }
}

/// The step on the end of the query: the identifiers found are asked about.
pub open spec fn queried(m: Model, reply: Result<Vec<String>, Failure>) -> Step {
    match reply {
        Ok(ids) => quiet(m.in_phase(PhaseModel::Resolving { ids: texts(ids@) })),
        Err(cause) => faulty(m.in_phase(PhaseModel::Browsing), FaultModel::Fetch(cause@)),
    }
}

/// The step on the end of the metadata request for `ids`: the pairs are
/// folded into the catalogue, which is then shown from the top; on a failure
/// the catalogue stays what it was.
pub open spec fn informed(m: Model, ids: Seq<Text>, reply: Result<Vec<ConnectionInfo>, Failure>)
    -> Step {
    match reply {
        Ok(infos) => quiet(
            Model {
                catalogue: m.catalogue.fold(infos@, ids),
                view: ViewModel::Flat,
                cursor: 0,
                phase: PhaseModel::Browsing,
                ..m
            },
        ),
        Err(cause) => faulty(m.in_phase(PhaseModel::Browsing), FaultModel::Fetch(cause@)),
    }
}

/// The state after a command, while browsing.
///
/// Moving keeps the cursor among the items. Confirm drills into a server or
/// opens a session, as [`confirmed`] says. Back leaves a drill-down for the
/// flat list, with the cursor on the server that was drilled into. Filter
/// hands over to the matcher, and Quit ends the browser.
pub open spec fn commanded(m: Model, command: Command) -> Model {
    match command {
        Command::MoveDown => Model { cursor: moved_down(m.cursor, m.items().len()), ..m },
        Command::MoveUp => Model { cursor: moved_up(m.cursor), ..m },
        Command::Confirm => match confirmed(m.catalogue, m.view, m.cursor, m.policy) {
            ChoiceModel::Stay => m,
            ChoiceModel::Drill { server } => Model {
                view: ViewModel::DrillDown { server },
                cursor: 0,
                ..m
            },
            ChoiceModel::Open { identifier } => m.launching(identifier),
        },
        Command::Back => match m.view {
            ViewModel::DrillDown { server } => Model {
                view: ViewModel::Flat,
                cursor: position_of(m.catalogue.names, server),
                ..m
            },
            ViewModel::Flat => m,
        },
        Command::Filter => m.in_phase(PhaseModel::Filtering),
        Command::Quit => m.in_phase(PhaseModel::Exiting),
    }
}

/// The state after an input event, while browsing: that after the command
/// which the event stands for, and the same state where it stands for none.
pub open spec fn browsed(m: Model, input: Input) -> Model {
    match input_command(input) {
        Some(command) => commanded(m, command),
        None => m,
    }
}

/// The step on the end of the matcher: a selection that resolves to an
/// identifier leads to its launch; anything else leads back to browsing.
/// The view and the cursor stay what they were.
pub open spec fn matched(m: Model, exit: MatcherExit) -> Step {
    match selected(exit) {
        Ok(line) => match resolved(m.catalogue, m.view, line) {
            Some(identifier) => quiet(m.launching(identifier)),
            None => faulty(
                m.in_phase(PhaseModel::Browsing),
                FaultModel::Filter(FilterErrorModel::Unknown { selection: line }),
            ),
        },
        Err(error) => faulty(m.in_phase(PhaseModel::Browsing), FaultModel::Filter(error)),
    }
}

/// The state after the launch of `identifier` was answered: the outcome is
/// shown, and the user's key awaited.
pub open spec fn answered(m: Model, identifier: Text, reply: TerminalReply) -> Model {
    m.in_phase(
        PhaseModel::Acknowledging { notice: notice_text(identifier, launch_outcome(reply)) },
    )
}

/// The state after an input event, while a notice is shown: browsing again on
/// the press of any key, and still waiting on anything else.
pub open spec fn acknowledged(m: Model, input: Input) -> Model {
    if is_key_press(input) {
        m.in_phase(PhaseModel::Browsing)
    } else {
        m
    }
}

/// The transition of the machine: the state after `event`, and what went to
/// the diagnostic channel. An event that the machine is not waiting for
/// changes nothing.
pub open spec fn next(m: Model, event: Event) -> Step {
    match event {
        Event::Configured { api_key } => match m.phase {
            PhaseModel::Unconfigured => configured(m, api_key),
            _ => quiet(m),
        },
        Event::HandshakeDone { token } => match m.phase {
            PhaseModel::Handshaking { .. } => shaken(m, token),
            _ => quiet(m),
        },
        Event::QueryDone { found } => match m.phase {
            PhaseModel::Querying => queried(m, found),
            _ => quiet(m),
        },
        Event::InfoDone { infos } => match m.phase {
            PhaseModel::Resolving { ids } => informed(m, ids, infos),
            _ => quiet(m),
        },
        Event::Input { input } => match m.phase {
            PhaseModel::Browsing => quiet(browsed(m, input)),
            PhaseModel::Acknowledging { .. } => quiet(acknowledged(m, input)),
            _ => quiet(m),
        },
        Event::MatcherDone { exit } => match m.phase {
            PhaseModel::Filtering => matched(m, exit),
            _ => quiet(m),
        },
        Event::TerminalDone { reply } => match m.phase {
            PhaseModel::Launching { identifier } => quiet(answered(m, identifier, reply)),
            _ => quiet(m),
        },
    }
}

/// The outside work that a state is waiting for.
pub open spec fn pending(m: Model) -> EffectModel {
    match m.phase {
        PhaseModel::Unconfigured => EffectModel::Configure { variable: credential_variable() },
        PhaseModel::Handshaking { api_key } => EffectModel::Send {
            request: handshake_for(api_key),
        },
        PhaseModel::Querying => EffectModel::Send { request: query_for(m.token(), m.filters) },
        PhaseModel::Resolving { ids } => EffectModel::Send { request: info_for(m.token(), ids) },
        PhaseModel::Browsing => EffectModel::Render,
        PhaseModel::Filtering => EffectModel::Match { input: join_lines(m.items()) },
        PhaseModel::Launching { identifier } => EffectModel::Launch {
            banner: banner_text(identifier),
            request: terminal_for(m.token(), identifier),
        },
        PhaseModel::Acknowledging { notice } => EffectModel::Acknowledge {
            notice,
            prompt: prompt_text(),
        },
        PhaseModel::Exiting => EffectModel::Stop,
    }
}

/// Every transition keeps the invariant of the machine: in particular the
/// cursor never leaves the items that the view shows.
pub proof fn lemma_next_keeps_invariant(m: Model, event: Event)
    requires
        m.wf(),
    ensures
        next(m, event).state.wf(),
{
    match event {
        Event::InfoDone { infos } => match m.phase {
            PhaseModel::Resolving { ids } => match infos {
                Ok(found) => {
                    lemma_fold_wf(m.catalogue, found@, ids);
                },
                Err(_) => {},
            },
            _ => {},
        },
        Event::Input { input } => match m.phase {
            PhaseModel::Browsing => match input_command(input) {
                Some(Command::Back) => match m.view {
                    ViewModel::DrillDown { server } => {
                        lemma_position_in_place(m.catalogue.names, server);
                    },
                    ViewModel::Flat => {},
                },
                _ => {},
            },
            _ => {},
        },
        _ => {},
    }
}

/// Every item that a view shows stands for a target: a selection of it
/// resolves to an identifier, and Confirm on it leads somewhere.
pub proof fn lemma_visible_items_resolve(m: Model, i: int)
    requires
        m.wf(),
        0 <= i < m.items().len(),
    ensures
        resolved(m.catalogue, m.view, m.items()[i]) is Some,
        !(confirmed(m.catalogue, m.view, i as nat, m.policy) is Stay),
{
    match m.view {
        ViewModel::Flat => {
            let name = m.catalogue.names[i];
            assert(m.catalogue.names.to_set().contains(name));
            assert(m.catalogue.resources.contains_key(name));
        },
        ViewModel::DrillDown { .. } => {
            assert(m.items().contains(m.items()[i]));
        },
    }
}

/// Move-down with the cursor on the last item leaves the state as it is, and
/// so does Move-up with the cursor on the first.
pub proof fn lemma_moves_stop_at_the_ends(m: Model, input: Input)
    requires
        m.wf(),
        m.phase is Browsing,
    ensures
        input_command(input) == Some(Command::MoveDown) && m.cursor + 1 == m.items().len() ==> next(
            m,
            Event::Input { input },
        ) == quiet(m),
        input_command(input) == Some(Command::MoveUp) && m.cursor == 0 ==> next(
            m,
            Event::Input { input },
        ) == quiet(m),
        input_command(input) == Some(Command::MoveDown) && m.cursor + 1 < m.items().len() ==> next(
            m,
            Event::Input { input },
        ).state.cursor == m.cursor + 1,
        input_command(input) == Some(Command::MoveUp) && m.cursor > 0 ==> next(
            m,
            Event::Input { input },
        ).state.cursor == m.cursor - 1,
{
}

/// While the view shows nothing, as it does over an empty catalogue,
/// Move-up, Move-down and Confirm change nothing.
pub proof fn lemma_nothing_to_move_over(m: Model, input: Input)
    requires
        m.wf(),
        m.phase is Browsing,
        m.items().len() == 0 || m.catalogue == CatalogueView::empty(),
        input_command(input) == Some(Command::MoveUp) || input_command(input) == Some(
            Command::MoveDown,
        ) || input_command(input) == Some(Command::Confirm),
    ensures
        next(m, Event::Input { input }) == quiet(m),
{
    assert(m.items().len() == 0);
}

/// The filter never moves the cursor nor changes the view or the catalogue,
/// however the matcher ends; and where the matcher ends without a selection
/// that the view resolves, the browser is back in the state in which the
/// filter was asked for.
pub proof fn lemma_filter_leaves_view(m: Model, input: Input, exit: MatcherExit)
    requires
        m.phase is Browsing,
        input_command(input) == Some(Command::Filter),
    ensures
        ({
            let filtering = next(m, Event::Input { input }).state;
            let after = next(filtering, Event::MatcherDone { exit }).state;
            &&& filtering == m.in_phase(PhaseModel::Filtering)
            &&& after.view == m.view
            &&& after.cursor == m.cursor
            &&& after.catalogue == m.catalogue
            &&& (selected(exit) is Err || (selected(exit) matches Ok(line) && resolved(
                m.catalogue,
                m.view,
                line,
            ) is None)) ==> after == m
        }),
{
}

/// From the start of the browser through a handshake that yields a token, a
/// query and the metadata request: the flat view then shows as many items as
/// there are distinct display names among the pairs of metadata and
/// identifier. Where the service answers with no more metadata than
/// identifiers asked about, these are all the display names that it sent.
pub proof fn lemma_round_trip_counts_names(
    policy: ConfirmPolicy,
    filters: FiltersModel,
    key: String,
    token: String,
    ids: Vec<String>,
    infos: Vec<ConnectionInfo>,
)
    ensures
        ({
            let configured = next(
                Model::initial(policy, filters),
                Event::Configured { api_key: Some(key) },
            ).state;
            let authenticated = next(configured, Event::HandshakeDone { token: Ok(token) }).state;
            let asked = next(authenticated, Event::QueryDone { found: Ok(ids) }).state;
            let shown = next(asked, Event::InfoDone { infos: Ok(infos) }).state;
            let n = pair_count(infos@.len(), ids@.len());
            &&& shown.phase is Browsing
            &&& shown.view is Flat
            &&& shown.credential == Some(token@)
            &&& shown.items().to_set() == discovered(infos@, n)
            &&& shown.items().len() == discovered(infos@, n).len()
            &&& infos@.len() <= ids@.len() ==> shown.items().len() == discovered(
                infos@,
                infos@.len(),
            ).len()
        }),
{
    lemma_fold_counts_names(infos@, texts(ids@));
    assert(texts(ids@).len() == ids@.len());
}

/// Whatever answers the launch request, the browser shows the outcome and
/// waits: the press of a key leads back to browsing, with the view and the
/// cursor as they were, and nothing else does. A rejection's notice ends
/// with the response body as it came.
pub proof fn lemma_launch_is_acknowledged(m: Model, reply: TerminalReply, input: Input)
    requires
        m.phase is Launching,
    ensures
        ({
            let shown = next(m, Event::TerminalDone { reply }).state;
            let after = next(shown, Event::Input { input }).state;
            &&& shown == m.in_phase(
                PhaseModel::Acknowledging {
                    notice: notice_text(m.phase->identifier, launch_outcome(reply)),
                },
            )
            &&& pending(shown) == (EffectModel::Acknowledge {
                notice: notice_text(m.phase->identifier, launch_outcome(reply)),
                prompt: prompt_text(),
            })
            &&& is_key_press(input) ==> after == m.in_phase(PhaseModel::Browsing)
            &&& !is_key_press(input) ==> after == shown
            &&& reply matches TerminalReply::Status { code, body: Some(text) } ==> !success_status(
                code,
            ) ==> notice_text(m.phase->identifier, launch_outcome(reply))
                == "Error opening terminal session:\n"@ + text@
        }),
{
}

/// Every authenticated request carries the credential that the handshake
/// yielded: nothing is fetched or opened before the handshake has ended.
pub proof fn lemma_requests_carry_the_credential(m: Model)
    requires
        m.wf(),
    ensures
        pending(m) matches EffectModel::Send { request: RequestModel::Query { token, .. } }
            ==> m.credential == Some(token),
        pending(m) matches EffectModel::Send { request: RequestModel::Info { token, .. } }
            ==> m.credential == Some(token),
        pending(m) matches EffectModel::Launch {
            request: RequestModel::Terminal { token, .. },
            ..
        } ==> m.credential == Some(token),
        pending(m) is Launch ==> m.phase is Launching,
        pending(m) is Render ==> m.phase is Browsing,
{
}

/// While a request or the matcher is under way, input events change
/// nothing: navigation waits until the outside work has ended.
pub proof fn lemma_input_waits_for_outside_work(m: Model, input: Input)
    requires
        !(m.phase is Browsing),
        !(m.phase is Acknowledging),
    ensures
        next(m, Event::Input { input }) == quiet(m),
{
}

/// Once the browser has ended, no event changes anything, and the machine
/// asks for no more work.
pub proof fn lemma_exiting_is_final(m: Model, event: Event)
    requires
        m.phase is Exiting,
    ensures
        next(m, event) == quiet(m),
        pending(m) is Stop,
{
}

/// Without a credential nothing is fetched and no session is opened: the
/// machine never comes to send an authenticated request.
pub proof fn lemma_unauthenticated_sends_nothing(m: Model, event: Event)
    requires
        m.wf(),
        m.credential is None,
        !(m.phase is Handshaking),
    ensures
        next(m, event).state.credential is None,
        !authenticated_phase(next(m, event).state.phase),
        !(pending(next(m, event).state) is Launch),
{
}

/// Without a configured key the browser ends on a configuration error
/// before it has drawn anything.
pub proof fn lemma_missing_key_is_fatal(policy: ConfirmPolicy, filters: FiltersModel)
    ensures
        ({
            let step = next(Model::initial(policy, filters), Event::Configured { api_key: None });
            &&& step.fault == Some(FaultModel::Config(ConfigError::MissingCredential))
            &&& step.state.phase is Exiting
            &&& pending(step.state) is Stop
        }),
{
}

/// The browser: the credential, the catalogue, the view with its cursor, and
/// the phase that says what the machine is waiting for.
#[derive(Debug)]
pub struct App {
    credential: Option<Credential>,
    catalogue: Catalogue,
    filters: Filters,
    policy: ConfirmPolicy,
    view: ViewState,
    cursor: usize,
    phase: Phase,
}

impl View for App {
    type V = Model;

    closed spec fn view(&self) -> Model {
        Model {
            credential: match self.credential {
                Some(c) => Some(c@),
                None => None,
            },
            catalogue: self.catalogue@,
            filters: self.filters@,
            policy: self.policy,
            view: self.view@,
            cursor: self.cursor as nat,
            phase: self.phase@,
        }
    }
}

impl App {
    /// What every browser keeps: the invariant of the machine.
    #[verifier::type_invariant]
    spec fn kept(self) -> bool {
        self@.wf()
    }

    /// A browser that has not started, with the given policy for Confirm
    /// and the given filters for its query.
    pub fn new(policy: ConfirmPolicy, filters: Filters) -> (app: App)
        ensures
            app@ == Model::initial(policy, filters@),
            app@.wf(),
    {
        App {
            credential: None,
            catalogue: Catalogue::new(),
            filters,
            policy,
            view: ViewState::Flat,
            cursor: 0,
            phase: Phase::Unconfigured,
        }
    }

    /// Whether the browser has ended.
    pub fn is_exiting(&self) -> (r: bool)
        ensures
            r == (self@.phase is Exiting),
    {
        match self.phase {
            Phase::Exiting => true,
            _ => false,
        }
    }

    /// The phase that the machine is in.
    pub fn phase(&self) -> (phase: &Phase)
        ensures
            phase@ == self@.phase,
    {
        &self.phase
    }

    /// What the browser shows.
    pub fn view_state(&self) -> (view: &ViewState)
        ensures
            view@ == self@.view,
    {
        &self.view
    }

    /// The index of the selected item.
    pub fn cursor(&self) -> (cursor: usize)
        ensures
            cursor == self@.cursor,
            cursor_in_place(cursor as nat, self@.items().len()),
    {
        proof {
            use_type_invariant(self);
        }
        self.cursor
    }

    /// The catalogue.
    pub fn catalogue(&self) -> (catalogue: &Catalogue)
        ensures
            catalogue@ == self@.catalogue,
    {
        &self.catalogue
    }

    /// Whether the handshake has yielded a credential.
    pub fn is_authenticated(&self) -> (r: bool)
        ensures
            r == (self@.credential is Some),
    {
        self.credential.is_some()
    }

    /// The items that the view shows, in order.
    pub fn items(&self) -> (items: Vec<String>)
        ensures
            texts(items@) == self@.items(),
    {
        lines(&self.catalogue, &self.view)
    }

    /// The rows to draw: one for each item that the view shows, the one
    /// under the cursor selected.
    pub fn rows(&self) -> (out: Vec<Row>)
        ensures
            row_models(out@) == rows_of(self@.items(), self@.cursor),
    {
        rows(lines(&self.catalogue, &self.view), self.cursor)
    }

    /// The title to draw over the list.
    pub fn title(&self) -> (title: String)
        ensures
            title@ == title_of(self@.view),
    {
        match &self.view {
            ViewState::Flat => "SSH Clients".to_owned(),
            ViewState::DrillDown { server } => server.clone(),
        }
    }

    /// The outside work that the machine is waiting for.
    pub fn pending(&self) -> (effect: Effect)
        ensures
            effect@ == pending(self@),
    {
        proof {
            use_type_invariant(self);
        }
        match &self.phase {
            Phase::Unconfigured => Effect::Configure { variable: "XPIPE_API_KEY".to_owned() },
            Phase::Handshaking { api_key } => Effect::Send { request: Request::handshake(api_key) },
            Phase::Querying => match &self.credential {
                Some(credential) => Effect::Send {
                    request: Request::query(credential, &self.filters),
                },
                None => Effect::Stop,
            },
            Phase::Resolving { ids } => match &self.credential {
                Some(credential) => Effect::Send { request: Request::info(credential, ids) },
                None => Effect::Stop,
            },
            Phase::Browsing => Effect::Render,
            Phase::Filtering => {
                let items = lines(&self.catalogue, &self.view);
                Effect::Match { input: matcher_input(&items) }
            },
            Phase::Launching { identifier } => match &self.credential {
                Some(credential) => Effect::Launch {
                    banner: banner(identifier.as_str()),
                    request: Request::terminal(credential, identifier),
                },
                None => Effect::Stop,
            },
            Phase::Acknowledging { notice } => Effect::Acknowledge {
                notice: notice.clone(),
                prompt: prompt(),
            },
            Phase::Exiting => Effect::Stop,
        }
    }

    /// Takes the result of outside work and moves to the next state. What is
    /// returned goes to the diagnostic channel.
    pub fn deliver(&mut self, event: Event) -> (fault: Option<Fault>)
        ensures
            final(self)@ == next(old(self)@, event).state,
            fault_model(fault) == next(old(self)@, event).fault,
            final(self)@.wf(),
    {
        let fault = match event {
            Event::Configured { api_key } => self.on_configured(api_key),
            Event::HandshakeDone { token } => self.on_handshake(token),
            Event::QueryDone { found } => self.on_query(found),
            Event::InfoDone { infos } => self.on_info(infos),
            Event::Input { input } => {
                self.on_input(input);
                None
            },
            Event::MatcherDone { exit } => self.on_matcher(exit),
            Event::TerminalDone { reply } => {
                self.on_terminal(reply);
                None
            },
        };
        proof {
            use_type_invariant(&*self);
        }
        fault
    }

    fn on_configured(&mut self, api_key: Option<String>) -> (fault: Option<Fault>)
        ensures
            final(self)@ == next(old(self)@, Event::Configured { api_key }).state,
            fault_model(fault) == next(old(self)@, Event::Configured { api_key }).fault,
    {
        proof {
            use_type_invariant(&*self);
        }
        match self.phase {
            Phase::Unconfigured => match require_key(api_key) {
                Ok(key) => {
                    self.phase = Phase::Handshaking { api_key: key };
                    None
                },
                Err(error) => {
                    self.phase = Phase::Exiting;
                    Some(Fault::Config(error))
                },
            },
            _ => None,
        }
    }

    fn on_handshake(&mut self, token: Result<String, Failure>) -> (fault: Option<Fault>)
        ensures
            final(self)@ == next(old(self)@, Event::HandshakeDone { token }).state,
            fault_model(fault) == next(old(self)@, Event::HandshakeDone { token }).fault,
    {
        proof {
            use_type_invariant(&*self);
        }
        match self.phase {
            Phase::Handshaking { .. } => match authenticate(token) {
                Ok(credential) => {
                    self.credential = Some(credential);
                    self.phase = Phase::Querying;
                    None
                },
                Err(error) => {
                    self.phase = Phase::Browsing;
                    Some(Fault::Auth(error))
                },
            },
            _ => None,
        }
    }

    fn on_query(&mut self, found: Result<Vec<String>, Failure>) -> (fault: Option<Fault>)
        ensures
            final(self)@ == next(old(self)@, Event::QueryDone { found }).state,
            fault_model(fault) == next(old(self)@, Event::QueryDone { found }).fault,
    {
        proof {
            use_type_invariant(&*self);
        }
        match self.phase {
            Phase::Querying => match found {
                Ok(ids) => {
                    self.phase = Phase::Resolving { ids };
                    None
                },
                Err(cause) => {
                    self.phase = Phase::Browsing;
                    Some(Fault::Fetch(FetchError { cause }))
                },
            },
            _ => None,
        }
    }

    fn on_info(&mut self, infos: Result<Vec<ConnectionInfo>, Failure>) -> (fault: Option<Fault>)
        ensures
            final(self)@ == next(old(self)@, Event::InfoDone { infos }).state,
            fault_model(fault) == next(old(self)@, Event::InfoDone { infos }).fault,
    {
        proof {
            use_type_invariant(&*self);
        }
        let asked: Option<Vec<String>> = match &self.phase {
            Phase::Resolving { ids } => Some(copy_all(ids)),
            _ => None,
        };
        match asked {
            Some(ids) => match infos {
                Ok(infos) => {
                    // The cursor goes to the top before the catalogue changes
                    // beneath it.
                    self.cursor = 0;
                    self.view = ViewState::Flat;
                    let mut catalogue = Catalogue::new();
                    core::mem::swap(&mut self.catalogue, &mut catalogue);
                    catalogue.fold(&infos, &ids);
                    self.catalogue = catalogue;
                    self.phase = Phase::Browsing;
                    None
                },
                Err(cause) => {
                    self.phase = Phase::Browsing;
                    Some(Fault::Fetch(FetchError { cause }))
                },
            },
            None => None,
        }
    }

    fn on_input(&mut self, input: Input)
        ensures
            final(self)@ == next(old(self)@, Event::Input { input }).state,
            next(old(self)@, Event::Input { input }).fault is None,
    {
        proof {
            use_type_invariant(&*self);
        }
        match self.phase {
            Phase::Browsing => match command(input) {
                Some(command) => self.obey(command),
                None => {},
            },
            Phase::Acknowledging { .. } => {
                if pressed(input) {
                    self.phase = Phase::Browsing;
                }
            },
            _ => {},
        }
    }

    fn obey(&mut self, command: Command)
        ensures
            final(self)@ == commanded(old(self)@, command),
    {
        proof {
            use_type_invariant(&*self);
        }
        match command {
            Command::MoveDown => {
                let len = count(&self.catalogue, &self.view);
                self.cursor = move_down(self.cursor, len);
            },
            Command::MoveUp => {
                self.cursor = move_up(self.cursor);
            },
            Command::Confirm => {
                match confirm(&self.catalogue, &self.view, self.cursor, self.policy) {
                    Choice::Stay => {},
                    Choice::Drill { server } => {
                        self.cursor = 0;
                        self.view = ViewState::DrillDown { server };
                    },
                    Choice::Open { identifier } => {
                        self.launch(identifier);
                    },
                }
            },
            Command::Back => {
                let at: Option<usize> = match &self.view {
                    ViewState::DrillDown { server } => Some(
                        position(self.catalogue.names(), server),
                    ),
                    ViewState::Flat => None,
                };
                match at {
                    Some(cursor) => {
                        self.cursor = 0;
                        self.view = ViewState::Flat;
                        self.cursor = cursor;
                    },
                    None => {},
                }
            },
            Command::Filter => {
                self.phase = Phase::Filtering;
            },
            Command::Quit => {
                self.phase = Phase::Exiting;
            },
        }
    }

    fn launch(&mut self, identifier: String)
        ensures
            final(self)@ == old(self)@.launching(identifier@),
    {
        proof {
            use_type_invariant(&*self);
        }
        if self.credential.is_some() {
            self.phase = Phase::Launching { identifier };
        } else {
            self.phase = Phase::Browsing;
        }
    }

    fn on_matcher(&mut self, exit: MatcherExit) -> (fault: Option<Fault>)
        ensures
            final(self)@ == next(old(self)@, Event::MatcherDone { exit }).state,
            fault_model(fault) == next(old(self)@, Event::MatcherDone { exit }).fault,
    {
        proof {
            use_type_invariant(&*self);
        }
        match self.phase {
            Phase::Filtering => match selection(exit) {
                Ok(line) => match resolve(&self.catalogue, &self.view, &line) {
                    Some(identifier) => {
                        self.launch(identifier);
                        None
                    },
                    None => {
                        self.phase = Phase::Browsing;
                        Some(Fault::Filter(FilterError::Unknown { selection: line }))
                    },
                },
                Err(error) => {
                    self.phase = Phase::Browsing;
                    Some(Fault::Filter(error))
                },
            },
            _ => None,
        }
    }

    fn on_terminal(&mut self, reply: TerminalReply)
        ensures
            final(self)@ == next(old(self)@, Event::TerminalDone { reply }).state,
            next(old(self)@, Event::TerminalDone { reply }).fault is None,
    {
        proof {
            use_type_invariant(&*self);
        }
        let target: Option<String> = match &self.phase {
            Phase::Launching { identifier } => Some(identifier.clone()),
            _ => None,
        };
        match target {
            Some(identifier) => {
                let result = outcome(reply);
                self.phase = Phase::Acknowledging { notice: notice(identifier.as_str(), &result) };
            },
            None => {},
        }
    }
}

impl Default for App {
    /// A browser that opens a session on the first Confirm and asks the
    /// service for its SSH connections.
    fn default() -> (app: App)
        ensures
            app@ == Model::initial(
                ConfirmPolicy::FlatLaunch,
                FiltersModel { category: "*"@, connection: "*"@, kind: "ssh"@ },
            ),
    {
        App::new(ConfirmPolicy::FlatLaunch, Filters::of_type("ssh"))
    }
}

} // verus!
