//! How a connection to the desktop's keyboard comes about.
use vstd::prelude::*;

use crate::error::PortalError;

verus! {

/// The portal's flag for a keyboard among the devices that it grants.
pub const DEVICE_KEYBOARD: u32 = 1;

/// How long the portal keeps a permission.
#[derive(Clone, Copy, Debug, PartialEq, Eq, Structural)]
pub enum Persistence {
    /// For this session.
    DoNot,
    /// While the application runs.
    Application,
    /// Until the user revokes it.
    ExplicitlyRevoked,
}

/// How far the connection has come: what is being done.
#[derive(Clone, Copy, Debug, PartialEq, Eq, Structural)]
pub enum Stage {
    CreatingSession,
    SelectingDevices,
    StartingSession,
    ConnectingToServer,
    SavingToken,
    OpeningContext,
    ShakingHands,
    Connected,
    Failed,
}

/// How the last step went.
#[derive(Debug)]
pub enum Outcome {
    Done,
    /// The portal started the session: the devices that the user granted, and a
    /// token that restores the permission later.
    Granted { devices: u32, token: Option<String> },
    /// It failed, or the listener stopped, or the user took too long.
    Failed,
}

/// What to do next.
#[allow(inconsistent_fields)]
#[derive(Debug)]
pub enum ConnectStep {
    /// Ask the portal for a session.
    CreateSession,
    /// Ask for devices, for as long as `persistence` says; the token restores an
    /// earlier permission.
    SelectDevices { devices: u32, persistence: Persistence, token: Option<String> },
    /// Ask the user.
    StartSession,
    /// Ask for the server's socket.
    ConnectToServer,
    /// Keep the token for later. A failure is no more than worth a warning.
    SaveToken { token: String },
    /// Set up the protocol on the socket.
    OpenContext,
    /// Introduce the client and wait for a keyboard.
    ShakeHands,
    /// The keyboard is there.
    Finish,
    /// Give up. `error` is the reason where it is not that the last step failed,
    /// `close_session` whether the portal's session is open, `authorizing` whether
    /// the permission was under way.
    GiveUp { error: Option<PortalError>, close_session: bool, authorizing: bool },
}

/// How the last step went, as mathematics.
pub enum OutcomeView {
    Done,
    Granted { devices: u32, token: Option<Seq<char>> },
    Failed,
}

/// What to do next, as mathematics.
#[allow(inconsistent_fields)]
pub enum ConnectStepView {
    CreateSession,
    SelectDevices { devices: u32, persistence: Persistence, token: Option<Seq<char>> },
    StartSession,
    ConnectToServer,
    SaveToken { token: Seq<char> },
    OpenContext,
    ShakeHands,
    Finish,
    GiveUp { error: Option<PortalError>, close_session: bool, authorizing: bool },
}

impl View for Outcome {
    type V = OutcomeView;

    open spec fn view(&self) -> OutcomeView {
        match self {
            Outcome::Done => OutcomeView::Done,
            Outcome::Granted { devices, token } => OutcomeView::Granted {
                devices: *devices,
                token: crate::token::optional_text(*token),
            },
            Outcome::Failed => OutcomeView::Failed,
        }
    }
}

impl View for ConnectStep {
    type V = ConnectStepView;

    open spec fn view(&self) -> ConnectStepView {
        match self {
            ConnectStep::CreateSession => ConnectStepView::CreateSession,
            ConnectStep::SelectDevices { devices, persistence, token } =>
                ConnectStepView::SelectDevices {
                devices: *devices,
                persistence: *persistence,
                token: crate::token::optional_text(*token),
            },
            ConnectStep::StartSession => ConnectStepView::StartSession,
            ConnectStep::ConnectToServer => ConnectStepView::ConnectToServer,
            ConnectStep::SaveToken { token } => ConnectStepView::SaveToken { token: token@ },
            ConnectStep::OpenContext => ConnectStepView::OpenContext,
            ConnectStep::ShakeHands => ConnectStepView::ShakeHands,
            ConnectStep::Finish => ConnectStepView::Finish,
            ConnectStep::GiveUp { error, close_session, authorizing } => ConnectStepView::GiveUp {
                error: *error,
                close_session: *close_session,
                authorizing: *authorizing,
            },
        }
    }
}

/// A connection that is coming about.
#[derive(Debug)]
pub struct Connect {
    stage: Stage,
    token: Option<String>,
}

/// A connection that is coming about, as mathematics. The token is the one that
/// restores an earlier permission, and once this one is granted its replacement.
pub struct ConnectView {
    pub stage: Stage,
    pub token: Option<Seq<char>>,
}

impl View for Connect {
    type V = ConnectView;

    closed spec fn view(&self) -> ConnectView {
        ConnectView { stage: self.stage, token: crate::token::optional_text(self.token) }
    }
}

/// Whether the portal granted a keyboard.
pub open spec fn grants_keyboard(outcome: OutcomeView) -> bool {
    outcome matches OutcomeView::Granted { devices, .. } && devices & DEVICE_KEYBOARD != 0
}

/// Whether the portal's session is open, so that it is to be closed.
pub open spec fn has_session(stage: Stage) -> bool {
    stage != Stage::CreatingSession && stage != Stage::Failed
}

/// Whether the user's permission is under way.
pub open spec fn is_authorizing(stage: Stage) -> bool {
    stage == Stage::SelectingDevices || stage == Stage::StartingSession || stage
        == Stage::ConnectingToServer
}

/// Whether the last step ends the attempt: it failed and was needed, or the user
/// granted no keyboard.
pub open spec fn ends_attempt(stage: Stage, outcome: OutcomeView) -> bool {
    match stage {
        Stage::StartingSession => !grants_keyboard(outcome),
        Stage::SavingToken | Stage::Connected => false,
        Stage::Failed => true,
        _ => outcome is Failed,
    }
}

impl ConnectView {
    /// The attempt at its beginning.
    pub open spec fn initial(token: Option<Seq<char>>) -> ConnectView {
        ConnectView { stage: Stage::CreatingSession, token }
    }

    /// The attempt after a step.
    pub open spec fn after(self, outcome: OutcomeView) -> ConnectView {
        if ends_attempt(self.stage, outcome) {
            ConnectView { stage: Stage::Failed, token: None }
        } else {
            match self.stage {
                Stage::CreatingSession => ConnectView {
                    stage: Stage::SelectingDevices,
                    token: None,
                },
                Stage::SelectingDevices => ConnectView { stage: Stage::StartingSession, ..self },
                Stage::StartingSession => ConnectView {
                    stage: Stage::ConnectingToServer,
                    token: outcome->token,
                },
                Stage::ConnectingToServer => ConnectView {
                    stage: if self.token is Some {
                        Stage::SavingToken
                    } else {
                        Stage::OpeningContext
                    },
                    token: None,
                },
                Stage::SavingToken => ConnectView { stage: Stage::OpeningContext, ..self },
                Stage::OpeningContext => ConnectView { stage: Stage::ShakingHands, ..self },
                _ => ConnectView { stage: Stage::Connected, ..self },
            }
        }
    }

    /// What to do after a step.
    pub open spec fn step_for(self, outcome: OutcomeView) -> ConnectStepView {
        if ends_attempt(self.stage, outcome) {
            ConnectStepView::GiveUp {
                error: if self.stage == Stage::StartingSession && !(outcome is Failed) {
                    Some(PortalError::KeyboardNotGranted)
                } else {
                    None
                },
                close_session: has_session(self.stage),
                authorizing: is_authorizing(self.stage),
            }
        } else {
            match self.stage {
                Stage::CreatingSession => ConnectStepView::SelectDevices {
                    devices: DEVICE_KEYBOARD,
                    persistence: Persistence::ExplicitlyRevoked,
                    token: self.token,
                },
                Stage::SelectingDevices => ConnectStepView::StartSession,
                Stage::StartingSession => ConnectStepView::ConnectToServer,
                Stage::ConnectingToServer => match self.token {
                    Some(token) => ConnectStepView::SaveToken { token },
                    None => ConnectStepView::OpenContext,
                },
                Stage::SavingToken => ConnectStepView::OpenContext,
                Stage::OpeningContext => ConnectStepView::ShakeHands,
                _ => ConnectStepView::Finish,
            }
        }
    }

    /// The attempt after steps with these outcomes.
    pub open spec fn run(self, outcomes: Seq<OutcomeView>) -> ConnectView
        decreases outcomes.len(),
    {
        if outcomes.len() == 0 {
            self
        } else {
            self.run(outcomes.drop_last()).after(outcomes.last())
        }
    }
}

impl Connect {
    /// Begins with the token of an earlier permission, if one was kept.
    pub fn new(token: Option<String>) -> (connect: Connect)
        ensures
            connect@ == ConnectView::initial(crate::token::optional_text(token)),
    {
        Connect { stage: Stage::CreatingSession, token }
    }

    /// The first step.
    pub fn begin(&self) -> (step: ConnectStep)
        ensures
            step@ == ConnectStepView::CreateSession,
    {
        ConnectStep::CreateSession
    }

    /// Gives up.
    fn give_up(&mut self, error: Option<PortalError>) -> (step: ConnectStep)
        ensures
            final(self)@ == (ConnectView { stage: Stage::Failed, token: None }),
            step@ == (ConnectStepView::GiveUp {
                error,
                close_session: has_session(old(self)@.stage),
                authorizing: is_authorizing(old(self)@.stage),
            }),
    {
        let close_session = match self.stage {
            Stage::CreatingSession | Stage::Failed => false,
            _ => true,
        };
        let authorizing = match self.stage {
            Stage::SelectingDevices | Stage::StartingSession | Stage::ConnectingToServer => true,
            _ => false,
        };
        self.stage = Stage::Failed;
        self.token = None;
        ConnectStep::GiveUp { error, close_session, authorizing }
    }

    /// Takes in how the last step went, and says what to do next.
    pub fn next(&mut self, outcome: Outcome) -> (step: ConnectStep)
        ensures
            final(self)@ == old(self)@.after(outcome@),
            step@ == old(self)@.step_for(outcome@),
    {
        let failed = match outcome {
            Outcome::Failed => true,
            _ => false,
        };
        match self.stage {
            Stage::CreatingSession if !failed => {
                self.stage = Stage::SelectingDevices;
                ConnectStep::SelectDevices {
                    devices: DEVICE_KEYBOARD,
                    persistence: Persistence::ExplicitlyRevoked,
                    token: self.token.take(),
                }
            },
            Stage::SelectingDevices if !failed => {
                self.stage = Stage::StartingSession;
                ConnectStep::StartSession
            },
            Stage::StartingSession if !failed => {
                if let Outcome::Granted { devices, token } = outcome {
                    if devices & DEVICE_KEYBOARD != 0 {
                        self.stage = Stage::ConnectingToServer;
                        self.token = token;
                        return ConnectStep::ConnectToServer;
                    }
                }
                self.give_up(Some(PortalError::KeyboardNotGranted))
            },
            Stage::ConnectingToServer if !failed => match self.token.take() {
                Some(token) => {
                    self.stage = Stage::SavingToken;
                    ConnectStep::SaveToken { token }
                },
                None => {
                    self.stage = Stage::OpeningContext;
                    ConnectStep::OpenContext
                },
            },
            Stage::SavingToken => {
                self.stage = Stage::OpeningContext;
                ConnectStep::OpenContext
            },
            Stage::OpeningContext if !failed => {
                self.stage = Stage::ShakingHands;
                ConnectStep::ShakeHands
            },
            Stage::ShakingHands if !failed => {
                self.stage = Stage::Connected;
                ConnectStep::Finish
            },
            Stage::Connected => ConnectStep::Finish,
            _ => self.give_up(None),
        }
    }
}

/// An attempt asks, and is granted or not, in its first three steps.
proof fn lemma_first_steps(token: Option<Seq<char>>, outcomes: Seq<OutcomeView>)
    ensures
        ({
            let stage = ConnectView::initial(token).run(outcomes).stage;
            &&& stage == Stage::CreatingSession <==> outcomes.len() == 0
            &&& stage == Stage::SelectingDevices ==> outcomes.len() == 1
            &&& stage == Stage::StartingSession ==> outcomes.len() == 2
            &&& outcomes.len() == 1 ==> stage == Stage::SelectingDevices || stage == Stage::Failed
            &&& outcomes.len() == 2 ==> stage == Stage::StartingSession || stage == Stage::Failed
            &&& outcomes.len() >= 3 && stage != Stage::Failed ==> grants_keyboard(outcomes[2])
        }),
    decreases outcomes.len(),
{
    if outcomes.len() > 0 {
        lemma_first_steps(token, outcomes.drop_last());
    }
}

/// An attempt that was given up stays so.
proof fn lemma_failure_is_final(token: Option<Seq<char>>, outcomes: Seq<OutcomeView>, at: int)
    requires
        0 <= at,
    ensures
        at <= outcomes.len() && ConnectView::initial(token).run(outcomes.take(at)).stage
            == Stage::Failed ==> ConnectView::initial(token).run(outcomes).stage == Stage::Failed,
        at == 1 && outcomes.len() > 0 && outcomes[0] is Failed ==> ConnectView::initial(token).run(
            outcomes,
        ).stage == Stage::Failed,
    decreases outcomes.len(),
{
    reveal_with_fuel(ConnectView::run, 2);
    if at == outcomes.len() {
        assert(outcomes.take(at) =~= outcomes);
    } else if at < outcomes.len() {
        lemma_failure_is_final(token, outcomes.drop_last(), at);
        assert(outcomes.drop_last().take(at) =~= outcomes.take(at));
    }
}

/// An attempt that is given up closes the portal's session where it has created one,
/// and no attempt closes it twice.
pub proof fn law_session_is_closed(
    token: Option<Seq<char>>,
    outcomes: Seq<OutcomeView>,
    outcome: OutcomeView,
)
    ensures
        ({
            let attempt = ConnectView::initial(token).run(outcomes);
            attempt.step_for(outcome) matches ConnectStepView::GiveUp { close_session, .. } ==> (
            close_session <==> attempt.stage != Stage::Failed && outcomes.len() > 0 && !(
            outcomes[0] is Failed))
        }),
{
    lemma_first_steps(token, outcomes);
    lemma_failure_is_final(token, outcomes, 1);
}

/// An attempt that is past the user's permission has been granted a keyboard.
pub proof fn law_no_input_without_grant(token: Option<Seq<char>>, outcomes: Seq<OutcomeView>)
    requires
        ({
            let stage = ConnectView::initial(token).run(outcomes).stage;
            stage == Stage::ConnectingToServer || stage == Stage::SavingToken || stage
                == Stage::OpeningContext || stage == Stage::ShakingHands || stage
                == Stage::Connected
        }),
    ensures
        outcomes.len() >= 3,
        grants_keyboard(outcomes[2]),
{
    lemma_first_steps(token, outcomes);
}

/// The token of an earlier permission goes to the portal, and the token that the
/// portal gives in return is the one that is kept, before the protocol is set up.
pub proof fn law_tokens(
    token: Option<Seq<char>>,
    created: OutcomeView,
    selected: OutcomeView,
    granted: OutcomeView,
    connected: OutcomeView,
)
    requires
        !(created is Failed),
        !(selected is Failed),
        grants_keyboard(granted),
        !(connected is Failed),
    ensures
        ConnectView::initial(token).step_for(created) == (ConnectStepView::SelectDevices {
            devices: DEVICE_KEYBOARD,
            persistence: Persistence::ExplicitlyRevoked,
            token,
        }),
        ConnectView::initial(token).run(seq![created, selected, granted]).step_for(connected)
            == match granted->token {
            Some(replacement) => ConnectStepView::SaveToken { token: replacement },
            None => ConnectStepView::OpenContext,
        },
{
    reveal_with_fuel(ConnectView::run, 4);
    assert(seq![created, selected, granted].drop_last() =~= seq![created, selected]);
    assert(seq![created, selected].drop_last() =~= seq![created]);
    assert(seq![created].drop_last() =~= Seq::<OutcomeView>::empty());
}

/// Whatever has happened, the portal is asked for a keyboard and no other device, until
/// the user revokes it.
pub proof fn law_only_a_keyboard_is_asked_for(
    token: Option<Seq<char>>,
    outcomes: Seq<OutcomeView>,
    outcome: OutcomeView,
)
    ensures
        ConnectView::initial(token).run(outcomes).step_for(
            outcome,
        ) matches ConnectStepView::SelectDevices { devices, persistence, token: restored } ==> {
            &&& outcomes.len() == 0
            &&& devices == DEVICE_KEYBOARD
            &&& persistence == Persistence::ExplicitlyRevoked
            &&& restored == token
        },
{
    lemma_first_steps(token, outcomes);
}

/// A token that cannot be kept does not hold up the connection.
pub proof fn law_unsaved_token_is_no_failure(connect: ConnectView)
    requires
        connect.stage == Stage::SavingToken,
    ensures
        connect.after(OutcomeView::Failed) == connect.after(OutcomeView::Done),
        connect.step_for(OutcomeView::Failed) == ConnectStepView::OpenContext,
{
}

/// What is to be done after steps with these outcomes.
pub open spec fn asked(token: Option<Seq<char>>, outcomes: Seq<OutcomeView>) -> ConnectStepView
    recommends
        outcomes.len() > 0,
{
    ConnectView::initial(token).run(outcomes.drop_last()).step_for(outcomes.last())
}

/// The token that the portal gave among outcomes, in the third.
pub open spec fn given_token(outcomes: Seq<OutcomeView>) -> Option<Seq<char>> {
    if outcomes.len() > 2 {
        match outcomes[2] {
            OutcomeView::Granted { token, .. } => token,
            _ => None,
        }
    } else {
        None
    }
}

/// Whether the step that comes in this place went wrong. The first asks for a session, the
/// second for devices, the third the user, the fourth for the socket. One more keeps the
/// token where there is one; then come the protocol and the handshake.
pub open spec fn goes_wrong(outcomes: Seq<OutcomeView>, at: int) -> bool {
    let saving: int = if given_token(outcomes) is Some {
        1
    } else {
        0
    };
    if at == 2 {
        !(outcomes[2] matches OutcomeView::Granted { devices, .. } && devices % 2 == 1)
    } else if at < 4 || at == 4 + saving || at == 5 + saving {
        outcomes[at] is Failed
    } else {
        false
    }
}

/// The keyboard's flag is the lowest bit.
proof fn lemma_keyboard_bit(devices: u32)
    ensures
        devices & DEVICE_KEYBOARD != 0 <==> devices % 2 == 1,
{
    assert(devices & 1 != 0 <==> devices % 2 == 1) by (bit_vector);
}

/// Where an attempt stands as long as nothing goes wrong.
proof fn lemma_on_course(token: Option<Seq<char>>, outcomes: Seq<OutcomeView>)
    requires
        forall|i: int| 0 <= i < outcomes.len() ==> !#[trigger] goes_wrong(outcomes, i),
    ensures
        ({
            let attempt = ConnectView::initial(token).run(outcomes);
            let saving: int = if given_token(outcomes) is Some {
                1
            } else {
                0
            };
            let done = outcomes.len();
            &&& done == 0 ==> attempt == ConnectView::initial(token)
            &&& done == 1 ==> attempt.stage == Stage::SelectingDevices
            &&& done == 2 ==> attempt.stage == Stage::StartingSession
            &&& done == 3 ==> attempt.stage == Stage::ConnectingToServer && attempt.token
                == given_token(outcomes)
            &&& done == 4 && saving == 1 ==> attempt.stage == Stage::SavingToken
            &&& done == 4 + saving ==> attempt.stage == Stage::OpeningContext
            &&& done == 5 + saving ==> attempt.stage == Stage::ShakingHands
            &&& done >= 6 + saving ==> attempt.stage == Stage::Connected
        }),
    decreases outcomes.len(),
{
    if outcomes.len() > 0 {
        let rest = outcomes.drop_last();
        let at = rest.len() as int;
        assert(!goes_wrong(outcomes, at));
        assert forall|i: int| 0 <= i < rest.len() implies !#[trigger] goes_wrong(rest, i) by {
            assert(!goes_wrong(outcomes, i));
            assert(rest[i] == outcomes[i]);
        }
        lemma_on_course(token, rest);
        if let OutcomeView::Granted { devices, .. } = outcomes.last() {
            lemma_keyboard_bit(devices);
        }
    }
}

/// An attempt in which nothing goes wrong asks for a session, for devices, the user and the
/// socket, keeps the token where the portal gave one, opens the protocol, shakes hands and
/// finishes, in this order and each once.
pub proof fn law_attempt_finishes(token: Option<Seq<char>>, outcomes: Seq<OutcomeView>)
    requires
        outcomes.len() > 0,
        forall|i: int| 0 <= i < outcomes.len() ==> !#[trigger] goes_wrong(outcomes, i),
    ensures
        ({
            let step = asked(token, outcomes);
            let stage = ConnectView::initial(token).run(outcomes).stage;
            let done = outcomes.len() as int;
            let saving: int = if given_token(outcomes) is Some {
                1
            } else {
                0
            };
            &&& step is SelectDevices <==> done == 1
            &&& step matches ConnectStepView::SelectDevices {
                devices,
                persistence,
                token: restored,
            } ==> devices == 1 && persistence is ExplicitlyRevoked && restored == token
            &&& step is StartSession <==> done == 2
            &&& step is ConnectToServer <==> done == 3
            &&& step is SaveToken <==> done == 4 && saving == 1
            &&& step matches ConnectStepView::SaveToken { token: kept } ==> given_token(outcomes)
                == Some(kept)
            &&& step is OpenContext <==> done == 4 + saving
            &&& step is ShakeHands <==> done == 5 + saving
            &&& step is Finish <==> done >= 6 + saving
            &&& stage is Connected <==> done >= 6 + saving
        }),
{
    let rest = outcomes.drop_last();
    let at = rest.len() as int;
    assert(!goes_wrong(outcomes, at));
    assert forall|i: int| 0 <= i < rest.len() implies !#[trigger] goes_wrong(rest, i) by {
        assert(!goes_wrong(outcomes, i));
        assert(rest[i] == outcomes[i]);
    }
    lemma_on_course(token, rest);
    lemma_on_course(token, outcomes);
    if let OutcomeView::Granted { devices, .. } = outcomes.last() {
        lemma_keyboard_bit(devices);
    }
}

/// An attempt is given up at the first step that goes wrong. It then closes the portal's
/// session unless it was just asking for one, and says that the permission was under way
/// from asking for devices to asking for the socket. It names the missing grant as the
/// reason where the user was asked and granted no keyboard.
pub proof fn law_attempt_is_given_up(
    token: Option<Seq<char>>,
    outcomes: Seq<OutcomeView>,
    at: int,
)
    requires
        outcomes.len() == at + 1,
        0 <= at,
        goes_wrong(outcomes, at),
        forall|i: int| 0 <= i < at ==> !#[trigger] goes_wrong(outcomes, i),
    ensures
        asked(token, outcomes) == (ConnectStepView::GiveUp {
            error: if at == 2 && !(outcomes[2] is Failed) {
                Some(PortalError::KeyboardNotGranted)
            } else {
                None
            },
            close_session: at >= 1,
            authorizing: 1 <= at <= 3,
        }),
        ConnectView::initial(token).run(outcomes).stage is Failed,
{
    let rest = outcomes.drop_last();
    assert forall|i: int| 0 <= i < rest.len() implies !#[trigger] goes_wrong(rest, i) by {
        assert(!goes_wrong(outcomes, i));
        assert(rest[i] == outcomes[i]);
    }
    lemma_on_course(token, rest);
    if let OutcomeView::Granted { devices, .. } = outcomes.last() {
        lemma_keyboard_bit(devices);
    }
}

/// An attempt that was given up stays so: it asks for nothing more, and closes nothing more.
pub proof fn law_given_up_stays_so(
    token: Option<Seq<char>>,
    outcomes: Seq<OutcomeView>,
    at: int,
)
    requires
        0 <= at < outcomes.len() - 1,
        goes_wrong(outcomes.take(at + 1), at),
        forall|i: int| 0 <= i < at ==> !#[trigger] goes_wrong(outcomes.take(at + 1), i),
    ensures
        asked(token, outcomes) == (ConnectStepView::GiveUp {
            error: None,
            close_session: false,
            authorizing: false,
        }),
        ConnectView::initial(token).run(outcomes).stage is Failed,
    decreases outcomes.len(),
{
    let rest = outcomes.drop_last();
    assert(rest.take(at + 1) =~= outcomes.take(at + 1));
    if rest.len() == at + 1 {
        assert(rest.take(at + 1) =~= rest);
        law_attempt_is_given_up(token, rest, at);
    } else {
        law_given_up_stays_so(token, rest, at);
    }
}

/// What a step says is what there is to say: outcomes and steps that look the same carry
/// the same devices, tokens and reasons.
pub proof fn law_nothing_is_lost(outcome: Outcome, step: ConnectStep)
    ensures
        match outcome {
            Outcome::Done => outcome@ is Done,
            Outcome::Failed => outcome@ is Failed,
            Outcome::Granted { devices, token } => outcome@ matches OutcomeView::Granted {
                devices: d,
                token: t,
            } && d == devices && match token {
                Some(text) => t == Some(text@),
                None => t is None,
            },
        },
        match step {
            ConnectStep::CreateSession => step@ is CreateSession,
            ConnectStep::SelectDevices {
                devices,
                persistence,
                token,
            } => step@ matches ConnectStepView::SelectDevices {
                devices: d,
                persistence: p,
                token: t,
            } && d == devices && p == persistence && match token {
                Some(text) => t == Some(text@),
                None => t is None,
            },
            ConnectStep::StartSession => step@ is StartSession,
            ConnectStep::ConnectToServer => step@ is ConnectToServer,
            ConnectStep::SaveToken { token } => step@ matches ConnectStepView::SaveToken {
                token: t,
            } && t == token@,
            ConnectStep::OpenContext => step@ is OpenContext,
            ConnectStep::ShakeHands => step@ is ShakeHands,
            ConnectStep::Finish => step@ is Finish,
            ConnectStep::GiveUp {
                error,
                close_session,
                authorizing,
            } => step@ matches ConnectStepView::GiveUp {
                error: e,
                close_session: c,
                authorizing: a,
            } && e == error && c == close_session && a == authorizing,
        },
{
}

} // verus!
