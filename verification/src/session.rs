//! The read sequence as a state machine.
//!
//! The identification data is read in a fixed order: the tachograph
//! application is selected, then the identification file under it, then the
//! card identification is read, then the card holder identification. The
//! order matters, because the card resolves each selection and each read
//! against what was selected before.
//!
//! The session does not talk to the card. In each state it names the command
//! to transmit; the caller transmits it and hands back what came of it, and
//! the session moves on or fails. A failure ends the sequence: the session is
//! given up with it.

use vstd::prelude::*;
use vstd::pervasive::unreached;
use crate::apdu::{
    build_read_binary, build_select_df, build_select_ef_under_df, read_binary_command,
    select_df_command, select_ef_under_df_command, TACHOGRAPH_DF, TACHOGRAPH_IDENTIFICATION_EF,
};
use crate::codec::{text_chars, trimmed};
use crate::error::{Error, TransportError};
use crate::records::{
    card_holder_identification_outcome, card_identification_outcome,
    decode_card_holder_identification, decode_card_identification, CardHolderIdentificationModel,
    CardHolderIdentificationRecord, CardIdentificationModel, CardIdentificationRecord,
    CARD_IDENTIFICATION_LENGTH, DRIVER_CARD_HOLDER_IDENTIFICATION_LENGTH,
    DRIVER_CARD_HOLDER_IDENTIFICATION_OFFSET,
};

verus! {

/// How far the read sequence has come.
#[derive(Clone, Copy, Debug, PartialEq, Eq, Structural)]
pub enum SessionState {
    /// Nothing was sent yet.
    Start,
    /// The tachograph application is selected.
    DfSelected,
    /// The identification file is selected.
    EfSelected,
    /// The card identification was read and decoded.
    IdentificationRead,
    /// The card holder identification was read and decoded.
    HolderIdentificationRead,
    /// The records were handed out.
    Done,
}

/// A failure of the read sequence, with the state in which it occurred.
#[derive(Clone, Copy, Debug, PartialEq, Eq, Structural)]
pub struct SessionError {
    /// The state from which the failing step set out.
    pub step: SessionState,
    /// What went wrong.
    pub error: Error,
}

/// The identification data that a complete read sequence yields.
#[derive(Clone, Debug, PartialEq, Eq)]
pub struct Identification {
    pub card: CardIdentificationRecord,
    pub holder: CardHolderIdentificationRecord,
}

/// The identification data, as a value of the model.
pub struct IdentificationModel {
    pub card: CardIdentificationModel,
    pub holder: CardHolderIdentificationModel,
}

impl View for Identification {
    type V = IdentificationModel;

    open spec fn view(&self) -> IdentificationModel {
        IdentificationModel { card: self.card@, holder: self.holder@ }
    }
}

/// A read sequence in one of its states, with the records decoded so far.
#[derive(Clone, Debug, PartialEq, Eq)]
pub enum Session {
    Start,
    DfSelected,
    EfSelected,
    IdentificationRead(CardIdentificationRecord),
    HolderIdentificationRead(CardIdentificationRecord, CardHolderIdentificationRecord),
    Done,
}

/// A read sequence, as a value of the model.
pub enum SessionModel {
    Start,
    DfSelected,
    EfSelected,
    IdentificationRead(CardIdentificationModel),
    HolderIdentificationRead(CardIdentificationModel, CardHolderIdentificationModel),
    Done,
}

impl View for Session {
    type V = SessionModel;

    open spec fn view(&self) -> SessionModel {
        match self {
            Session::Start => SessionModel::Start,
            Session::DfSelected => SessionModel::DfSelected,
            Session::EfSelected => SessionModel::EfSelected,
            Session::IdentificationRead(card) => SessionModel::IdentificationRead(card@),
            Session::HolderIdentificationRead(card, holder) => {
                SessionModel::HolderIdentificationRead(card@, holder@)
            },
            Session::Done => SessionModel::Done,
        }
    }
}

impl SessionModel {
    /// The state of the sequence.
    pub open spec fn state(self) -> SessionState {
        match self {
            SessionModel::Start => SessionState::Start,
            SessionModel::DfSelected => SessionState::DfSelected,
            SessionModel::EfSelected => SessionState::EfSelected,
            SessionModel::IdentificationRead(_) => SessionState::IdentificationRead,
            SessionModel::HolderIdentificationRead(_, _) => SessionState::HolderIdentificationRead,
            SessionModel::Done => SessionState::Done,
        }
    }
}

/// The state that follows `state` in the sequence; the last state follows
/// itself.
pub open spec fn next_state(state: SessionState) -> SessionState {
    match state {
        SessionState::Start => SessionState::DfSelected,
        SessionState::DfSelected => SessionState::EfSelected,
        SessionState::EfSelected => SessionState::IdentificationRead,
        SessionState::IdentificationRead => SessionState::HolderIdentificationRead,
        SessionState::HolderIdentificationRead => SessionState::Done,
        SessionState::Done => SessionState::Done,
    }
}

/// The command that is to be transmitted in `state`, if there is one.
pub open spec fn command_of(state: SessionState) -> Option<Seq<u8>> {
    match state {
        SessionState::Start => Some(select_df_command(TACHOGRAPH_DF@)),
        SessionState::DfSelected => Some(select_ef_under_df_command(TACHOGRAPH_IDENTIFICATION_EF@)),
        SessionState::EfSelected => Some(read_binary_command(0, CARD_IDENTIFICATION_LENGTH)),
        SessionState::IdentificationRead => Some(
            read_binary_command(
                DRIVER_CARD_HOLDER_IDENTIFICATION_OFFSET,
                DRIVER_CARD_HOLDER_IDENTIFICATION_LENGTH,
            ),
        ),
        SessionState::HolderIdentificationRead => None,
        SessionState::Done => None,
    }
}

/// Where the sequence goes from `session` on the outcome of the exchange.
///
/// A transport failure ends the sequence in every state. A response to a
/// selection is not looked at. A response to a read is decoded, and a record
/// that does not decode ends the sequence. Where no command was to be
/// transmitted, a response changes nothing.
pub open spec fn advance_outcome(
    session: SessionModel,
    outcome: Result<Seq<u8>, TransportError>,
) -> Result<SessionModel, SessionError> {
    match outcome {
        Err(failure) => Err(
            SessionError { step: session.state(), error: Error::Transport(failure) },
        ),
        Ok(response) => match session {
            SessionModel::Start => Ok(SessionModel::DfSelected),
            SessionModel::DfSelected => Ok(SessionModel::EfSelected),
            SessionModel::EfSelected => match card_identification_outcome(response) {
                Ok(card) => Ok(SessionModel::IdentificationRead(card)),
                Err(error) => Err(SessionError { step: SessionState::EfSelected, error }),
            },
            SessionModel::IdentificationRead(card) => match card_holder_identification_outcome(
                response,
            ) {
                Ok(holder) => Ok(SessionModel::HolderIdentificationRead(card, holder)),
                Err(error) => Err(SessionError { step: SessionState::IdentificationRead, error }),
            },
            SessionModel::HolderIdentificationRead(_, _) => Ok(session),
            SessionModel::Done => Ok(session),
        },
    }
}

/// What finishing gives: the records and the last state, once both records
/// were read; nothing, and no change, in every other state.
pub open spec fn finish_outcome(session: SessionModel) -> (SessionModel, Option<
    IdentificationModel,
>) {
    match session {
        SessionModel::HolderIdentificationRead(card, holder) => (
            SessionModel::Done,
            Some(IdentificationModel { card, holder }),
        ),
        _ => (session, None),
    }
}

/// The outcome of an exchange, as a value of the model.
pub open spec fn exchange_view(outcome: Result<Vec<u8>, TransportError>) -> Result<
    Seq<u8>,
    TransportError,
> {
    match outcome {
        Ok(response) => Ok(response@),
        Err(failure) => Err(failure),
    }
}

/// A step of the sequence, as a value of the model.
pub open spec fn step_view(result: Result<Session, SessionError>) -> Result<
    SessionModel,
    SessionError,
> {
    match result {
        Ok(session) => Ok(session@),
        Err(e) => Err(e),
    }
}

/// A command, if there is one, as a value of the model.
pub open spec fn command_view(command: Option<Vec<u8>>) -> Option<Seq<u8>> {
    match command {
        Some(bytes) => Some(bytes@),
        None => None,
    }
}

/// The records, if there are any, as a value of the model.
pub open spec fn identification_view(data: Option<Identification>) -> Option<
    IdentificationModel,
> {
    match data {
        Some(identification) => Some(identification@),
        None => None,
    }
}

impl Session {
    /// A sequence of which nothing was sent yet.
    pub fn new() -> (session: Session)
        ensures
            session@ == SessionModel::Start,
    {
        Session::Start
    }

    /// The state of the sequence.
    pub fn state(&self) -> (state: SessionState)
        ensures
            state == self@.state(),
    {
        match self {
            Session::Start => SessionState::Start,
            Session::DfSelected => SessionState::DfSelected,
            Session::EfSelected => SessionState::EfSelected,
            Session::IdentificationRead(_) => SessionState::IdentificationRead,
            Session::HolderIdentificationRead(_, _) => SessionState::HolderIdentificationRead,
            Session::Done => SessionState::Done,
        }
    }

    /// The command that is to be transmitted next: a command in each of the
    /// first four states, none once both records were read.
    pub fn command(&self) -> (command: Option<Vec<u8>>)
        ensures
            command_view(command) == command_of(self@.state()),
    {
        match self {
            Session::Start => match build_select_df(TACHOGRAPH_DF.as_slice()) {
                Ok(command) => Some(command),
                Err(_) => unreached(),
            },
            Session::DfSelected => match build_select_ef_under_df(
                TACHOGRAPH_IDENTIFICATION_EF.as_slice(),
            ) {
                Ok(command) => Some(command),
                Err(_) => unreached(),
            },
            Session::EfSelected => Some(build_read_binary(0, CARD_IDENTIFICATION_LENGTH)),
            Session::IdentificationRead(_) => Some(
                build_read_binary(
                    DRIVER_CARD_HOLDER_IDENTIFICATION_OFFSET,
                    DRIVER_CARD_HOLDER_IDENTIFICATION_LENGTH,
                ),
            ),
            Session::HolderIdentificationRead(_, _) => None,
            Session::Done => None,
        }
    }

    /// Takes the sequence one step on, on the outcome of the exchange of the
    /// command of this state.
    ///
    /// A transport failure ends the sequence, as does a read whose response
    /// does not decode; the error names the state in which that happened.
    pub fn advance(self, outcome: Result<Vec<u8>, TransportError>) -> (result: Result<
        Session,
        SessionError,
    >)
        ensures
            step_view(result) == advance_outcome(self@, exchange_view(outcome)),
    {
        let response = match outcome {
            Ok(response) => response,
            Err(failure) => {
                return Err(SessionError { step: self.state(), error: Error::Transport(failure) });
            },
        };
        match self {
            Session::Start => Ok(Session::DfSelected),
            Session::DfSelected => Ok(Session::EfSelected),
            Session::EfSelected => match decode_card_identification(response.as_slice()) {
                Ok(card) => Ok(Session::IdentificationRead(card)),
                Err(error) => Err(SessionError { step: SessionState::EfSelected, error }),
            },
            Session::IdentificationRead(card) => match decode_card_holder_identification(
                response.as_slice(),
            ) {
                Ok(holder) => Ok(Session::HolderIdentificationRead(card, holder)),
                Err(error) => Err(SessionError { step: SessionState::IdentificationRead, error }),
            },
            Session::HolderIdentificationRead(card, holder) => Ok(
                Session::HolderIdentificationRead(card, holder),
            ),
            Session::Done => Ok(Session::Done),
        }
    }

    /// Ends the sequence: once both records were read, hands them out and
    /// leaves the sequence done. In every other state nothing is handed out
    /// and the sequence stays as it is.
    pub fn finish(self) -> (result: (Session, Option<Identification>))
        ensures
            (result.0@, identification_view(result.1)) == finish_outcome(self@),
    {
        match self {
            Session::HolderIdentificationRead(card, holder) => (
                Session::Done,
                Some(Identification { card, holder }),
            ),
            other => (other, None),
        }
    }
}

/// The sequence moves through its states in their order, one state for each
/// command that was exchanged, and never in another way: a step that succeeds
/// where a command was to be transmitted leads to the next state, and a step
/// where none was leaves the state as it is.
pub proof fn lemma_steps_follow_the_order(
    session: SessionModel,
    outcome: Result<Seq<u8>, TransportError>,
)
    ensures
        match advance_outcome(session, outcome) {
            Ok(next) => next.state() == if command_of(session.state()) is Some {
                next_state(session.state())
            } else {
                session.state()
            },
            Err(e) => e.step == session.state(),
        },
{
}

/// The four commands of the sequence, byte for byte.
pub proof fn lemma_commands_of_the_sequence()
    ensures
        command_of(SessionState::Start) == Some(
            seq![0x00u8, 0xA4, 0x04, 0x0C, 0x06, 0xFF, 0x54, 0x41, 0x43, 0x48, 0x4F],
        ),
        command_of(SessionState::DfSelected) == Some(
            seq![0x00u8, 0xA4, 0x02, 0x0C, 0x02, 0x05, 0x20],
        ),
        command_of(SessionState::EfSelected) == Some(seq![0x00u8, 0xB0, 0x00, 0x41]),
        command_of(SessionState::IdentificationRead) == Some(seq![0x00u8, 0xB0, 0x41, 0x4E]),
{
    assert(select_df_command(TACHOGRAPH_DF@) =~= seq![
        0x00u8,
        0xA4,
        0x04,
        0x0C,
        0x06,
        0xFF,
        0x54,
        0x41,
        0x43,
        0x48,
        0x4F,
    ]);
    assert(select_ef_under_df_command(TACHOGRAPH_IDENTIFICATION_EF@) =~= seq![
        0x00u8,
        0xA4,
        0x02,
        0x0C,
        0x02,
        0x05,
        0x20,
    ]);
}

/// What the whole sequence gives on the responses to its four commands, when
/// no exchange fails.
pub open spec fn run_outcome(
    select_df: Seq<u8>,
    select_ef: Seq<u8>,
    identification: Seq<u8>,
    holder: Seq<u8>,
) -> Result<SessionModel, SessionError> {
    match advance_outcome(SessionModel::Start, Ok(select_df)) {
        Err(e) => Err(e),
        Ok(first) => match advance_outcome(first, Ok(select_ef)) {
            Err(e) => Err(e),
            Ok(second) => match advance_outcome(second, Ok(identification)) {
                Err(e) => Err(e),
                Ok(third) => advance_outcome(third, Ok(holder)),
            },
        },
    }
}

/// A sequence whose two reads decode yields the two records, whatever the
/// card answered to the selections; the driver card number is the text of
/// bytes 1 to 16 of the first read, without its padding. A read that does
/// not decode fails the sequence in the state from which it was sent.
pub proof fn lemma_run_yields_the_records(
    select_df: Seq<u8>,
    select_ef: Seq<u8>,
    identification: Seq<u8>,
    holder: Seq<u8>,
)
    ensures
        match run_outcome(select_df, select_ef, identification, holder) {
            Ok(session) => {
                &&& card_identification_outcome(identification) is Ok
                &&& card_holder_identification_outcome(holder) is Ok
                &&& session == SessionModel::HolderIdentificationRead(
                    card_identification_outcome(identification)->Ok_0,
                    card_holder_identification_outcome(holder)->Ok_0,
                )
                &&& finish_outcome(session).1 == Some(
                    IdentificationModel {
                        card: card_identification_outcome(identification)->Ok_0,
                        holder: card_holder_identification_outcome(holder)->Ok_0,
                    },
                )
                &&& finish_outcome(session).1->Some_0.card.driver_card_number == text_chars(
                    trimmed(identification.subrange(1, 17)),
                )
            },
            Err(e) => {
                ||| card_identification_outcome(identification) == Err::<
                    CardIdentificationModel,
                    Error,
                >(e.error) && e.step == SessionState::EfSelected
                ||| card_identification_outcome(identification) is Ok
                    && card_holder_identification_outcome(holder) == Err::<
                    CardHolderIdentificationModel,
                    Error,
                >(e.error) && e.step == SessionState::IdentificationRead
            },
        },
{
}

} // verus!
