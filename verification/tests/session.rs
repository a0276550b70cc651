use tacho_card::error::{Error, TransportError};
use tacho_card::records::{BirthDate, CardHolderIdentificationRecord, CardIdentificationRecord};
use tacho_card::session::{Identification, Session, SessionError, SessionState};

const SELECT_DF: [u8; 11] = [0x00, 0xA4, 0x04, 0x0C, 0x06, 0xFF, 0x54, 0x41, 0x43, 0x48, 0x4F];
const SELECT_EF: [u8; 7] = [0x00, 0xA4, 0x02, 0x0C, 0x02, 0x05, 0x20];
const READ_IDENTIFICATION: [u8; 4] = [0x00, 0xB0, 0x00, 0x41];
const READ_HOLDER: [u8; 4] = [0x00, 0xB0, 0x41, 0x4E];

fn crafted_identification() -> Vec<u8> {
    let mut response = vec![0x00u8];
    response.extend_from_slice(b"1234567890123456");
    response.resize(65, 0x00);
    response
}

fn crafted_holder() -> Vec<u8> {
    let mut response = b"DOE".to_vec();
    response.resize(36, b' ');
    response.extend_from_slice(b"JOHN");
    response.resize(72, b' ');
    response.extend_from_slice(&[0x19, 0x85, 0x03, 0x15]);
    response.extend_from_slice(b"en");
    response
}

/// A card that answers each command of the sequence, and fails the exchange
/// of any other.
fn stub_card(command: &[u8]) -> Result<Vec<u8>, TransportError> {
    if command == SELECT_DF || command == SELECT_EF {
        Ok(vec![0x90, 0x00])
    } else if command == READ_IDENTIFICATION {
        Ok(crafted_identification())
    } else if command == READ_HOLDER {
        Ok(crafted_holder())
    } else {
        Err(TransportError::IoFailure)
    }
}

fn run(
    transmit: &mut dyn FnMut(&[u8]) -> Result<Vec<u8>, TransportError>,
) -> Result<Session, SessionError> {
    let mut session = Session::new();
    while let Some(command) = session.command() {
        session = session.advance(transmit(&command))?;
    }
    Ok(session)
}

fn in_state(state: SessionState) -> Session {
    let mut session = Session::new();
    while session.state() != state {
        let command = session.command().unwrap();
        session = session.advance(stub_card(&command)).unwrap();
    }
    session
}

#[test]
fn session_yields_the_driver_card_number() {
    let session = run(&mut |command| stub_card(command)).unwrap();
    let (session, identification) = session.finish();
    assert_eq!(session.state(), SessionState::Done);
    assert_eq!(identification.unwrap().card.driver_card_number, "1234567890123456");
}

#[test]
fn session_yields_both_records() {
    let session = run(&mut |command| stub_card(command)).unwrap();
    assert_eq!(session.state(), SessionState::HolderIdentificationRead);
    let (session, identification) = session.finish();
    assert_eq!(session, Session::Done);
    assert_eq!(
        identification,
        Some(Identification {
            card: CardIdentificationRecord {
                driver_card_number: String::from("1234567890123456"),
            },
            holder: CardHolderIdentificationRecord {
                surname: String::from("DOE"),
                first_names: String::from("JOHN"),
                birth_date: BirthDate {
                    year: String::from("1985"),
                    month: String::from("03"),
                    day: String::from("15"),
                },
                preferred_language: String::from("en"),
            },
        })
    );
}

#[test]
fn session_sends_the_four_commands_in_order() {
    let mut sent: Vec<Vec<u8>> = Vec::new();
    let session = run(&mut |command| {
        sent.push(command.to_vec());
        stub_card(command)
    })
    .unwrap();
    assert_eq!(session.state(), SessionState::HolderIdentificationRead);
    assert_eq!(
        sent,
        vec![
            SELECT_DF.to_vec(),
            SELECT_EF.to_vec(),
            READ_IDENTIFICATION.to_vec(),
            READ_HOLDER.to_vec(),
        ]
    );
}

#[test]
fn session_passes_through_the_states_in_order() {
    let mut session = Session::new();
    let mut states = vec![session.state()];
    while let Some(command) = session.command() {
        session = session.advance(stub_card(&command)).unwrap();
        states.push(session.state());
    }
    let (session, _) = session.finish();
    states.push(session.state());
    assert_eq!(
        states,
        vec![
            SessionState::Start,
            SessionState::DfSelected,
            SessionState::EfSelected,
            SessionState::IdentificationRead,
            SessionState::HolderIdentificationRead,
            SessionState::Done,
        ]
    );
}

#[test]
fn session_names_its_command_in_each_state() {
    assert_eq!(in_state(SessionState::Start).command(), Some(SELECT_DF.to_vec()));
    assert_eq!(in_state(SessionState::DfSelected).command(), Some(SELECT_EF.to_vec()));
    assert_eq!(in_state(SessionState::EfSelected).command(), Some(READ_IDENTIFICATION.to_vec()));
    assert_eq!(in_state(SessionState::IdentificationRead).command(), Some(READ_HOLDER.to_vec()));
    assert_eq!(in_state(SessionState::HolderIdentificationRead).command(), None);
    assert_eq!(Session::Done.command(), None);
}

#[test]
fn session_does_not_look_at_the_responses_to_the_selections() {
    let session = Session::new().advance(Ok(vec![])).unwrap();
    assert_eq!(session, Session::DfSelected);
    let session = session.advance(Ok(vec![0x6A, 0x82])).unwrap();
    assert_eq!(session, Session::EfSelected);
}

#[test]
fn session_keeps_the_card_identification_while_it_reads_on() {
    let session = in_state(SessionState::IdentificationRead);
    assert_eq!(
        session,
        Session::IdentificationRead(CardIdentificationRecord {
            driver_card_number: String::from("1234567890123456"),
        })
    );
}

#[test]
fn session_fails_on_a_transport_failure_in_each_state() {
    let failures = [
        (SessionState::Start, TransportError::NoCard),
        (SessionState::DfSelected, TransportError::ReaderUnavailable),
        (SessionState::EfSelected, TransportError::IoFailure),
        (SessionState::IdentificationRead, TransportError::NoCard),
        (SessionState::HolderIdentificationRead, TransportError::IoFailure),
    ];
    for (state, failure) in failures {
        assert_eq!(
            in_state(state).advance(Err(failure)),
            Err(SessionError { step: state, error: Error::Transport(failure) })
        );
    }
    assert_eq!(
        Session::Done.advance(Err(TransportError::ReaderUnavailable)),
        Err(SessionError {
            step: SessionState::Done,
            error: Error::Transport(TransportError::ReaderUnavailable),
        })
    );
}

#[test]
fn session_stops_at_the_first_failure() {
    let mut sent = 0;
    let result = run(&mut |command| {
        sent += 1;
        if command == SELECT_EF {
            Err(TransportError::NoCard)
        } else {
            stub_card(command)
        }
    });
    assert_eq!(
        result,
        Err(SessionError {
            step: SessionState::DfSelected,
            error: Error::Transport(TransportError::NoCard),
        })
    );
    assert_eq!(sent, 2);
}

#[test]
fn session_fails_on_a_truncated_card_identification() {
    let session = in_state(SessionState::EfSelected);
    assert_eq!(
        session.advance(Ok(crafted_identification()[..16].to_vec())),
        Err(SessionError { step: SessionState::EfSelected, error: Error::TruncatedData })
    );
}

#[test]
fn session_fails_on_a_card_number_that_is_not_text() {
    let mut response = crafted_identification();
    response[1] = 0xFF;
    assert_eq!(
        in_state(SessionState::EfSelected).advance(Ok(response)),
        Err(SessionError { step: SessionState::EfSelected, error: Error::InvalidEncoding })
    );
}

#[test]
fn session_fails_on_a_truncated_card_holder_identification() {
    assert_eq!(
        in_state(SessionState::IdentificationRead).advance(Ok(vec![0x90, 0x00])),
        Err(SessionError { step: SessionState::IdentificationRead, error: Error::TruncatedData })
    );
}

#[test]
fn session_fails_on_a_birth_date_that_is_not_decimal() {
    let mut response = crafted_holder();
    response[74] = 0x1A;
    assert_eq!(
        in_state(SessionState::IdentificationRead).advance(Ok(response)),
        Err(SessionError { step: SessionState::IdentificationRead, error: Error::InvalidBcdDigit })
    );
}

#[test]
fn session_fails_on_a_name_that_is_not_text() {
    let mut response = crafted_holder();
    response[0] = 0xD6;
    assert_eq!(
        in_state(SessionState::IdentificationRead).advance(Ok(response)),
        Err(SessionError { step: SessionState::IdentificationRead, error: Error::InvalidEncoding })
    );
}

#[test]
fn session_with_no_command_to_send_stays_on_a_response() {
    let session = in_state(SessionState::HolderIdentificationRead);
    let before = session.clone();
    assert_eq!(session.advance(Ok(vec![1, 2, 3])), Ok(before));
    assert_eq!(Session::Done.advance(Ok(vec![])), Ok(Session::Done));
}

#[test]
fn session_hands_nothing_out_before_both_records_are_read() {
    for state in [
        SessionState::Start,
        SessionState::DfSelected,
        SessionState::EfSelected,
        SessionState::IdentificationRead,
    ] {
        let session = in_state(state);
        let before = session.clone();
        assert_eq!(session.finish(), (before, None));
    }
    assert_eq!(Session::Done.finish(), (Session::Done, None));
}

#[test]
fn session_hands_the_records_out_once() {
    let (session, first) = in_state(SessionState::HolderIdentificationRead).finish();
    assert!(first.is_some());
    let (session, second) = session.finish();
    assert_eq!(second, None);
    assert_eq!(session.state(), SessionState::Done);
}
