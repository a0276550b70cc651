//! Building the command byte sequences that are sent to the card.
//!
//! Three short-form commands are built: the selection of a dedicated file by
//! its name, the selection of an elementary file under the current dedicated
//! file by its identifier, and the reading of a stretch of the current
//! elementary file.

use vstd::prelude::*;
use crate::error::Error;

verus! {

/// The class byte of every command.
pub const CLASS: u8 = 0x00;

/// The instruction byte of a file selection.
pub const INS_SELECT: u8 = 0xA4;

/// The instruction byte of a binary read.
pub const INS_READ_BINARY: u8 = 0xB0;

/// First parameter of a selection: a dedicated file, by its name.
pub const SELECT_BY_DF_NAME: u8 = 0x04;

/// First parameter of a selection: an elementary file under the current
/// dedicated file, by its identifier.
pub const SELECT_EF_UNDER_DF: u8 = 0x02;

/// Second parameter of a selection: no response data is asked for.
pub const SELECT_NO_RESPONSE: u8 = 0x0C;

/// The most bytes that a file name or identifier may hold: what the single
/// length byte of a short command can announce.
pub const MAX_SELECTOR_LEN: usize = 255;

/// The name of the tachograph application's dedicated file.
pub const TACHOGRAPH_DF: [u8; 6] = [0xFF, 0x54, 0x41, 0x43, 0x48, 0x4F];

/// The name of the second-generation tachograph application's dedicated file.
pub const TACHOGRAPH_GEN2_DF: [u8; 6] = [0xFF, 0x53, 0x4D, 0x52, 0x44, 0x54];

/// The identifier of the elementary file that holds the identification
/// records.
pub const TACHOGRAPH_IDENTIFICATION_EF: [u8; 2] = [0x05, 0x20];

/// A file name or identifier that a selection can carry: not empty, and no
/// longer than the length byte can announce.
pub open spec fn is_selector(selector: Seq<u8>) -> bool {
    1 <= selector.len() <= MAX_SELECTOR_LEN
}

/// A selection command: the four header bytes, the length of the name or
/// identifier, and the name or identifier itself.
pub open spec fn select_command(mode: u8, selector: Seq<u8>) -> Seq<u8> {
    seq![CLASS, INS_SELECT, mode, SELECT_NO_RESPONSE, selector.len() as u8] + selector
}

/// The command that selects the dedicated file named `name`.
pub open spec fn select_df_command(name: Seq<u8>) -> Seq<u8> {
    select_command(SELECT_BY_DF_NAME, name)
}

/// The command that selects the elementary file `id` under the current
/// dedicated file.
pub open spec fn select_ef_under_df_command(id: Seq<u8>) -> Seq<u8> {
    select_command(SELECT_EF_UNDER_DF, id)
}

/// The command that reads `length` bytes of the current elementary file from
/// `offset` on.
pub open spec fn read_binary_command(offset: u8, length: u8) -> Seq<u8> {
    seq![CLASS, INS_READ_BINARY, offset, length]
}

/// What building a selection of `selector` gives.
pub open spec fn select_outcome(mode: u8, selector: Seq<u8>) -> Result<Seq<u8>, Error> {
    if is_selector(selector) {
        Ok(select_command(mode, selector))
    } else {
        Err(Error::InvalidParameter)
    }
}

/// A built command, or the failure, as a value of the model.
pub open spec fn command_outcome(result: Result<Vec<u8>, Error>) -> Result<Seq<u8>, Error> {
    match result {
        Ok(command) => Ok(command@),
        Err(e) => Err(e),
    }
}

fn build_select(mode: u8, selector: &[u8]) -> (result: Result<Vec<u8>, Error>)
    ensures
        command_outcome(result) == select_outcome(mode, selector@),
{
    let len: usize = selector.len();
    if len == 0 || len > MAX_SELECTOR_LEN {
        return Err(Error::InvalidParameter);
    }
    let mut command: Vec<u8> = Vec::new();
    command.push(CLASS);
    command.push(INS_SELECT);
    command.push(mode);
    command.push(SELECT_NO_RESPONSE);
    command.push(len as u8);
    command.extend_from_slice(selector);
    assert(command@ =~= select_command(mode, selector@));
    Ok(command)
}

/// Builds the command that selects a dedicated file by its name.
///
/// Fails with `InvalidParameter` exactly when the name is empty or longer
/// than 255 bytes.
pub fn build_select_df(name: &[u8]) -> (result: Result<Vec<u8>, Error>)
    ensures
        command_outcome(result) == select_outcome(SELECT_BY_DF_NAME, name@),
{
    build_select(SELECT_BY_DF_NAME, name)
}

/// Builds the command that selects an elementary file under the current
/// dedicated file by its identifier.
///
/// Fails with `InvalidParameter` exactly when the identifier is empty or
/// longer than 255 bytes.
pub fn build_select_ef_under_df(id: &[u8]) -> (result: Result<Vec<u8>, Error>)
    ensures
        command_outcome(result) == select_outcome(SELECT_EF_UNDER_DF, id@),
{
    build_select(SELECT_EF_UNDER_DF, id)
}

/// Builds the command that reads `length` bytes of the current elementary
/// file from `offset` on.
pub fn build_read_binary(offset: u8, length: u8) -> (command: Vec<u8>)
    ensures
        command@ == read_binary_command(offset, length),
{
    let mut command: Vec<u8> = Vec::new();
    command.push(CLASS);
    command.push(INS_READ_BINARY);
    command.push(offset);
    command.push(length);
    assert(command@ =~= read_binary_command(offset, length));
    command
}

/// Identifies a file on the card.
#[derive(Clone, Debug, PartialEq, Eq)]
pub enum FileSelector {
    /// A dedicated file, by its name.
    DedicatedFile(Vec<u8>),
    /// An elementary file under the current dedicated file, by its
    /// identifier.
    ElementaryFile(Vec<u8>),
}

/// A file selector, as a value of the model.
pub enum FileSelectorModel {
    DedicatedFile(Seq<u8>),
    ElementaryFile(Seq<u8>),
}

impl View for FileSelector {
    type V = FileSelectorModel;

    open spec fn view(&self) -> FileSelectorModel {
        match self {
            FileSelector::DedicatedFile(name) => FileSelectorModel::DedicatedFile(name@),
            FileSelector::ElementaryFile(id) => FileSelectorModel::ElementaryFile(id@),
        }
    }
}

impl FileSelectorModel {
    /// What building the selection of this file gives.
    pub open spec fn command(self) -> Result<Seq<u8>, Error> {
        match self {
            FileSelectorModel::DedicatedFile(name) => select_outcome(SELECT_BY_DF_NAME, name),
            FileSelectorModel::ElementaryFile(id) => select_outcome(SELECT_EF_UNDER_DF, id),
        }
    }
}

impl FileSelector {
    /// The tachograph application.
    pub fn tachograph_application() -> (selector: FileSelector)
        ensures
            selector@ == FileSelectorModel::DedicatedFile(TACHOGRAPH_DF@),
    {
        FileSelector::DedicatedFile(vstd::slice::slice_to_vec(TACHOGRAPH_DF.as_slice()))
    }

    /// The second-generation tachograph application.
    pub fn tachograph_gen2_application() -> (selector: FileSelector)
        ensures
            selector@ == FileSelectorModel::DedicatedFile(TACHOGRAPH_GEN2_DF@),
    {
        FileSelector::DedicatedFile(vstd::slice::slice_to_vec(TACHOGRAPH_GEN2_DF.as_slice()))
    }

    /// The file that holds the identification records.
    pub fn identification() -> (selector: FileSelector)
        ensures
            selector@ == FileSelectorModel::ElementaryFile(TACHOGRAPH_IDENTIFICATION_EF@),
    {
        FileSelector::ElementaryFile(
            vstd::slice::slice_to_vec(TACHOGRAPH_IDENTIFICATION_EF.as_slice()),
        )
    }

    /// Builds the command that selects this file.
    ///
    /// Fails with `InvalidParameter` exactly when the name or identifier is
    /// empty or longer than 255 bytes.
    pub fn command(&self) -> (result: Result<Vec<u8>, Error>)
        ensures
            command_outcome(result) == self@.command(),
    {
        match self {
            FileSelector::DedicatedFile(name) => build_select_df(name.as_slice()),
            FileSelector::ElementaryFile(id) => build_select_ef_under_df(id.as_slice()),
        }
    }
}

/// The bytes form a short command: the four header bytes alone, or the four
/// header bytes, a length byte and as many data bytes as it announces, at
/// least one.
pub open spec fn is_short_command(command: Seq<u8>) -> bool {
    command.len() == 4 || (command.len() >= 6 && command[4] == command.len() - 5)
}

/// Every selection that is built is a short command that carries the name or
/// identifier unchanged behind its length.
pub proof fn lemma_select_command_is_short(mode: u8, selector: Seq<u8>)
    requires
        is_selector(selector),
    ensures
        is_short_command(select_command(mode, selector)),
        select_command(mode, selector).len() == 5 + selector.len(),
        select_command(mode, selector)[4] == selector.len(),
        select_command(mode, selector).skip(5) == selector,
{
    assert(select_command(mode, selector).skip(5) =~= selector);
}

/// Every binary read that is built is a short command of the four header
/// bytes.
pub proof fn lemma_read_binary_command_is_short(offset: u8, length: u8)
    ensures
        is_short_command(read_binary_command(offset, length)),
        read_binary_command(offset, length)[2] == offset,
        read_binary_command(offset, length)[3] == length,
{
}

} // verus!
