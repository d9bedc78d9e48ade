use vstd::prelude::*;

use crate::text::{push_all, push_decimal, decimal, SPACE};

verus! {

/// The numeric reply codes of the control protocol.
#[derive(Clone, Copy, Debug, PartialEq, Eq, Structural)]
pub enum ResultCode {
    RestartMarkerReply,
    ServiceReadInXXXMinutes,
    DataConnectionAlreadyOpen,
    FileStatusOk,
    CommandOkay,
    CommandNotImplementedSuperfluousAtThisSite,
    SystemStatus,
    DirectoryStatus,
    FileStatus,
    HelpMessage,
    SystemType,
    ServiceReadyForNewUser,
    ServiceClosingControlConnection,
    ClosingDataConnection,
    EnteringPassiveMode,
    UserLoggedIn,
    RequestedFileActionOkay,
    PATHNAMECreated,
    UserNameOkayNeedPassword,
    NeedAccountForLogin,
    RequestedFileActionPendingFurtherInformation,
    ServiceNotAvailable,
    CantOpenDataConnection,
    ConnectionClosed,
    FileBusy,
    LocalErrorInProcessing,
    InsufficientStorageSpace,
    UnknownCommand,
    InvalidParameterOrArgument,
    CommandNotImplemented,
    BadSequenceOfCommands,
    CommandNotImplementedForThatParameter,
    NotLoggedIn,
    NeedAccountForStoringFiles,
    FileNotFound,
    PageTypeUnknown,
    ExceededStorageAllocation,
    FileNameNotAllowed,
}

impl ResultCode {
    /// The three-digit number that stands for this code on the wire.
    pub open spec fn value(self) -> u16 {
        match self {
            ResultCode::RestartMarkerReply => 110,
            ResultCode::ServiceReadInXXXMinutes => 120,
            ResultCode::DataConnectionAlreadyOpen => 225,
            ResultCode::FileStatusOk => 150,
            ResultCode::CommandOkay => 200,
            ResultCode::CommandNotImplementedSuperfluousAtThisSite => 202,
            ResultCode::SystemStatus => 211,
            ResultCode::DirectoryStatus => 212,
            ResultCode::FileStatus => 213,
            ResultCode::HelpMessage => 214,
            ResultCode::SystemType => 215,
            ResultCode::ServiceReadyForNewUser => 220,
            ResultCode::ServiceClosingControlConnection => 221,
            ResultCode::ClosingDataConnection => 226,
            ResultCode::EnteringPassiveMode => 227,
            ResultCode::UserLoggedIn => 230,
            ResultCode::RequestedFileActionOkay => 250,
            ResultCode::PATHNAMECreated => 257,
            ResultCode::UserNameOkayNeedPassword => 331,
            ResultCode::NeedAccountForLogin => 332,
            ResultCode::RequestedFileActionPendingFurtherInformation => 350,
            ResultCode::ServiceNotAvailable => 421,
            ResultCode::CantOpenDataConnection => 425,
            ResultCode::ConnectionClosed => 426,
            ResultCode::FileBusy => 450,
            ResultCode::LocalErrorInProcessing => 451,
            ResultCode::InsufficientStorageSpace => 452,
            ResultCode::UnknownCommand => 500,
            ResultCode::InvalidParameterOrArgument => 501,
            ResultCode::CommandNotImplemented => 502,
            ResultCode::BadSequenceOfCommands => 503,
            ResultCode::CommandNotImplementedForThatParameter => 504,
            ResultCode::NotLoggedIn => 530,
            ResultCode::NeedAccountForStoringFiles => 532,
            ResultCode::FileNotFound => 550,
            ResultCode::PageTypeUnknown => 551,
            ResultCode::ExceededStorageAllocation => 552,
            ResultCode::FileNameNotAllowed => 553,
        }
    }

    /// The three-digit number that stands for this code on the wire.
    pub fn code(&self) -> (r: u16)
        ensures
            r == self.value(),
            100 <= r <= 599,
    {
        match self {
            ResultCode::RestartMarkerReply => 110,
            ResultCode::ServiceReadInXXXMinutes => 120,
            ResultCode::DataConnectionAlreadyOpen => 225,
            ResultCode::FileStatusOk => 150,
            ResultCode::CommandOkay => 200,
            ResultCode::CommandNotImplementedSuperfluousAtThisSite => 202,
            ResultCode::SystemStatus => 211,
            ResultCode::DirectoryStatus => 212,
            ResultCode::FileStatus => 213,
            ResultCode::HelpMessage => 214,
            ResultCode::SystemType => 215,
            ResultCode::ServiceReadyForNewUser => 220,
            ResultCode::ServiceClosingControlConnection => 221,
            ResultCode::ClosingDataConnection => 226,
            ResultCode::EnteringPassiveMode => 227,
            ResultCode::UserLoggedIn => 230,
            ResultCode::RequestedFileActionOkay => 250,
            ResultCode::PATHNAMECreated => 257,
            ResultCode::UserNameOkayNeedPassword => 331,
            ResultCode::NeedAccountForLogin => 332,
            ResultCode::RequestedFileActionPendingFurtherInformation => 350,
            ResultCode::ServiceNotAvailable => 421,
            ResultCode::CantOpenDataConnection => 425,
            ResultCode::ConnectionClosed => 426,
            ResultCode::FileBusy => 450,
            ResultCode::LocalErrorInProcessing => 451,
            ResultCode::InsufficientStorageSpace => 452,
            ResultCode::UnknownCommand => 500,
            ResultCode::InvalidParameterOrArgument => 501,
            ResultCode::CommandNotImplemented => 502,
            ResultCode::BadSequenceOfCommands => 503,
            ResultCode::CommandNotImplementedForThatParameter => 504,
            ResultCode::NotLoggedIn => 530,
            ResultCode::NeedAccountForStoringFiles => 532,
            ResultCode::FileNotFound => 550,
            ResultCode::PageTypeUnknown => 551,
            ResultCode::ExceededStorageAllocation => 552,
            ResultCode::FileNameNotAllowed => 553,
        }
    }
}

/// One reply line: a code and an optional human-readable message.
#[derive(Debug)]
pub struct Reply {
    pub code: ResultCode,
    pub message: Vec<u8>,
}

/// Carriage return and line feed, which end every line of the protocol.
pub open spec fn crlf() -> Seq<u8> {
    seq![13u8, 10u8]
}

/// The wire form of a reply: the code, a space and the message when there
/// is one, then CRLF.
pub open spec fn reply_line(code: ResultCode, message: Seq<u8>) -> Seq<u8> {
    if message.len() == 0 {
        decimal(code.value() as nat) + crlf()
    } else {
        decimal(code.value() as nat) + seq![SPACE] + message + crlf()
    }
}

impl Reply {
    /// A reply with the given code and message.
    pub fn new(code: ResultCode, message: Vec<u8>) -> (r: Reply)
        ensures
            r.code == code,
            r.message@ == message@,
    {
        Reply { code, message }
    }

    /// Serializes the reply into the line that is written to the control
    /// connection.
    pub fn encode(&self) -> (r: Vec<u8>)
        ensures
            r@ == reply_line(self.code, self.message@),
    {
        let mut out: Vec<u8> = Vec::new();
        push_decimal(&mut out, self.code.code() as u64);
        if self.message.len() > 0 {
            out.push(SPACE);
            push_all(&mut out, &self.message);
        }
        out.push(13u8);
        out.push(10u8);
        proof {
            if self.message@.len() == 0 {
                assert(out@ =~= reply_line(self.code, self.message@));
            } else {
                assert(out@ =~= reply_line(self.code, self.message@));
            }
        }
        out
    }
}

} // verus!
