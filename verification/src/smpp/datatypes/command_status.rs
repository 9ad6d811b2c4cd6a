//! The result codes of SMPP.

use vstd::prelude::*;

verus! {

/// How a request went.
#[allow(non_camel_case_types)]
#[derive(Debug, Clone, Copy, PartialEq, Eq, Hash, Structural)]
pub enum CommandStatus {
    ESME_ROK,
    ESME_RINVMSGLEN,
    ESME_RINVCMDLEN,
    ESME_RINVCMDID,
    ESME_RINVBNDSTS,
    ESME_RALYBND,
    ESME_RINVPRTFLG,
    ESME_RINVREGDLVFLG,
    ESME_RSYSERR,
    ESME_RINVSRCADR,
    ESME_RINVDSTADR,
    ESME_RINVMSGID,
    ESME_RBINDFAIL,
    ESME_RINVPASWD,
    ESME_RINVSYSID,
    ESME_RCANCELFAIL,
    ESME_RREPLACEFAIL,
    ESME_RMSGQFUL,
    ESME_RINVSERTYP,
    ESME_RINVNUMDESTS,
    ESME_RINVDLNAME,
    ESME_RINVDESTFLAG,
    ESME_RINVSUBREP,
    ESME_RINVESMCLASS,
    ESME_RCNTSUBDL,
    ESME_RSUBMITFAIL,
    ESME_RINVSRCTON,
    ESME_RINVSRCNPI,
    ESME_RINVDSTTON,
    ESME_RINVDSTNPI,
    ESME_RINVSYSTYP,
    ESME_RINVREPFLAG,
    ESME_RINVNUMMSGS,
    ESME_RTHROTTLED,
    ESME_RINVSCHED,
    ESME_RINVEXPIRY,
    ESME_RINVDFTMSGID,
    ESME_RX_T_APPN,
    ESME_RX_P_APPN,
    ESME_RX_R_APPN,
    ESME_RQUERYFAIL,
    ESME_RINVOPTPARSTREAM,
    ESME_ROPTPARNOTALLWD,
    ESME_RINVPARLEN,
    ESME_RMISSINGOPTPARAM,
    ESME_RINVOPTPARAMVAL,
    ESME_RDELIVERYFAILURE,
    ESME_RUNKNOWNERR,
}

impl CommandStatus {
    /// The number on the wire.
    pub open spec fn code(self) -> u32 {
        match self {
            CommandStatus::ESME_ROK => 0x00000000,
            CommandStatus::ESME_RINVMSGLEN => 0x00000001,
            CommandStatus::ESME_RINVCMDLEN => 0x00000002,
            CommandStatus::ESME_RINVCMDID => 0x00000003,
            CommandStatus::ESME_RINVBNDSTS => 0x00000004,
            CommandStatus::ESME_RALYBND => 0x00000005,
            CommandStatus::ESME_RINVPRTFLG => 0x00000006,
            CommandStatus::ESME_RINVREGDLVFLG => 0x00000007,
            CommandStatus::ESME_RSYSERR => 0x00000008,
            CommandStatus::ESME_RINVSRCADR => 0x0000000a,
            CommandStatus::ESME_RINVDSTADR => 0x0000000b,
            CommandStatus::ESME_RINVMSGID => 0x0000000c,
            CommandStatus::ESME_RBINDFAIL => 0x0000000d,
            CommandStatus::ESME_RINVPASWD => 0x0000000e,
            CommandStatus::ESME_RINVSYSID => 0x0000000f,
            CommandStatus::ESME_RCANCELFAIL => 0x00000011,
            CommandStatus::ESME_RREPLACEFAIL => 0x00000013,
            CommandStatus::ESME_RMSGQFUL => 0x00000014,
            CommandStatus::ESME_RINVSERTYP => 0x00000015,
            CommandStatus::ESME_RINVNUMDESTS => 0x00000033,
            CommandStatus::ESME_RINVDLNAME => 0x00000034,
            CommandStatus::ESME_RINVDESTFLAG => 0x00000040,
            CommandStatus::ESME_RINVSUBREP => 0x00000042,
            CommandStatus::ESME_RINVESMCLASS => 0x00000043,
            CommandStatus::ESME_RCNTSUBDL => 0x00000044,
            CommandStatus::ESME_RSUBMITFAIL => 0x00000045,
            CommandStatus::ESME_RINVSRCTON => 0x00000048,
            CommandStatus::ESME_RINVSRCNPI => 0x00000049,
            CommandStatus::ESME_RINVDSTTON => 0x00000050,
            CommandStatus::ESME_RINVDSTNPI => 0x00000051,
            CommandStatus::ESME_RINVSYSTYP => 0x00000053,
            CommandStatus::ESME_RINVREPFLAG => 0x00000054,
            CommandStatus::ESME_RINVNUMMSGS => 0x00000055,
            CommandStatus::ESME_RTHROTTLED => 0x00000058,
            CommandStatus::ESME_RINVSCHED => 0x00000061,
            CommandStatus::ESME_RINVEXPIRY => 0x00000062,
            CommandStatus::ESME_RINVDFTMSGID => 0x00000063,
            CommandStatus::ESME_RX_T_APPN => 0x00000064,
            CommandStatus::ESME_RX_P_APPN => 0x00000065,
            CommandStatus::ESME_RX_R_APPN => 0x00000066,
            CommandStatus::ESME_RQUERYFAIL => 0x00000067,
            CommandStatus::ESME_RINVOPTPARSTREAM => 0x000000c0,
            CommandStatus::ESME_ROPTPARNOTALLWD => 0x000000c1,
            CommandStatus::ESME_RINVPARLEN => 0x000000c2,
            CommandStatus::ESME_RMISSINGOPTPARAM => 0x000000c3,
            CommandStatus::ESME_RINVOPTPARAMVAL => 0x000000c4,
            CommandStatus::ESME_RDELIVERYFAILURE => 0x000000fe,
            CommandStatus::ESME_RUNKNOWNERR => 0x000000ff,
        }
    }

    /// What a number on the wire means.
    pub open spec fn of_code(code: u32) -> Option<CommandStatus> {
        match code {
            0x00000000 => Some(CommandStatus::ESME_ROK),
            0x00000001 => Some(CommandStatus::ESME_RINVMSGLEN),
            0x00000002 => Some(CommandStatus::ESME_RINVCMDLEN),
            0x00000003 => Some(CommandStatus::ESME_RINVCMDID),
            0x00000004 => Some(CommandStatus::ESME_RINVBNDSTS),
            0x00000005 => Some(CommandStatus::ESME_RALYBND),
            0x00000006 => Some(CommandStatus::ESME_RINVPRTFLG),
            0x00000007 => Some(CommandStatus::ESME_RINVREGDLVFLG),
            0x00000008 => Some(CommandStatus::ESME_RSYSERR),
            0x0000000a => Some(CommandStatus::ESME_RINVSRCADR),
            0x0000000b => Some(CommandStatus::ESME_RINVDSTADR),
            0x0000000c => Some(CommandStatus::ESME_RINVMSGID),
            0x0000000d => Some(CommandStatus::ESME_RBINDFAIL),
            0x0000000e => Some(CommandStatus::ESME_RINVPASWD),
            0x0000000f => Some(CommandStatus::ESME_RINVSYSID),
            0x00000011 => Some(CommandStatus::ESME_RCANCELFAIL),
            0x00000013 => Some(CommandStatus::ESME_RREPLACEFAIL),
            0x00000014 => Some(CommandStatus::ESME_RMSGQFUL),
            0x00000015 => Some(CommandStatus::ESME_RINVSERTYP),
            0x00000033 => Some(CommandStatus::ESME_RINVNUMDESTS),
            0x00000034 => Some(CommandStatus::ESME_RINVDLNAME),
            0x00000040 => Some(CommandStatus::ESME_RINVDESTFLAG),
            0x00000042 => Some(CommandStatus::ESME_RINVSUBREP),
            0x00000043 => Some(CommandStatus::ESME_RINVESMCLASS),
            0x00000044 => Some(CommandStatus::ESME_RCNTSUBDL),
            0x00000045 => Some(CommandStatus::ESME_RSUBMITFAIL),
            0x00000048 => Some(CommandStatus::ESME_RINVSRCTON),
            0x00000049 => Some(CommandStatus::ESME_RINVSRCNPI),
            0x00000050 => Some(CommandStatus::ESME_RINVDSTTON),
            0x00000051 => Some(CommandStatus::ESME_RINVDSTNPI),
            0x00000053 => Some(CommandStatus::ESME_RINVSYSTYP),
            0x00000054 => Some(CommandStatus::ESME_RINVREPFLAG),
            0x00000055 => Some(CommandStatus::ESME_RINVNUMMSGS),
            0x00000058 => Some(CommandStatus::ESME_RTHROTTLED),
            0x00000061 => Some(CommandStatus::ESME_RINVSCHED),
            0x00000062 => Some(CommandStatus::ESME_RINVEXPIRY),
            0x00000063 => Some(CommandStatus::ESME_RINVDFTMSGID),
            0x00000064 => Some(CommandStatus::ESME_RX_T_APPN),
            0x00000065 => Some(CommandStatus::ESME_RX_P_APPN),
            0x00000066 => Some(CommandStatus::ESME_RX_R_APPN),
            0x00000067 => Some(CommandStatus::ESME_RQUERYFAIL),
            0x000000c0 => Some(CommandStatus::ESME_RINVOPTPARSTREAM),
            0x000000c1 => Some(CommandStatus::ESME_ROPTPARNOTALLWD),
            0x000000c2 => Some(CommandStatus::ESME_RINVPARLEN),
            0x000000c3 => Some(CommandStatus::ESME_RMISSINGOPTPARAM),
            0x000000c4 => Some(CommandStatus::ESME_RINVOPTPARAMVAL),
            0x000000fe => Some(CommandStatus::ESME_RDELIVERYFAILURE),
            0x000000ff => Some(CommandStatus::ESME_RUNKNOWNERR),
            _ => None,
        }
    }

    /// The number on the wire.
    pub fn as_u32(&self) -> (code: u32)
        ensures
            code == self.code(),
    {
        match self {
            CommandStatus::ESME_ROK => 0x00000000,
            CommandStatus::ESME_RINVMSGLEN => 0x00000001,
            CommandStatus::ESME_RINVCMDLEN => 0x00000002,
            CommandStatus::ESME_RINVCMDID => 0x00000003,
            CommandStatus::ESME_RINVBNDSTS => 0x00000004,
            CommandStatus::ESME_RALYBND => 0x00000005,
            CommandStatus::ESME_RINVPRTFLG => 0x00000006,
            CommandStatus::ESME_RINVREGDLVFLG => 0x00000007,
            CommandStatus::ESME_RSYSERR => 0x00000008,
            CommandStatus::ESME_RINVSRCADR => 0x0000000a,
            CommandStatus::ESME_RINVDSTADR => 0x0000000b,
            CommandStatus::ESME_RINVMSGID => 0x0000000c,
            CommandStatus::ESME_RBINDFAIL => 0x0000000d,
            CommandStatus::ESME_RINVPASWD => 0x0000000e,
            CommandStatus::ESME_RINVSYSID => 0x0000000f,
            CommandStatus::ESME_RCANCELFAIL => 0x00000011,
            CommandStatus::ESME_RREPLACEFAIL => 0x00000013,
            CommandStatus::ESME_RMSGQFUL => 0x00000014,
            CommandStatus::ESME_RINVSERTYP => 0x00000015,
            CommandStatus::ESME_RINVNUMDESTS => 0x00000033,
            CommandStatus::ESME_RINVDLNAME => 0x00000034,
            CommandStatus::ESME_RINVDESTFLAG => 0x00000040,
            CommandStatus::ESME_RINVSUBREP => 0x00000042,
            CommandStatus::ESME_RINVESMCLASS => 0x00000043,
            CommandStatus::ESME_RCNTSUBDL => 0x00000044,
            CommandStatus::ESME_RSUBMITFAIL => 0x00000045,
            CommandStatus::ESME_RINVSRCTON => 0x00000048,
            CommandStatus::ESME_RINVSRCNPI => 0x00000049,
            CommandStatus::ESME_RINVDSTTON => 0x00000050,
            CommandStatus::ESME_RINVDSTNPI => 0x00000051,
            CommandStatus::ESME_RINVSYSTYP => 0x00000053,
            CommandStatus::ESME_RINVREPFLAG => 0x00000054,
            CommandStatus::ESME_RINVNUMMSGS => 0x00000055,
            CommandStatus::ESME_RTHROTTLED => 0x00000058,
            CommandStatus::ESME_RINVSCHED => 0x00000061,
            CommandStatus::ESME_RINVEXPIRY => 0x00000062,
            CommandStatus::ESME_RINVDFTMSGID => 0x00000063,
            CommandStatus::ESME_RX_T_APPN => 0x00000064,
            CommandStatus::ESME_RX_P_APPN => 0x00000065,
            CommandStatus::ESME_RX_R_APPN => 0x00000066,
            CommandStatus::ESME_RQUERYFAIL => 0x00000067,
            CommandStatus::ESME_RINVOPTPARSTREAM => 0x000000c0,
            CommandStatus::ESME_ROPTPARNOTALLWD => 0x000000c1,
            CommandStatus::ESME_RINVPARLEN => 0x000000c2,
            CommandStatus::ESME_RMISSINGOPTPARAM => 0x000000c3,
            CommandStatus::ESME_RINVOPTPARAMVAL => 0x000000c4,
            CommandStatus::ESME_RDELIVERYFAILURE => 0x000000fe,
            CommandStatus::ESME_RUNKNOWNERR => 0x000000ff,
        }
    }

    /// What a number on the wire means, if it means anything.
    pub fn from_u32(code: u32) -> (value: Option<CommandStatus>)
        ensures
            value == Self::of_code(code),
    {
        match code {
            0x00000000 => Some(CommandStatus::ESME_ROK),
            0x00000001 => Some(CommandStatus::ESME_RINVMSGLEN),
            0x00000002 => Some(CommandStatus::ESME_RINVCMDLEN),
            0x00000003 => Some(CommandStatus::ESME_RINVCMDID),
            0x00000004 => Some(CommandStatus::ESME_RINVBNDSTS),
            0x00000005 => Some(CommandStatus::ESME_RALYBND),
            0x00000006 => Some(CommandStatus::ESME_RINVPRTFLG),
            0x00000007 => Some(CommandStatus::ESME_RINVREGDLVFLG),
            0x00000008 => Some(CommandStatus::ESME_RSYSERR),
            0x0000000a => Some(CommandStatus::ESME_RINVSRCADR),
            0x0000000b => Some(CommandStatus::ESME_RINVDSTADR),
            0x0000000c => Some(CommandStatus::ESME_RINVMSGID),
            0x0000000d => Some(CommandStatus::ESME_RBINDFAIL),
            0x0000000e => Some(CommandStatus::ESME_RINVPASWD),
            0x0000000f => Some(CommandStatus::ESME_RINVSYSID),
            0x00000011 => Some(CommandStatus::ESME_RCANCELFAIL),
            0x00000013 => Some(CommandStatus::ESME_RREPLACEFAIL),
            0x00000014 => Some(CommandStatus::ESME_RMSGQFUL),
            0x00000015 => Some(CommandStatus::ESME_RINVSERTYP),
            0x00000033 => Some(CommandStatus::ESME_RINVNUMDESTS),
            0x00000034 => Some(CommandStatus::ESME_RINVDLNAME),
            0x00000040 => Some(CommandStatus::ESME_RINVDESTFLAG),
            0x00000042 => Some(CommandStatus::ESME_RINVSUBREP),
            0x00000043 => Some(CommandStatus::ESME_RINVESMCLASS),
            0x00000044 => Some(CommandStatus::ESME_RCNTSUBDL),
            0x00000045 => Some(CommandStatus::ESME_RSUBMITFAIL),
            0x00000048 => Some(CommandStatus::ESME_RINVSRCTON),
            0x00000049 => Some(CommandStatus::ESME_RINVSRCNPI),
            0x00000050 => Some(CommandStatus::ESME_RINVDSTTON),
            0x00000051 => Some(CommandStatus::ESME_RINVDSTNPI),
            0x00000053 => Some(CommandStatus::ESME_RINVSYSTYP),
            0x00000054 => Some(CommandStatus::ESME_RINVREPFLAG),
            0x00000055 => Some(CommandStatus::ESME_RINVNUMMSGS),
            0x00000058 => Some(CommandStatus::ESME_RTHROTTLED),
            0x00000061 => Some(CommandStatus::ESME_RINVSCHED),
            0x00000062 => Some(CommandStatus::ESME_RINVEXPIRY),
            0x00000063 => Some(CommandStatus::ESME_RINVDFTMSGID),
            0x00000064 => Some(CommandStatus::ESME_RX_T_APPN),
            0x00000065 => Some(CommandStatus::ESME_RX_P_APPN),
            0x00000066 => Some(CommandStatus::ESME_RX_R_APPN),
            0x00000067 => Some(CommandStatus::ESME_RQUERYFAIL),
            0x000000c0 => Some(CommandStatus::ESME_RINVOPTPARSTREAM),
            0x000000c1 => Some(CommandStatus::ESME_ROPTPARNOTALLWD),
            0x000000c2 => Some(CommandStatus::ESME_RINVPARLEN),
            0x000000c3 => Some(CommandStatus::ESME_RMISSINGOPTPARAM),
            0x000000c4 => Some(CommandStatus::ESME_RINVOPTPARAMVAL),
            0x000000fe => Some(CommandStatus::ESME_RDELIVERYFAILURE),
            0x000000ff => Some(CommandStatus::ESME_RUNKNOWNERR),
            _ => None,
        }
    }

    /// The name.
    pub open spec fn name(self) -> Seq<char> {
        match self {
            CommandStatus::ESME_ROK => "ESME_ROK"@,
            CommandStatus::ESME_RINVMSGLEN => "ESME_RINVMSGLEN"@,
            CommandStatus::ESME_RINVCMDLEN => "ESME_RINVCMDLEN"@,
            CommandStatus::ESME_RINVCMDID => "ESME_RINVCMDID"@,
            CommandStatus::ESME_RINVBNDSTS => "ESME_RINVBNDSTS"@,
            CommandStatus::ESME_RALYBND => "ESME_RALYBND"@,
            CommandStatus::ESME_RINVPRTFLG => "ESME_RINVPRTFLG"@,
            CommandStatus::ESME_RINVREGDLVFLG => "ESME_RINVREGDLVFLG"@,
            CommandStatus::ESME_RSYSERR => "ESME_RSYSERR"@,
            CommandStatus::ESME_RINVSRCADR => "ESME_RINVSRCADR"@,
            CommandStatus::ESME_RINVDSTADR => "ESME_RINVDSTADR"@,
            CommandStatus::ESME_RINVMSGID => "ESME_RINVMSGID"@,
            CommandStatus::ESME_RBINDFAIL => "ESME_RBINDFAIL"@,
            CommandStatus::ESME_RINVPASWD => "ESME_RINVPASWD"@,
            CommandStatus::ESME_RINVSYSID => "ESME_RINVSYSID"@,
            CommandStatus::ESME_RCANCELFAIL => "ESME_RCANCELFAIL"@,
            CommandStatus::ESME_RREPLACEFAIL => "ESME_RREPLACEFAIL"@,
            CommandStatus::ESME_RMSGQFUL => "ESME_RMSGQFUL"@,
            CommandStatus::ESME_RINVSERTYP => "ESME_RINVSERTYP"@,
            CommandStatus::ESME_RINVNUMDESTS => "ESME_RINVNUMDESTS"@,
            CommandStatus::ESME_RINVDLNAME => "ESME_RINVDLNAME"@,
            CommandStatus::ESME_RINVDESTFLAG => "ESME_RINVDESTFLAG"@,
            CommandStatus::ESME_RINVSUBREP => "ESME_RINVSUBREP"@,
            CommandStatus::ESME_RINVESMCLASS => "ESME_RINVESMCLASS"@,
            CommandStatus::ESME_RCNTSUBDL => "ESME_RCNTSUBDL"@,
            CommandStatus::ESME_RSUBMITFAIL => "ESME_RSUBMITFAIL"@,
            CommandStatus::ESME_RINVSRCTON => "ESME_RINVSRCTON"@,
            CommandStatus::ESME_RINVSRCNPI => "ESME_RINVSRCNPI"@,
            CommandStatus::ESME_RINVDSTTON => "ESME_RINVDSTTON"@,
            CommandStatus::ESME_RINVDSTNPI => "ESME_RINVDSTNPI"@,
            CommandStatus::ESME_RINVSYSTYP => "ESME_RINVSYSTYP"@,
            CommandStatus::ESME_RINVREPFLAG => "ESME_RINVREPFLAG"@,
            CommandStatus::ESME_RINVNUMMSGS => "ESME_RINVNUMMSGS"@,
            CommandStatus::ESME_RTHROTTLED => "ESME_RTHROTTLED"@,
            CommandStatus::ESME_RINVSCHED => "ESME_RINVSCHED"@,
            CommandStatus::ESME_RINVEXPIRY => "ESME_RINVEXPIRY"@,
            CommandStatus::ESME_RINVDFTMSGID => "ESME_RINVDFTMSGID"@,
            CommandStatus::ESME_RX_T_APPN => "ESME_RX_T_APPN"@,
            CommandStatus::ESME_RX_P_APPN => "ESME_RX_P_APPN"@,
            CommandStatus::ESME_RX_R_APPN => "ESME_RX_R_APPN"@,
            CommandStatus::ESME_RQUERYFAIL => "ESME_RQUERYFAIL"@,
            CommandStatus::ESME_RINVOPTPARSTREAM => "ESME_RINVOPTPARSTREAM"@,
            CommandStatus::ESME_ROPTPARNOTALLWD => "ESME_ROPTPARNOTALLWD"@,
            CommandStatus::ESME_RINVPARLEN => "ESME_RINVPARLEN"@,
            CommandStatus::ESME_RMISSINGOPTPARAM => "ESME_RMISSINGOPTPARAM"@,
            CommandStatus::ESME_RINVOPTPARAMVAL => "ESME_RINVOPTPARAMVAL"@,
            CommandStatus::ESME_RDELIVERYFAILURE => "ESME_RDELIVERYFAILURE"@,
            CommandStatus::ESME_RUNKNOWNERR => "ESME_RUNKNOWNERR"@,
        }
    }

    /// The name.
    pub fn as_str(&self) -> (name: &'static str)
        ensures
            name@ == self.name(),
    {
        match self {
            CommandStatus::ESME_ROK => "ESME_ROK",
            CommandStatus::ESME_RINVMSGLEN => "ESME_RINVMSGLEN",
            CommandStatus::ESME_RINVCMDLEN => "ESME_RINVCMDLEN",
            CommandStatus::ESME_RINVCMDID => "ESME_RINVCMDID",
            CommandStatus::ESME_RINVBNDSTS => "ESME_RINVBNDSTS",
            CommandStatus::ESME_RALYBND => "ESME_RALYBND",
            CommandStatus::ESME_RINVPRTFLG => "ESME_RINVPRTFLG",
            CommandStatus::ESME_RINVREGDLVFLG => "ESME_RINVREGDLVFLG",
            CommandStatus::ESME_RSYSERR => "ESME_RSYSERR",
            CommandStatus::ESME_RINVSRCADR => "ESME_RINVSRCADR",
            CommandStatus::ESME_RINVDSTADR => "ESME_RINVDSTADR",
            CommandStatus::ESME_RINVMSGID => "ESME_RINVMSGID",
            CommandStatus::ESME_RBINDFAIL => "ESME_RBINDFAIL",
            CommandStatus::ESME_RINVPASWD => "ESME_RINVPASWD",
            CommandStatus::ESME_RINVSYSID => "ESME_RINVSYSID",
            CommandStatus::ESME_RCANCELFAIL => "ESME_RCANCELFAIL",
            CommandStatus::ESME_RREPLACEFAIL => "ESME_RREPLACEFAIL",
            CommandStatus::ESME_RMSGQFUL => "ESME_RMSGQFUL",
            CommandStatus::ESME_RINVSERTYP => "ESME_RINVSERTYP",
            CommandStatus::ESME_RINVNUMDESTS => "ESME_RINVNUMDESTS",
            CommandStatus::ESME_RINVDLNAME => "ESME_RINVDLNAME",
            CommandStatus::ESME_RINVDESTFLAG => "ESME_RINVDESTFLAG",
            CommandStatus::ESME_RINVSUBREP => "ESME_RINVSUBREP",
            CommandStatus::ESME_RINVESMCLASS => "ESME_RINVESMCLASS",
            CommandStatus::ESME_RCNTSUBDL => "ESME_RCNTSUBDL",
            CommandStatus::ESME_RSUBMITFAIL => "ESME_RSUBMITFAIL",
            CommandStatus::ESME_RINVSRCTON => "ESME_RINVSRCTON",
            CommandStatus::ESME_RINVSRCNPI => "ESME_RINVSRCNPI",
            CommandStatus::ESME_RINVDSTTON => "ESME_RINVDSTTON",
            CommandStatus::ESME_RINVDSTNPI => "ESME_RINVDSTNPI",
            CommandStatus::ESME_RINVSYSTYP => "ESME_RINVSYSTYP",
            CommandStatus::ESME_RINVREPFLAG => "ESME_RINVREPFLAG",
            CommandStatus::ESME_RINVNUMMSGS => "ESME_RINVNUMMSGS",
            CommandStatus::ESME_RTHROTTLED => "ESME_RTHROTTLED",
            CommandStatus::ESME_RINVSCHED => "ESME_RINVSCHED",
            CommandStatus::ESME_RINVEXPIRY => "ESME_RINVEXPIRY",
            CommandStatus::ESME_RINVDFTMSGID => "ESME_RINVDFTMSGID",
            CommandStatus::ESME_RX_T_APPN => "ESME_RX_T_APPN",
            CommandStatus::ESME_RX_P_APPN => "ESME_RX_P_APPN",
            CommandStatus::ESME_RX_R_APPN => "ESME_RX_R_APPN",
            CommandStatus::ESME_RQUERYFAIL => "ESME_RQUERYFAIL",
            CommandStatus::ESME_RINVOPTPARSTREAM => "ESME_RINVOPTPARSTREAM",
            CommandStatus::ESME_ROPTPARNOTALLWD => "ESME_ROPTPARNOTALLWD",
            CommandStatus::ESME_RINVPARLEN => "ESME_RINVPARLEN",
            CommandStatus::ESME_RMISSINGOPTPARAM => "ESME_RMISSINGOPTPARAM",
            CommandStatus::ESME_RINVOPTPARAMVAL => "ESME_RINVOPTPARAMVAL",
            CommandStatus::ESME_RDELIVERYFAILURE => "ESME_RDELIVERYFAILURE",
            CommandStatus::ESME_RUNKNOWNERR => "ESME_RUNKNOWNERR",
        }
    }
}

/// Numbers and their meanings go one to one.
pub proof fn law_command_status_codes(value: CommandStatus, code: u32)
    ensures
        CommandStatus::of_code(value.code()) == Some(value),
        CommandStatus::of_code(code) matches Some(other) ==> other.code() == code,
{
}

/// The result codes in numbers.
pub proof fn law_command_status_numbers()
    ensures
        CommandStatus::ESME_ROK.code() == 0x0,
        CommandStatus::ESME_RINVMSGLEN.code() == 0x1,
        CommandStatus::ESME_RINVCMDLEN.code() == 0x2,
        CommandStatus::ESME_RINVCMDID.code() == 0x3,
        CommandStatus::ESME_RINVBNDSTS.code() == 0x4,
        CommandStatus::ESME_RALYBND.code() == 0x5,
        CommandStatus::ESME_RINVPRTFLG.code() == 0x6,
        CommandStatus::ESME_RINVREGDLVFLG.code() == 0x7,
        CommandStatus::ESME_RSYSERR.code() == 0x8,
        CommandStatus::ESME_RINVSRCADR.code() == 0xa,
        CommandStatus::ESME_RINVDSTADR.code() == 0xb,
        CommandStatus::ESME_RINVMSGID.code() == 0xc,
        CommandStatus::ESME_RBINDFAIL.code() == 0xd,
        CommandStatus::ESME_RINVPASWD.code() == 0xe,
        CommandStatus::ESME_RINVSYSID.code() == 0xf,
        CommandStatus::ESME_RCANCELFAIL.code() == 0x11,
        CommandStatus::ESME_RREPLACEFAIL.code() == 0x13,
        CommandStatus::ESME_RMSGQFUL.code() == 0x14,
        CommandStatus::ESME_RINVSERTYP.code() == 0x15,
        CommandStatus::ESME_RINVNUMDESTS.code() == 0x33,
        CommandStatus::ESME_RINVDLNAME.code() == 0x34,
        CommandStatus::ESME_RINVDESTFLAG.code() == 0x40,
        CommandStatus::ESME_RINVSUBREP.code() == 0x42,
        CommandStatus::ESME_RINVESMCLASS.code() == 0x43,
        CommandStatus::ESME_RCNTSUBDL.code() == 0x44,
        CommandStatus::ESME_RSUBMITFAIL.code() == 0x45,
        CommandStatus::ESME_RINVSRCTON.code() == 0x48,
        CommandStatus::ESME_RINVSRCNPI.code() == 0x49,
        CommandStatus::ESME_RINVDSTTON.code() == 0x50,
        CommandStatus::ESME_RINVDSTNPI.code() == 0x51,
        CommandStatus::ESME_RINVSYSTYP.code() == 0x53,
        CommandStatus::ESME_RINVREPFLAG.code() == 0x54,
        CommandStatus::ESME_RINVNUMMSGS.code() == 0x55,
        CommandStatus::ESME_RTHROTTLED.code() == 0x58,
        CommandStatus::ESME_RINVSCHED.code() == 0x61,
        CommandStatus::ESME_RINVEXPIRY.code() == 0x62,
        CommandStatus::ESME_RINVDFTMSGID.code() == 0x63,
        CommandStatus::ESME_RX_T_APPN.code() == 0x64,
        CommandStatus::ESME_RX_P_APPN.code() == 0x65,
        CommandStatus::ESME_RX_R_APPN.code() == 0x66,
        CommandStatus::ESME_RQUERYFAIL.code() == 0x67,
        CommandStatus::ESME_RINVOPTPARSTREAM.code() == 0xc0,
        CommandStatus::ESME_ROPTPARNOTALLWD.code() == 0xc1,
        CommandStatus::ESME_RINVPARLEN.code() == 0xc2,
        CommandStatus::ESME_RMISSINGOPTPARAM.code() == 0xc3,
        CommandStatus::ESME_RINVOPTPARAMVAL.code() == 0xc4,
        CommandStatus::ESME_RDELIVERYFAILURE.code() == 0xfe,
        CommandStatus::ESME_RUNKNOWNERR.code() == 0xff,
{
}

/// The names of the result codes.
pub proof fn law_command_status_names()
    ensures
        CommandStatus::ESME_ROK.name() == "ESME_ROK"@,
        CommandStatus::ESME_RINVMSGLEN.name() == "ESME_RINVMSGLEN"@,
        CommandStatus::ESME_RINVCMDLEN.name() == "ESME_RINVCMDLEN"@,
        CommandStatus::ESME_RINVCMDID.name() == "ESME_RINVCMDID"@,
        CommandStatus::ESME_RINVBNDSTS.name() == "ESME_RINVBNDSTS"@,
        CommandStatus::ESME_RALYBND.name() == "ESME_RALYBND"@,
        CommandStatus::ESME_RINVPRTFLG.name() == "ESME_RINVPRTFLG"@,
        CommandStatus::ESME_RINVREGDLVFLG.name() == "ESME_RINVREGDLVFLG"@,
        CommandStatus::ESME_RSYSERR.name() == "ESME_RSYSERR"@,
        CommandStatus::ESME_RINVSRCADR.name() == "ESME_RINVSRCADR"@,
        CommandStatus::ESME_RINVDSTADR.name() == "ESME_RINVDSTADR"@,
        CommandStatus::ESME_RINVMSGID.name() == "ESME_RINVMSGID"@,
        CommandStatus::ESME_RBINDFAIL.name() == "ESME_RBINDFAIL"@,
        CommandStatus::ESME_RINVPASWD.name() == "ESME_RINVPASWD"@,
        CommandStatus::ESME_RINVSYSID.name() == "ESME_RINVSYSID"@,
        CommandStatus::ESME_RCANCELFAIL.name() == "ESME_RCANCELFAIL"@,
        CommandStatus::ESME_RREPLACEFAIL.name() == "ESME_RREPLACEFAIL"@,
        CommandStatus::ESME_RMSGQFUL.name() == "ESME_RMSGQFUL"@,
        CommandStatus::ESME_RINVSERTYP.name() == "ESME_RINVSERTYP"@,
        CommandStatus::ESME_RINVNUMDESTS.name() == "ESME_RINVNUMDESTS"@,
        CommandStatus::ESME_RINVDLNAME.name() == "ESME_RINVDLNAME"@,
        CommandStatus::ESME_RINVDESTFLAG.name() == "ESME_RINVDESTFLAG"@,
        CommandStatus::ESME_RINVSUBREP.name() == "ESME_RINVSUBREP"@,
        CommandStatus::ESME_RINVESMCLASS.name() == "ESME_RINVESMCLASS"@,
        CommandStatus::ESME_RCNTSUBDL.name() == "ESME_RCNTSUBDL"@,
        CommandStatus::ESME_RSUBMITFAIL.name() == "ESME_RSUBMITFAIL"@,
        CommandStatus::ESME_RINVSRCTON.name() == "ESME_RINVSRCTON"@,
        CommandStatus::ESME_RINVSRCNPI.name() == "ESME_RINVSRCNPI"@,
        CommandStatus::ESME_RINVDSTTON.name() == "ESME_RINVDSTTON"@,
        CommandStatus::ESME_RINVDSTNPI.name() == "ESME_RINVDSTNPI"@,
        CommandStatus::ESME_RINVSYSTYP.name() == "ESME_RINVSYSTYP"@,
        CommandStatus::ESME_RINVREPFLAG.name() == "ESME_RINVREPFLAG"@,
        CommandStatus::ESME_RINVNUMMSGS.name() == "ESME_RINVNUMMSGS"@,
        CommandStatus::ESME_RTHROTTLED.name() == "ESME_RTHROTTLED"@,
        CommandStatus::ESME_RINVSCHED.name() == "ESME_RINVSCHED"@,
        CommandStatus::ESME_RINVEXPIRY.name() == "ESME_RINVEXPIRY"@,
        CommandStatus::ESME_RINVDFTMSGID.name() == "ESME_RINVDFTMSGID"@,
        CommandStatus::ESME_RX_T_APPN.name() == "ESME_RX_T_APPN"@,
        CommandStatus::ESME_RX_P_APPN.name() == "ESME_RX_P_APPN"@,
        CommandStatus::ESME_RX_R_APPN.name() == "ESME_RX_R_APPN"@,
        CommandStatus::ESME_RQUERYFAIL.name() == "ESME_RQUERYFAIL"@,
        CommandStatus::ESME_RINVOPTPARSTREAM.name() == "ESME_RINVOPTPARSTREAM"@,
        CommandStatus::ESME_ROPTPARNOTALLWD.name() == "ESME_ROPTPARNOTALLWD"@,
        CommandStatus::ESME_RINVPARLEN.name() == "ESME_RINVPARLEN"@,
        CommandStatus::ESME_RMISSINGOPTPARAM.name() == "ESME_RMISSINGOPTPARAM"@,
        CommandStatus::ESME_RINVOPTPARAMVAL.name() == "ESME_RINVOPTPARAMVAL"@,
        CommandStatus::ESME_RDELIVERYFAILURE.name() == "ESME_RDELIVERYFAILURE"@,
        CommandStatus::ESME_RUNKNOWNERR.name() == "ESME_RUNKNOWNERR"@,
{
}

} // verus!
