//! The commands of the protocols that connections look at.

use crate::protocol::Protocol;
use crate::smpp::datatypes::command_id::CommandId;
use vstd::prelude::*;

verus! {

pub const CMPP_CONNECT_RESP: u32 = 0x80000001;

pub const CMPP_TERMINATE: u32 = 0x00000002;

pub const CMPP_TERMINATE_RESP: u32 = 0x80000002;

pub const CMPP_SUBMIT: u32 = 0x00000004;

pub const CMPP_ACTIVE_TEST: u32 = 0x00000008;

pub const SMGP_LOGIN_RESP: u32 = 0x80000001;

pub const SMGP_SUBMIT: u32 = 0x00000002;

pub const SMGP_DELIVER_RESP: u32 = 0x80000003;

pub const SMGP_ACTIVE_TEST: u32 = 0x00000004;

pub const SMGP_ACTIVE_TEST_RESP: u32 = 0x80000004;

pub const SMGP_EXIT: u32 = 0x00000006;

pub const SMGP_EXIT_RESP: u32 = 0x80000006;

pub const SGIP_BIND_RESP: u32 = 0x80000001;

pub const SGIP_UNBIND: u32 = 0x00000002;

pub const SGIP_UNBIND_RESP: u32 = 0x80000002;

pub const SGIP_SUBMIT: u32 = 0x00000003;

pub const SGIP_SUBMIT_RESP: u32 = 0x80000003;

pub const SGIP_DELIVER_RESP: u32 = 0x80000004;

pub const SGIP_REPORT_RESP: u32 = 0x80000005;

pub const SGIP_TRACE: u32 = 0x00001000;

/// The command that submits a message.
pub open spec fn submit_command(protocol: Protocol) -> u32 {
    match protocol {
        Protocol::Cmpp => CMPP_SUBMIT,
        Protocol::Smgp => SMGP_SUBMIT,
        Protocol::Smpp => CommandId::SUBMIT_SM.code(),
        Protocol::Sgip => SGIP_SUBMIT,
    }
}

/// The command that closes a session.
pub open spec fn close_command(protocol: Protocol) -> u32 {
    match protocol {
        Protocol::Cmpp => CMPP_TERMINATE,
        Protocol::Smgp => SMGP_EXIT,
        Protocol::Smpp => CommandId::UNBIND.code(),
        Protocol::Sgip => SGIP_UNBIND,
    }
}

/// Whether a command submits a message.
pub fn is_submit(protocol: Protocol, command_id: u32) -> (yes: bool)
    ensures
        yes == (command_id == submit_command(protocol)),
{
    match protocol {
        Protocol::Cmpp => command_id == CMPP_SUBMIT,
        Protocol::Smgp => command_id == SMGP_SUBMIT,
        Protocol::Smpp => command_id == CommandId::SUBMIT_SM.as_u32(),
        Protocol::Sgip => command_id == SGIP_SUBMIT,
    }
}

/// Whether a command closes the session in one of the protocols. A client does not ask which.
pub open spec fn closes(command_id: u32) -> bool {
    exists|protocol: Protocol| command_id == #[trigger] close_command(protocol)
}

/// Whether a command closes the session in one of the protocols.
pub fn is_close(command_id: u32) -> (yes: bool)
    ensures
        yes == closes(command_id),
{
    let yes = command_id == CMPP_TERMINATE || command_id == SMGP_EXIT || command_id
        == CommandId::UNBIND.as_u32() || command_id == SGIP_UNBIND;
    proof {
        if yes {
            assert(command_id == close_command(Protocol::Cmpp) || command_id == close_command(
                Protocol::Smgp,
            ));
        }
    }
    yes
}

/// The commands in numbers: what submits a message, and what closes a session.
pub proof fn law_commands(command_id: u32)
    ensures
        submit_command(Protocol::Cmpp) == 4,
        submit_command(Protocol::Smgp) == 2,
        submit_command(Protocol::Smpp) == 4,
        submit_command(Protocol::Sgip) == 3,
        close_command(Protocol::Cmpp) == 2,
        close_command(Protocol::Smgp) == 6,
        close_command(Protocol::Smpp) == 6,
        close_command(Protocol::Sgip) == 2,
        closes(command_id) <==> command_id == 2 || command_id == 6,
{
    assert(close_command(Protocol::Cmpp) == 2);
    assert(close_command(Protocol::Smpp) == 6);
}

} // verus!
