//! Reading short messages leniently, by version.

use crate::error::RsmsError;
use crate::smpp::datatypes::short_message::{
    DeliverSm, MessageFields, MessageParts, MessageSizes, SubmitSm,
};
use crate::smpp::message;
use crate::smpp::version::SmppVersion;
use crate::wire;
use vstd::prelude::*;

verus! {

fn default_version(version: Option<SmppVersion>) -> (v: SmppVersion)
    ensures
        v == message::version_or_default(version),
{
    match version {
        Some(v) => v,
        None => SmppVersion::V34,
    }
}

/// Reads the fields of a message.
fn decode_parts(version: Option<SmppVersion>, body: &[u8]) -> (res: Result<MessageParts, RsmsError>)
    ensures
        ({
            let sizes = MessageSizes::of(message::version_or_default(version));
            let end = MessageFields::head_end(body@, sizes);
            &&& res is Ok <==> end.ok()
            &&& res matches Ok(parts) ==> parts.fields() == MessageFields::read_leniently(
                body@,
                sizes,
            )
            &&& res matches Err(e) ==> e.is_codec(message::fault_text(end.fault->0))
        }),
{
    let sizes = MessageSizes::in_version(default_version(version));
    let mut cursor = wire::new_cursor(body);
    match MessageParts::decode_leniently(&mut cursor, sizes) {
        Ok(parts) => Ok(parts),
        Err(e) => Err(e.into_rsms()),
    }
}

/// Reads a submitted message. A short message of which not all is there is taken as empty, and
/// no parameters are read behind it.
pub fn decode_submit_sm(version: Option<SmppVersion>, _header_length: u32, body: &[u8]) -> (res:
    Result<SubmitSm, RsmsError>)
    ensures
        ({
            let sizes = MessageSizes::of(message::version_or_default(version));
            let end = MessageFields::head_end(body@, sizes);
            match res {
                Ok(sm) => body@.len() >= 10 && end.ok() && sm@ == MessageFields::read_leniently(
                    body@,
                    sizes,
                ),
                Err(e) => if body@.len() < 10 {
                    e.is_codec("SubmitSm body too short"@)
                } else {
                    !end.ok() && e.is_codec(message::fault_text(end.fault->0))
                },
            }
        }),
{
    if body.len() < 10 {
        return Err(RsmsError::Codec("SubmitSm body too short".to_owned()));
    }
    match decode_parts(version, body) {
        Ok(parts) => Ok(SubmitSm::from_parts(parts)),
        Err(e) => Err(e),
    }
}

/// Reads a delivered message. A short message of which not all is there is taken as empty, and
/// no parameters are read behind it.
pub fn decode_deliver_sm(version: Option<SmppVersion>, _header_length: u32, body: &[u8]) -> (res:
    Result<DeliverSm, RsmsError>)
    ensures
        ({
            let sizes = MessageSizes::of(message::version_or_default(version));
            let end = MessageFields::head_end(body@, sizes);
            match res {
                Ok(sm) => body@.len() >= 6 && end.ok() && sm@ == MessageFields::read_leniently(
                    body@,
                    sizes,
                ),
                Err(e) => if body@.len() < 6 {
                    e.is_codec("DeliverSm body too short"@)
                } else {
                    !end.ok() && e.is_codec(message::fault_text(end.fault->0))
                },
            }
        }),
{
    if body.len() < 6 {
        return Err(RsmsError::Codec("DeliverSm body too short".to_owned()));
    }
    match decode_parts(version, body) {
        Ok(parts) => Ok(DeliverSm::from_parts(parts)),
        Err(e) => Err(e),
    }
}

} // verus!
