//! A satellite TV decoder core: time-keyed subscription key trees, a
//! flash-resident subscription store, the framed wire protocol, and the
//! signed-and-encrypted payload envelope, with machine-checked contracts
//! throughout.

pub mod codec;
pub mod committed_array;
pub mod components;
pub mod context;
pub mod crypto;
pub mod decode;
pub mod derive;
pub mod envelope;
pub mod errors;
pub mod flash;
pub mod gcr;
pub mod gpio;
pub mod hal;
pub mod icc;
pub mod keytree;
pub mod led;
pub mod message;
pub mod mpu;
pub mod subscribe;
pub mod subscription;
pub mod uart;
pub mod utils;

use vstd::bytes::{spec_u32_to_le_bytes, spec_u64_to_le_bytes, u32_to_le_bytes, u64_to_le_bytes};
use vstd::prelude::*;

use crate::context::{spec_list_upto, DecoderChannelInfoResult, DecoderContext, MAX_SUBSCRIPTIONS};

verus! {

/// The wire form of one record of the list response: channel id, start
/// and end, all little-endian.
pub open spec fn spec_list_record_bytes(r: DecoderChannelInfoResult) -> Seq<u8> {
    spec_u32_to_le_bytes(r.channel_id) + spec_u64_to_le_bytes(r.start_time) + spec_u64_to_le_bytes(
        r.end_time,
    )
}

/// The wire form of the first `i` records of a list response.
pub open spec fn spec_list_records_bytes(list: Seq<DecoderChannelInfoResult>, i: int) -> Seq<u8>
    decreases i,
{
    if i <= 0 {
        Seq::empty()
    } else {
        spec_list_records_bytes(list, i - 1) + spec_list_record_bytes(list[i - 1])
    }
}

/// Performs the list channels functionality required by the host tools:
/// the response body is the record count followed by one packed record
/// per subscribed channel, in slot order.
pub fn list_channels(context: &DecoderContext) -> (out: Vec<u8>)
    requires
        context.wf(),
    ensures
        ({
            let list = spec_list_upto(*context, MAX_SUBSCRIPTIONS as int);
            out@ == spec_u32_to_le_bytes(list.len() as u32) + spec_list_records_bytes(
                list,
                list.len() as int,
            )
        }),
{
    let channel_info = context.list_channels();
    let ghost list = channel_info@;

    let mut out: Vec<u8> = Vec::new();

    // the first 4 bytes are the number of channels
    let count_bytes = u32_to_le_bytes(channel_info.len() as u32);
    out.extend_from_slice(count_bytes.as_slice());

    // the next bytes are info about the channels
    let ghost prefix = out@;
    let mut i: usize = 0;
    while i < channel_info.len()
        invariant
            channel_info@ == list,
            0 <= i <= list.len(),
            out@ == prefix + spec_list_records_bytes(list, i as int),
        decreases list.len() - i,
    {
        let record = &channel_info[i];
        let channel_bytes = u32_to_le_bytes(record.channel_id);
        out.extend_from_slice(channel_bytes.as_slice());
        let start_bytes = u64_to_le_bytes(record.start_time);
        out.extend_from_slice(start_bytes.as_slice());
        let end_bytes = u64_to_le_bytes(record.end_time);
        out.extend_from_slice(end_bytes.as_slice());
        proof {
            assert(out@ =~= prefix + spec_list_records_bytes(list, i + 1));
        }
        i += 1;
    }
    proof {
        assert(out@ =~= spec_u32_to_le_bytes(list.len() as u32) + spec_list_records_bytes(
            list,
            list.len() as int,
        ));
    }
    out
}

} // verus!
