use vstd::prelude::*;
use vstd::string::StrSliceExecFns;
use vstd::string::StringSliceAdditionalSpecFns;
use crate::codec::decode;
use crate::codec::envelope_of;
use crate::codec::MAX_BODY_LEN;
use crate::topic::Topic;

verus! {

// The outbound wire form of a decoded message: the envelope re-rendered with
// the topic it arrived on,
//   {"uuid":U,"apiToken":T,"topic":{"root":R,"deviceId":D},"payload":{}}
// with every string quoted and escaped. The encoder works on ASCII text, as
// the inbound grammar does.

/// The bytes one character contributes to a quoted string: the seven
/// escapes the encoder emits, else the character's low byte (identity on
/// ASCII).
pub open spec fn escape_char_bytes(c: char) -> Seq<u8> {
    if c == '"' {
        seq![0x5cu8, 0x22u8]
    } else if c == '\\' {
        seq![0x5cu8, 0x5cu8]
    } else if c == '\u{0008}' {
        seq![0x5cu8, 0x62u8]
    } else if c == '\u{000c}' {
        seq![0x5cu8, 0x66u8]
    } else if c == '\n' {
        seq![0x5cu8, 0x6eu8]
    } else if c == '\r' {
        seq![0x5cu8, 0x72u8]
    } else if c == '\t' {
        seq![0x5cu8, 0x74u8]
    } else {
        seq![((c as u32) % 256) as u8]
    }
}

/// A string's content escaped for the wire.
pub open spec fn escape_str(s: Seq<char>) -> Seq<u8>
    decreases s.len(),
{
    if s.len() == 0 {
        Seq::empty()
    } else {
        escape_str(s.drop_last()) + escape_char_bytes(s.last())
    }
}

/// A string quoted and escaped.
pub open spec fn quoted(s: Seq<char>) -> Seq<u8> {
    seq![0x22u8] + escape_str(s) + seq![0x22u8]
}

/// `{"uuid":`
pub open spec fn uuid_key_bytes() -> Seq<u8> {
    seq![0x7bu8, 0x22u8, 0x75u8, 0x75u8, 0x69u8, 0x64u8, 0x22u8, 0x3au8]
}

/// `,"apiToken":`
pub open spec fn token_key_bytes() -> Seq<u8> {
    seq![0x2cu8, 0x22u8, 0x61u8, 0x70u8, 0x69u8, 0x54u8, 0x6fu8, 0x6bu8, 0x65u8, 0x6eu8, 0x22u8, 0x3au8]
}

/// `,"topic":{"root":`
pub open spec fn topic_key_bytes() -> Seq<u8> {
    seq![
        0x2cu8, 0x22u8, 0x74u8, 0x6fu8, 0x70u8, 0x69u8, 0x63u8, 0x22u8, 0x3au8, 0x7bu8,
        0x22u8, 0x72u8, 0x6fu8, 0x6fu8, 0x74u8, 0x22u8, 0x3au8,
    ]
}

/// `,"deviceId":`
pub open spec fn device_key_bytes() -> Seq<u8> {
    seq![0x2cu8, 0x22u8, 0x64u8, 0x65u8, 0x76u8, 0x69u8, 0x63u8, 0x65u8, 0x49u8, 0x64u8, 0x22u8, 0x3au8]
}

/// `},"payload":{}}`
pub open spec fn tail_bytes() -> Seq<u8> {
    seq![
        0x7du8, 0x2cu8, 0x22u8, 0x70u8, 0x61u8, 0x79u8, 0x6cu8, 0x6fu8, 0x61u8, 0x64u8,
        0x22u8, 0x3au8, 0x7bu8, 0x7du8, 0x7du8,
    ]
}

/// The whole outbound message for the given envelope fields and topic.
pub open spec fn message_bytes(
    uuid: Seq<char>,
    api_token: Seq<char>,
    root: Seq<char>,
    device: Seq<char>,
) -> Seq<u8> {
    uuid_key_bytes() + quoted(uuid) + token_key_bytes() + quoted(api_token) + topic_key_bytes()
        + quoted(root) + device_key_bytes() + quoted(device) + tail_bytes()
}

/// Appends a quoted, escaped string to the output.
#[verifier::loop_isolation(false)]
fn push_quoted(out: &mut Vec<u8>, s: &str)
    ensures
        final(out)@ == old(out)@ + quoted(s@),
{
    out.push(0x22);
    let n = s.unicode_len();
    let mut i: usize = 0;
    while i < n
        invariant
            i <= n,
            n == s@.len(),
            out@ == old(out)@ + seq![0x22u8] + escape_str(s@.take(i as int)),
        decreases n - i,
    {
        let c = s.get_char(i);
        if c == '"' {
            out.push(0x5c);
            out.push(0x22);
        } else if c == '\\' {
            out.push(0x5c);
            out.push(0x5c);
        } else if c == '\u{0008}' {
            out.push(0x5c);
            out.push(0x62);
        } else if c == '\u{000c}' {
            out.push(0x5c);
            out.push(0x66);
        } else if c == '\n' {
            out.push(0x5c);
            out.push(0x6e);
        } else if c == '\r' {
            out.push(0x5c);
            out.push(0x72);
        } else if c == '\t' {
            out.push(0x5c);
            out.push(0x74);
        } else {
            let code: u32 = c as u32;
            let b: u8 = (code % 256) as u8;
            out.push(b);
        }
        proof {
            assert(s@.take(i + 1).drop_last() =~= s@.take(i as int));
            assert(s@.take(i + 1).last() == s@[i as int]);
            assert(out@ =~= old(out)@ + seq![0x22u8] + escape_str(s@.take(i + 1)));
        }
        i = i + 1;
    }
    out.push(0x22);
    proof {
        assert(s@.take(n as int) =~= s@);
        assert(out@ =~= old(out)@ + quoted(s@));
    }
}

#[verifier::rlimit(60)]
fn render_message(uuid: &str, api_token: &str, topic: &Topic) -> (r: Vec<u8>)
    ensures
        r@ == message_bytes(uuid@, api_token@, topic.root@, topic.device_id@),
{
    let mut out: Vec<u8> = Vec::new();
    out.push(0x7b);
    out.push(0x22);
    out.push(0x75);
    out.push(0x75);
    out.push(0x69);
    out.push(0x64);
    out.push(0x22);
    out.push(0x3a);
    proof {
        assert(out@ =~= uuid_key_bytes());
    }
    push_quoted(&mut out, uuid);
    out.push(0x2c);
    out.push(0x22);
    out.push(0x61);
    out.push(0x70);
    out.push(0x69);
    out.push(0x54);
    out.push(0x6f);
    out.push(0x6b);
    out.push(0x65);
    out.push(0x6e);
    out.push(0x22);
    out.push(0x3a);
    proof {
        assert(out@ =~= uuid_key_bytes() + quoted(uuid@) + token_key_bytes());
    }
    push_quoted(&mut out, api_token);
    out.push(0x2c);
    out.push(0x22);
    out.push(0x74);
    out.push(0x6f);
    out.push(0x70);
    out.push(0x69);
    out.push(0x63);
    out.push(0x22);
    out.push(0x3a);
    out.push(0x7b);
    out.push(0x22);
    out.push(0x72);
    out.push(0x6f);
    out.push(0x6f);
    out.push(0x74);
    out.push(0x22);
    out.push(0x3a);
    proof {
        assert(out@ =~= uuid_key_bytes() + quoted(uuid@) + token_key_bytes() + quoted(api_token@)
            + topic_key_bytes());
    }
    push_quoted(&mut out, topic.root.as_str());
    out.push(0x2c);
    out.push(0x22);
    out.push(0x64);
    out.push(0x65);
    out.push(0x76);
    out.push(0x69);
    out.push(0x63);
    out.push(0x65);
    out.push(0x49);
    out.push(0x64);
    out.push(0x22);
    out.push(0x3a);
    proof {
        assert(out@ =~= uuid_key_bytes() + quoted(uuid@) + token_key_bytes() + quoted(api_token@)
            + topic_key_bytes() + quoted(topic.root@) + device_key_bytes());
    }
    push_quoted(&mut out, topic.device_id.as_str());
    out.push(0x7d);
    out.push(0x2c);
    out.push(0x22);
    out.push(0x70);
    out.push(0x61);
    out.push(0x79);
    out.push(0x6c);
    out.push(0x6f);
    out.push(0x61);
    out.push(0x64);
    out.push(0x22);
    out.push(0x3a);
    out.push(0x7b);
    out.push(0x7d);
    out.push(0x7d);
    proof {
        assert(out@ =~= message_bytes(uuid@, api_token@, topic.root@, topic.device_id@));
    }
    out
}

/// Re-encodes a received body for the given topic: a body that decodes to a
/// well-formed envelope is rendered in the outbound message form; any other
/// body yields no bytes at all.
pub fn get_msg_byte(topic: &Topic, payload_str: &str) -> (r: Vec<u8>)
    ensures
        ({
            let b = payload_str.spec_bytes();
            if 0 < b.len() < MAX_BODY_LEN {
                match envelope_of(b) {
                    Option::Some(p) => r@ == message_bytes(
                        p.0,
                        p.1,
                        topic.root@,
                        topic.device_id@,
                    ),
                    Option::None => r@ == Seq::<u8>::empty(),
                }
            } else {
                r@ == Seq::<u8>::empty()
            }
        }),
{
    message_payload_to_bytes(payload_str, topic)
}

fn message_payload_to_bytes(payload_str: &str, topic: &Topic) -> (r: Vec<u8>)
    ensures
        ({
            let b = payload_str.spec_bytes();
            if 0 < b.len() < MAX_BODY_LEN {
                match envelope_of(b) {
                    Option::Some(p) => r@ == message_bytes(
                        p.0,
                        p.1,
                        topic.root@,
                        topic.device_id@,
                    ),
                    Option::None => r@ == Seq::<u8>::empty(),
                }
            } else {
                r@ == Seq::<u8>::empty()
            }
        }),
{
    let bytes = payload_str.as_bytes_vec();
    match decode(&bytes) {
        Result::Ok(nf) => render_message(nf.uuid.as_str(), nf.api_token.as_str(), topic),
        Result::Err(_) => {
            let r: Vec<u8> = Vec::new();
            proof {
                assert(r@ =~= Seq::<u8>::empty());
            }
            r
        },
    }
}

} // verus!
