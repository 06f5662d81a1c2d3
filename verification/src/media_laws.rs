//! What the negotiation of media tells and takes: answers are cut where they say, identifiers and
//! times keep what they were made of, and offers tell the stream that they are for.

use vstd::prelude::*;
use vstd::string::*;
use crate::error::VncError;
use crate::media_negotiation;
use crate::media_negotiation::AudioMediaFlow;
use crate::media_offer;
use crate::media_offer::{BandwidthSetting, MediaNegotiatorMode};
use crate::offer_list;
use crate::protobuf::Field;
use crate::text;

verus! {

/// What an answer begins with: the stream one, an empty rectangle, the encoding 0x3f2, its length,
/// version and kind two, two flags, the lengths of the three answers, and four zeros.
pub open spec fn answer_head(
    first_is_fast: bool,
    second_is_fast: bool,
    audio: int,
    first: int,
    second: int,
) -> Seq<u8> {
    let length = 18 + audio + first + second;
    let flags = (if first_is_fast {
        1int
    } else {
        0
    }) + (if second_is_fast {
        2int
    } else {
        0
    });
    seq![
        0u8,
        0,
        0,
        1,
        0,
        0,
        0,
        0,
        0,
        0,
        0,
        0,
        0,
        0,
        3,
        0xf2,
        (length / 256) as u8,
        (length % 256) as u8,
        0,
        2,
        0,
        2,
        0,
        0,
        0,
        flags as u8,
        (audio / 256) as u8,
        (audio % 256) as u8,
        (first / 256) as u8,
        (first % 256) as u8,
        (second / 256) as u8,
        (second % 256) as u8,
        0,
        0,
        0,
        0,
    ]
}

proof fn lemma_answer_head(
    frame: Seq<u8>,
    first_is_fast: bool,
    second_is_fast: bool,
    m: int,
    n: int,
    k: int,
)
    requires
        0 < m,
        0 < n,
        0 <= k,
        18 + m + n + k < 65536,
        frame.len() == 36 + m + n + k,
        frame.take(36) == answer_head(first_is_fast, second_is_fast, m, n, k),
    ensures
        media_negotiation::answer_head_refusal(frame) is None,
        crate::wire::be16(frame, 26) == m,
        crate::wire::be16(frame, 28) == n,
        crate::wire::be16(frame, 30) == k,
        crate::wire::be32(frame, 22) % 2 == 1 <==> first_is_fast,
        crate::wire::be32(frame, 22) / 2 == 1 <==> second_is_fast,
{
    let head = answer_head(first_is_fast, second_is_fast, m, n, k);
    assert forall|i: int| 0 <= i < 36 implies #[trigger] frame[i] == head[i] by {
        assert(frame.take(36)[i] == frame[i]);
    }
    assert(crate::wire::be32(frame, 0) == 1);
    assert(crate::wire::be32(frame, 12) == 0x3f2);
    assert(crate::wire::be16(frame, 16) == 18 + m + n + k);
    assert(crate::wire::be16(frame, 18) == 2 && crate::wire::be16(frame, 20) == 2);
    assert(crate::wire::be32(frame, 22) == frame[25]);
    assert(frame.subrange(4, 12) =~= seq![0u8, 0, 0, 0, 0, 0, 0, 0]);
    assert(frame.subrange(32, 36) =~= seq![0u8, 0, 0, 0]);
    assert(crate::wire_cursor::all_zero(frame.subrange(4, 12)));
    assert(crate::wire_cursor::all_zero(frame.subrange(32, 36)));
}

proof fn lemma_answer_parts(frame: Seq<u8>, first: int, second: int, third: int)
    requires
        media_negotiation::answer_head_refusal(frame) is None,
        first == 36 + crate::wire::be16(frame, 26),
        second == first + crate::wire::be16(frame, 28),
        third == second + crate::wire::be16(frame, 30),
    ensures
        ({
            let told = media_negotiation::answer_of(frame);
            let a = media_negotiation::container_answer(frame.subrange(36, first), "audio");
            let b = media_negotiation::container_answer(
                frame.subrange(first, second),
                "video stream 1",
            );
            let c = media_negotiation::container_answer(
                frame.subrange(second, third),
                "video stream 2",
            );
            &&& told is Ok <==> a is Ok && b is Ok && (third > second ==> c is Ok)
            &&& told matches Ok(view) ==> {
                &&& view.audio == a->Ok_0
                &&& view.video_stream_1 == b->Ok_0
                &&& view.video_stream_2 == (if third > second {
                    Some(c->Ok_0)
                } else {
                    None
                })
                &&& view.stream_1_supports_60_fps == (crate::wire::be32(frame, 22) % 2 == 1)
                &&& view.stream_2_supports_60_fps == (crate::wire::be32(frame, 22) / 2 == 1)
            }
        }),
{
}

/// Answers are cut out of their message where it says, the audio first and one behind the other, and
/// each is read as the answer of its own stream; the second video is there where its answer is not
/// empty. The message is taken just where all of them are.
pub proof fn law_answers_are_cut_apart(
    frame: Seq<u8>,
    first_is_fast: bool,
    second_is_fast: bool,
    audio: int,
    first: int,
    second: int,
)
    requires
        0 < audio,
        0 < first,
        0 <= second,
        18 + audio + first + second < 65536,
        frame.len() == 36 + audio + first + second,
        frame.take(36) == answer_head(first_is_fast, second_is_fast, audio, first, second),
    ensures
        ({
            let told = media_negotiation::answer_of(frame);
            let a = media_negotiation::container_answer(frame.subrange(36, 36 + audio), "audio");
            let b = media_negotiation::container_answer(
                frame.subrange(36 + audio, 36 + audio + first),
                "video stream 1",
            );
            let c = media_negotiation::container_answer(
                frame.subrange(36 + audio + first, 36 + audio + first + second),
                "video stream 2",
            );
            &&& told is Ok <==> a is Ok && b is Ok && (second > 0 ==> c is Ok)
            &&& told matches Ok(view) ==> {
                &&& view.audio == a->Ok_0
                &&& view.video_stream_1 == b->Ok_0
                &&& view.video_stream_2 == (if second > 0 {
                    Some(c->Ok_0)
                } else {
                    None
                })
                &&& view.stream_1_supports_60_fps == first_is_fast
                &&& view.stream_2_supports_60_fps == second_is_fast
            }
        }),
{
    lemma_answer_head(frame, first_is_fast, second_is_fast, audio, first, second);
    lemma_answer_parts(
        frame,
        36 + audio,
        36 + audio + first,
        36 + audio + first + second,
    );
}

/// What came of decompressing an answer is its message just where the whole answer was used up, the
/// message is within the budget of 1,048,576 bytes, and it is one; it is then the front of the output.
pub proof fn law_inflated_message(
    compressed: Seq<u8>,
    finished: bool,
    total_in: u64,
    total_out: u64,
    output: Seq<u8>,
    role: &'static str,
)
    requires
        total_out <= output.len(),
    ensures
        media_negotiation::inflated_answer(
            compressed,
            Some((finished, total_in, total_out, output)),
            role,
        ) is Ok <==> finished && total_in == compressed.len() && total_out <= 1_048_576
            && crate::protobuf::message_refusal(output.take(total_out as int)) is None,
        media_negotiation::inflated_answer(
            compressed,
            Some((finished, total_in, total_out, output)),
            role,
        ) matches Ok(read) ==> read.0 == compressed && read.1.len() == total_out && read.1
            =~= output.subrange(0, total_out as int),
        media_negotiation::inflated_answer(compressed, None, role) is Err,
{
}

/// The value of a key is that of the first entry that has it, and there is none just where no entry
/// has it.
pub proof fn law_value_of_a_key(entries: Seq<(Seq<u8>, Seq<u8>)>, key: Seq<u8>, start: int, i: int)
    requires
        0 <= start <= i < entries.len(),
        entries[i].0 == key,
        forall|k: int| start <= k < i ==> (#[trigger] entries[k]).0 != key,
    ensures
        media_negotiation::value_from(entries, key, start) == Some(entries[i].1),
        media_negotiation::value_from(entries, key, entries.len() as int) is None,
    decreases i - start,
{
    if start < i {
        assert(entries[start].0 != key);
        law_value_of_a_key(entries, key, start + 1, i);
    }
}

/// An identifier of the random kind keeps all bits that were drawn but the six that tell its kind.
pub proof fn law_marks_keep_the_drawn_bits(random: Seq<u8>, i: int)
    requires
        random.len() == 16,
        0 <= i < 16,
    ensures
        ({
            let uuid = media_negotiation::marked(random);
            &&& uuid.len() == 16
            &&& i != 6 && i != 8 ==> uuid[i] == random[i]
            &&& uuid[6] % 16 == random[6] % 16
            &&& uuid[6] / 16 == 4
            &&& uuid[8] % 64 == random[8] % 64
            &&& uuid[8] / 64 == 2
        }),
{
}

/// The network time counts the seconds since 1900 in its upper half, 2,208,988,800 more than since
/// 1970, and in its lower half the part of a second in steps of its 2^32nd part, rounded down; it can
/// be told until the upper half is used up.
pub proof fn law_network_time(seconds: u64, nanos: u32)
    requires
        nanos < 1_000_000_000,
    ensures
        media_negotiation::ntp_time_of(seconds, nanos) is Ok <==> seconds + 2_208_988_800
            < 0x1_0000_0000,
        media_negotiation::ntp_time_of(seconds, nanos) matches Ok(time) ==> {
            let part = time as int % 0x1_0000_0000;
            &&& time as int / 0x1_0000_0000 == seconds + 2_208_988_800
            &&& part * 1_000_000_000 <= nanos * 0x1_0000_0000
            &&& nanos * 0x1_0000_0000 < (part + 1) * 1_000_000_000
        },
{
    let since = seconds + 2_208_988_800;
    let part = nanos as int * 0x1_0000_0000 / 1_000_000_000;
    assert(0 <= part < 0x1_0000_0000);
    if since < 0x1_0000_0000 {
        let time = since * 0x1_0000_0000 + part;
        assert(time / 0x1_0000_0000 == since && time % 0x1_0000_0000 == part);
    }
}

/// The first field of a number, from the `i`-th on.
pub open spec fn told(fields: Seq<Field>, number: u32, i: int) -> Option<Field>
    decreases fields.len() - i,
{
    if i >= fields.len() {
        None
    } else {
        match fields[i] {
            Field::Number(n, _) => if n == number {
                Some(fields[i])
            } else {
                told(fields, number, i + 1)
            },
            Field::Bytes(n, _) => if n == number {
                Some(fields[i])
            } else {
                told(fields, number, i + 1)
            },
        }
    }
}

/// The settings of a stream tell its number in their first field, and nothing else in them depends on
/// it; a bandwidth tells its configuration, its greatest rate and, where it has one, its extension.
pub proof fn law_settings_tell_the_stream(ssrc: u32, other: u32, setting: BandwidthSetting, i: int)
    ensures
        told(media_offer::audio_settings(ssrc), 1, 0) == Some(Field::Number(1, ssrc as u64)),
        told(media_offer::video_settings(ssrc), 1, 0) == Some(Field::Number(1, ssrc as u64)),
        media_offer::audio_settings(ssrc).len() == media_offer::audio_settings(other).len(),
        media_offer::video_settings(ssrc).len() == media_offer::video_settings(other).len(),
        1 <= i < media_offer::audio_settings(ssrc).len() ==> media_offer::audio_settings(ssrc)[i]
            == media_offer::audio_settings(other)[i],
        1 <= i < media_offer::video_settings(ssrc).len() ==> media_offer::video_settings(ssrc)[i]
            == media_offer::video_settings(other)[i],
        told(media_offer::bandwidth_fields(setting), 1, 0) == Some(
            Field::Number(1, setting.configuration),
        ),
        told(media_offer::bandwidth_fields(setting), 2, 0) == Some(
            Field::Number(2, setting.maximum),
        ),
        told(media_offer::bandwidth_fields(setting), 3, 0) == (
        match setting.configuration_extension {
            Some(extension) => Some(Field::Number(3, extension)),
            None => None,
        }),
{
    reveal_with_fuel(told, 4);
}

/// A payload tells its type first and its features and parameters last, and between them a rule for
/// every operation, in their order.
pub proof fn law_payload_tells_its_rules(
    payload_type: u64,
    operations: Seq<u64>,
    features: Seq<u8>,
    parameters: u64,
    i: int,
)
    requires
        0 <= i < operations.len(),
    ensures
        ({
            let fields = media_offer::payload_fields(payload_type, operations, features, parameters);
            let n = operations.len() as int;
            &&& fields.len() == n + 3
            &&& fields[0] == Field::Number(1, payload_type)
            &&& fields[1 + i] == Field::Bytes(
                2,
                crate::protobuf::message(media_offer::rule_fields(operations[i])),
            )
            &&& fields[n + 1] == Field::Bytes(3, features)
            &&& fields[n + 2] == Field::Number(4, parameters)
        }),
        told(media_offer::rule_fields(operations[i]), 2, 0) == Some(
            Field::Number(2, operations[i]),
        ),
{
    reveal_with_fuel(told, 3);
}

/// An offer holds the settings of its own stream, audio in field 3 and video in field 5 and never
/// both, and tells the time in field 13; the modes are 8, 4 and 5, and the sound of the Mac and a
/// microphone have each their own.
pub proof fn law_offers_hold_their_settings(
    mode: MediaNegotiatorMode,
    ssrc: u32,
    time: u64,
    flow: AudioMediaFlow,
)
    ensures
        ({
            let fields = media_offer::offer_fields(mode, ssrc, time);
            &&& mode == MediaNegotiatorMode::Video ==> fields[2] == Field::Bytes(
                5,
                crate::protobuf::message(media_offer::video_settings(ssrc)),
            )
            &&& mode != MediaNegotiatorMode::Video ==> fields[2] == Field::Bytes(
                3,
                crate::protobuf::message(media_offer::audio_settings(ssrc)),
            )
            &&& fields.len() == 18
            &&& fields[15] == Field::Number(13, time)
            &&& told(fields, 13, 15) == Some(Field::Number(13, time))
        }),
        mode.number() == (match mode {
            MediaNegotiatorMode::Audio => 8u8,
            MediaNegotiatorMode::RemoteMicrophone => 4,
            MediaNegotiatorMode::Video => 5,
        }),
        media_negotiation::flow_mode(flow) != MediaNegotiatorMode::Video,
        media_negotiation::flow_mode(flow) == MediaNegotiatorMode::RemoteMicrophone <==> flow
            == AudioMediaFlow::PcToMac,
{
    reveal_with_fuel(told, 2);
}

/// Where the digits of a byte of an identifier begin in its text: two for every byte before it, and a
/// hyphen before the fifth, the seventh, the ninth and the eleventh.
pub open spec fn digits_start(i: int) -> int {
    2 * i + (if i >= 4 {
        1int
    } else {
        0
    }) + (if i >= 6 {
        1int
    } else {
        0
    }) + (if i >= 8 {
        1int
    } else {
        0
    }) + (if i >= 10 {
        1int
    } else {
        0
    })
}

proof fn lemma_uuid_text(uuid: Seq<u8>, n: int, i: int)
    requires
        0 <= i < n <= 16,
    ensures
        offer_list::uuid_chars(uuid, n).len() == digits_start(n - 1) + 2,
        offer_list::uuid_chars(uuid, n).subrange(digits_start(i), digits_start(i) + 2)
            == text::upper_hex_byte(uuid[i]),
        n > 4 ==> offer_list::uuid_chars(uuid, n)[8] == '-',
        n > 6 ==> offer_list::uuid_chars(uuid, n)[13] == '-',
        n > 8 ==> offer_list::uuid_chars(uuid, n)[18] == '-',
        n > 10 ==> offer_list::uuid_chars(uuid, n)[23] == '-',
    decreases n,
{
    reveal_strlit("-");
    reveal_with_fuel(offer_list::uuid_chars, 2);
    let whole = offer_list::uuid_chars(uuid, n);
    let last = text::upper_hex_byte(uuid[n - 1]);
    if n > 1 {
        let before = offer_list::uuid_chars(uuid, n - 1);
        if i < n - 1 {
            lemma_uuid_text(uuid, n - 1, i);
            assert(whole.subrange(digits_start(i), digits_start(i) + 2) =~= before.subrange(
                digits_start(i),
                digits_start(i) + 2,
            ));
        } else {
            lemma_uuid_text(uuid, n - 1, 0);
            assert(whole.subrange(digits_start(i), digits_start(i) + 2) =~= last);
        }
    } else {
        assert(whole.subrange(0, 2) =~= last);
    }
}

/// The text of an identifier writes every byte in its order, in groups of four, two, two, two and six
/// with hyphens between them: thirty-six characters from which it can be read back.
pub proof fn law_identifier_is_read_back(uuid: Seq<u8>, i: int)
    requires
        uuid.len() == 16,
        0 <= i < 16,
    ensures
        offer_list::uuid_chars(uuid, 16).len() == 36,
        text::number_written(
            offer_list::uuid_chars(uuid, 16).subrange(digits_start(i), digits_start(i) + 2),
            16,
        ) == uuid[i],
        offer_list::uuid_chars(uuid, 16)[8] == '-',
        offer_list::uuid_chars(uuid, 16)[13] == '-',
        offer_list::uuid_chars(uuid, 16)[18] == '-',
        offer_list::uuid_chars(uuid, 16)[23] == '-',
{
    lemma_uuid_text(uuid, 16, i);
    text::law_hexadecimal_is_read_back(0, 0, uuid[i]);
}

} // verus!
