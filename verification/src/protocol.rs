//! The line-oriented pub/sub wire protocol: parsing and dispatch.
//!
//! Each received line is split into at most three space-delimited fields —
//! command, topic, and rest-of-line — so that a payload may itself contain
//! spaces. Command matching is case-insensitive.

use vstd::prelude::*;
use crate::broker::Broker;
use crate::topic::Message;

verus! {

/// Whether `c` is an ASCII lowercase letter.
pub open spec fn is_ascii_lower(c: char) -> bool {
    'a' <= c && c <= 'z'
}

/// ASCII case folding to uppercase: lowercase letters are shifted into the
/// uppercase range and every other character is left as it is.
pub open spec fn upper_char(c: char) -> char {
    if is_ascii_lower(c) {
        ((c as u8) - 32) as char
    } else {
        c
    }
}

/// `s` folded to uppercase character by character.
pub open spec fn seq_upper(s: Seq<char>) -> Seq<char> {
    Seq::new(s.len(), |i: int| upper_char(s[i]))
}

/// Folds one character to ASCII uppercase.
fn to_upper(c: char) -> (r: char)
    ensures
        r == upper_char(c),
{
    if 'a' <= c && c <= 'z' {
        ((c as u8) - 32) as char
    } else {
        c
    }
}

/// Compares two string slices ignoring ASCII case.
pub fn eq_ignore_case(a: &str, b: &str) -> (r: bool)
    ensures
        r == (seq_upper(a@) == seq_upper(b@)),
{
    let alen = a.unicode_len();
    let blen = b.unicode_len();
    if alen != blen {
        proof {
            assert(seq_upper(a@).len() != seq_upper(b@).len());
        }
        return false;
    }
    for i in 0..alen
        invariant
            alen == a@.len(),
            blen == b@.len(),
            alen == blen,
            forall|j: int| 0 <= j < i ==> upper_char(a@[j]) == upper_char(b@[j]),
    {
        if to_upper(a.get_char(i)) != to_upper(b.get_char(i)) {
            proof {
                assert(seq_upper(a@)[i as int] != seq_upper(b@)[i as int]);
            }
            return false;
        }
    }
    proof {
        assert(seq_upper(a@) =~= seq_upper(b@));
    }
    true
}

/// The position of the first occurrence of `c` in `s`, if any.
pub open spec fn find_char(s: Seq<char>, c: char) -> Option<int>
    decreases s.len(),
{
    if s.len() == 0 {
        None
    } else if s[0] == c {
        Some(0)
    } else {
        match find_char(s.skip(1), c) {
            None => None,
            Some(i) => Some(i + 1),
        }
    }
}

/// `find_char` returns exactly the least position holding `c`.
proof fn lemma_find_char_at(s: Seq<char>, c: char, i: int)
    requires
        0 <= i < s.len(),
        s[i] == c,
        forall|j: int| 0 <= j < i ==> s[j] != c,
    ensures
        find_char(s, c) == Some(i),
    decreases i,
{
    if i > 0 {
        lemma_find_char_at(s.skip(1), c, i - 1);
    }
}

/// Where `c` does not occur, `find_char` finds nothing.
proof fn lemma_find_char_none(s: Seq<char>, c: char)
    requires
        forall|j: int| 0 <= j < s.len() ==> s[j] != c,
    ensures
        find_char(s, c) is None,
    decreases s.len(),
{
    if s.len() > 0 {
        lemma_find_char_none(s.skip(1), c);
    }
}

/// Finds the first occurrence of `c` in `s`.
fn find_first(s: &str, c: char) -> (r: Option<usize>)
    ensures
        match r {
            Some(i) => i < s@.len() && find_char(s@, c) == Some(i as int),
            None => find_char(s@, c) is None,
        },
{
    let n = s.unicode_len();
    for i in 0..n
        invariant
            n == s@.len(),
            forall|j: int| 0 <= j < i ==> s@[j] != c,
    {
        if s.get_char(i) == c {
            proof {
                lemma_find_char_at(s@, c, i as int);
            }
            return Some(i);
        }
    }
    proof {
        lemma_find_char_none(s@, c);
    }
    None
}

/// Splitting a line into at most three space-delimited fields: the command,
/// the topic, and the rest of the line. The rest keeps embedded spaces, so a
/// payload is never corrupted by containing the delimiter. A missing field is
/// empty, and consecutive delimiters yield empty fields, as a bounded
/// `splitn` on a single space does.
pub open spec fn spec_split3(s: Seq<char>) -> (Seq<char>, Seq<char>, Seq<char>) {
    match find_char(s, ' ') {
        None => (s, Seq::<char>::empty(), Seq::<char>::empty()),
        Some(i) => {
            let rest = s.skip(i + 1);
            match find_char(rest, ' ') {
                None => (s.take(i), rest, Seq::<char>::empty()),
                Some(j) => (s.take(i), rest.take(j), rest.skip(j + 1)),
            }
        }
    }
}

/// Splits a line into command, topic, and rest-of-line on the first two
/// single spaces; missing fields come back empty.
pub fn split3<'a>(line: &'a str) -> (r: (&'a str, &'a str, &'a str))
    ensures
        (r.0@, r.1@, r.2@) == spec_split3(line@),
{
    let n = line.unicode_len();
    proof {
        reveal_strlit("");
        assert(""@ =~= Seq::<char>::empty());
    }
    match find_first(line, ' ') {
        None => (line, "", ""),
        Some(i) => {
            let cmd = line.substring_char(0, i);
            let rest = line.substring_char(i + 1, n);
            proof {
                assert(cmd@ =~= line@.take(i as int));
                assert(rest@ =~= line@.skip(i + 1));
            }
            match find_first(rest, ' ') {
                None => (cmd, rest, ""),
                Some(j) => {
                    let m = rest.unicode_len();
                    let topic = rest.substring_char(0, j);
                    let payload = rest.substring_char(j + 1, m);
                    proof {
                        assert(topic@ =~= rest@.take(j as int));
                        assert(payload@ =~= rest@.skip(j + 1));
                    }
                    (cmd, topic, payload)
                }
            }
        }
    }
}

/// The line a producer formats for `PUBLISH` parses back into exactly the
/// publish verb, the same topic, and the same payload — even a payload with
/// embedded spaces — provided the topic is non-empty and itself space-free.
/// This is the round trip behind an end-to-end publish.
pub proof fn lemma_publish_command_parses(topic: Seq<char>, payload: Seq<char>)
    requires
        topic.len() > 0,
        forall|i: int| 0 <= i < topic.len() ==> topic[i] != ' ',
        payload.len() > 0,
    ensures
        spec_split3("PUBLISH "@ + topic + " "@ + payload) == ("PUBLISH"@, topic, payload),
{
    reveal_strlit("PUBLISH ");
    reveal_strlit("PUBLISH");
    reveal_strlit(" ");
    let line = "PUBLISH "@ + topic + " "@ + payload;
    assert(line.len() == 8 + topic.len() + 1 + payload.len());
    assert(line[7] == ' ');
    assert(forall|j: int| 0 <= j < 7 ==> line[j] == "PUBLISH "@[j]);
    assert(forall|j: int| 0 <= j < 7 ==> line[j] != ' ');
    lemma_find_char_at(line, ' ', 7);
    let rest = line.skip(8);
    assert(rest =~= topic + " "@ + payload);
    assert(rest[topic.len() as int] == ' ');
    assert(forall|j: int| 0 <= j < topic.len() ==> rest[j] == topic[j]);
    lemma_find_char_at(rest, ' ', topic.len() as int);
    assert(line.take(7) =~= "PUBLISH"@);
    assert(rest.take(topic.len() as int) =~= topic);
    assert(rest.skip(topic.len() as int + 1) =~= payload);
}

/// Whether `c` is a decimal digit.
pub open spec fn is_digit(c: char) -> bool {
    '0' <= c && c <= '9'
}

/// The numeric value of the digit `c`.
pub open spec fn digit_val(c: char) -> int {
    (c as int) - ('0' as int)
}

/// Whether `s` consists of decimal digits only.
pub open spec fn all_digits(s: Seq<char>) -> bool {
    forall|i: int| 0 <= i < s.len() ==> is_digit(#[trigger] s[i])
}

/// The value of `s` read as a decimal numeral.
pub open spec fn dec_value(s: Seq<char>) -> int
    decreases s.len(),
{
    if s.len() == 0 {
        0
    } else {
        dec_value(s.drop_last()) * 10 + digit_val(s.last())
    }
}

/// Whether `s` is a well-formed offset numeral: non-empty, digits only, and
/// within the machine's offset range.
pub open spec fn parses_as_offset(s: Seq<char>) -> bool {
    s.len() > 0 && all_digits(s) && dec_value(s) <= usize::MAX
}

/// The offset denoted by the field `s`: its decimal value where `s` is a
/// well-formed offset numeral, and the default 0 where it is absent or
/// unparsable.
pub open spec fn spec_parse_offset(s: Seq<char>) -> int {
    if parses_as_offset(s) {
        dec_value(s)
    } else {
        0
    }
}

proof fn lemma_dec_value_nonneg(s: Seq<char>)
    requires
        all_digits(s),
    ensures
        dec_value(s) >= 0,
    decreases s.len(),
{
    if s.len() > 0 {
        assert(all_digits(s.drop_last()));
        lemma_dec_value_nonneg(s.drop_last());
    }
}

proof fn lemma_dec_value_prefix_le(s: Seq<char>, k: int)
    requires
        all_digits(s),
        0 <= k <= s.len(),
    ensures
        dec_value(s) >= dec_value(s.take(k)),
    decreases s.len() - k,
{
    if k == s.len() {
        assert(s.take(k) =~= s);
    } else {
        lemma_dec_value_prefix_le(s, k + 1);
        assert(s.take(k + 1).drop_last() =~= s.take(k));
        assert(s.take(k + 1).last() == s[k]);
        assert(all_digits(s.take(k)));
        lemma_dec_value_nonneg(s.take(k));
        assert(dec_value(s.take(k + 1)) == dec_value(s.take(k)) * 10 + digit_val(s[k]));
    }
}

/// Reads a subscribe offset: the decimal value of `s`, or the default 0 when
/// `s` is empty, holds a non-digit, or names a value too large for an offset.
pub fn parse_offset(s: &str) -> (r: usize)
    ensures
        r == spec_parse_offset(s@),
{
    let n = s.unicode_len();
    if n == 0 {
        return 0;
    }
    let mut acc: usize = 0;
    for i in 0..n
        invariant
            n == s@.len(),
            n > 0,
            forall|j: int| 0 <= j < i ==> is_digit(#[trigger] s@[j]),
            acc == dec_value(s@.take(i as int)),
    {
        let c = s.get_char(i);
        if !('0' <= c && c <= '9') {
            assert(!all_digits(s@));
            return 0;
        }
        let d: usize = ((c as u8) - 48) as usize;
        proof {
            assert(d == digit_val(s@[i as int]));
            assert(s@.take(i + 1).drop_last() =~= s@.take(i as int));
            assert(s@.take(i + 1).last() == s@[i as int]);
        }
        if acc > (usize::MAX - d) / 10 {
            proof {
                vstd::arithmetic::div_mod::lemma_fundamental_div_mod(
                    (usize::MAX - d) as int,
                    10,
                );
                assert(acc * 10 + d > usize::MAX);
                if all_digits(s@) {
                    assert(dec_value(s@.take(i + 1)) > usize::MAX);
                    lemma_dec_value_prefix_le(s@, i + 1);
                }
            }
            return 0;
        }
        acc = acc * 10 + d;
    }
    proof {
        assert(s@.take(n as int) =~= s@);
        assert(parses_as_offset(s@));
    }
    acc
}

/// Whether `c` is ASCII whitespace.
pub open spec fn is_ws(c: char) -> bool {
    c == ' ' || c == '\t' || c == '\r' || c == '\n'
}

/// Whether a received line is blank — empty or ASCII whitespace only — and
/// so carries no message for a consumer to deliver.
pub open spec fn spec_is_blank(s: Seq<char>) -> bool {
    forall|i: int| 0 <= i < s.len() ==> is_ws(#[trigger] s[i])
}

/// Tells a blank line from one that carries a message.
pub fn line_is_blank(s: &str) -> (r: bool)
    ensures
        r == spec_is_blank(s@),
{
    let n = s.unicode_len();
    for i in 0..n
        invariant
            n == s@.len(),
            forall|j: int| 0 <= j < i ==> is_ws(#[trigger] s@[j]),
    {
        let c = s.get_char(i);
        if !(c == ' ' || c == '\t' || c == '\r' || c == '\n') {
            return false;
        }
    }
    true
}

/// One line written back to the client in answer to a command.
pub enum Response {
    /// One matched message: `[<offset>] <topic> <payload>` on the wire.
    Message { offset: usize, topic: String, payload: String },
    /// The answer to a malformed publish: `Error: Invalid PUBLISH command`.
    InvalidPublish,
    /// The answer to an unrecognized verb: `Unknown command`.
    UnknownCommand,
}

/// Whether `r` reports the message `m` of the topic named `t`.
pub open spec fn resp_is_message(r: Response, m: Message, t: Seq<char>) -> bool {
    match r {
        Response::Message { offset, topic, payload } => {
            &&& offset == m.offset
            &&& topic@ == t
            &&& payload@ == m.payload@
        },
        _ => false,
    }
}

/// Whether the command field names the publish command, in any case.
pub open spec fn is_publish_verb(cmd: Seq<char>) -> bool {
    seq_upper(cmd) == "PUBLISH"@
}

/// Whether the command field names the consume command, in any case. Both
/// verbs drive the same one-shot snapshot poll.
pub open spec fn is_consume_verb(cmd: Seq<char>) -> bool {
    seq_upper(cmd) == "SUBSCRIBE"@ || seq_upper(cmd) == "CONSUME"@
}

proof fn lemma_verb_literals()
    ensures
        seq_upper("PUBLISH"@) == "PUBLISH"@,
        seq_upper("SUBSCRIBE"@) == "SUBSCRIBE"@,
        seq_upper("CONSUME"@) == "CONSUME"@,
        "PUBLISH"@ != "SUBSCRIBE"@,
        "PUBLISH"@ != "CONSUME"@,
        "SUBSCRIBE"@ != "CONSUME"@,
{
    reveal_strlit("PUBLISH");
    reveal_strlit("SUBSCRIBE");
    reveal_strlit("CONSUME");
    assert(seq_upper("PUBLISH"@) =~= "PUBLISH"@);
    assert(seq_upper("SUBSCRIBE"@) =~= "SUBSCRIBE"@);
    assert(seq_upper("CONSUME"@) =~= "CONSUME"@);
    assert("PUBLISH"@[0] != "CONSUME"@[0]);
    assert("PUBLISH"@.len() != "SUBSCRIBE"@.len());
    assert("SUBSCRIBE"@.len() != "CONSUME"@.len());
}

/// Drives one received line through the protocol state machine against the
/// broker's registry and returns the response lines owed to the client.
///
/// A well-formed publish appends its payload to the named topic, creating the
/// topic if need be, and owes no response. A malformed publish — empty topic
/// or empty payload — changes nothing and owes exactly one error response. A
/// consume reads the named topic's backlog from the requested offset and owes
/// one response per matched message, in offset order; an unknown topic owes
/// none and creates nothing. Any other verb owes one unknown-command
/// response. No command closes the connection or touches any other topic.
pub fn handle_line(broker: &mut Broker, line: &str) -> (resp: Vec<Response>)
    requires
        old(broker).wf(),
        old(broker).topics@.len() < usize::MAX,
        forall|i: int|
            0 <= i < old(broker).topics@.len()
                ==> (#[trigger] old(broker).topics@[i]).messages@.len() < usize::MAX,
    ensures
        final(broker).wf(),
        ({
            let (cmd, topic, payload) = spec_split3(line@);
            &&& (is_publish_verb(cmd) && (topic.len() == 0 || payload.len() == 0)) ==> {
                &&& *final(broker) == *old(broker)
                &&& resp@.len() == 1
                &&& resp@[0] is InvalidPublish
            }
            &&& (is_publish_verb(cmd) && topic.len() > 0 && payload.len() > 0) ==> {
                &&& resp@.len() == 0
                &&& final(broker).has_topic(topic)
                &&& ({
                    let i = final(broker).topic_index(topic);
                    &&& old(broker).has_topic(topic) ==> {
                        &&& i == old(broker).topic_index(topic)
                        &&& final(broker).topics@.len() == old(broker).topics@.len()
                        &&& final(broker).topics@[i].messages@.len() == old(broker).topics@[i].messages@.len() + 1
                        &&& final(broker).topics@[i].messages@.take(
                            old(broker).topics@[i].messages@.len() as int,
                        ) == old(broker).topics@[i].messages@
                        &&& final(broker).topics@[i].messages@.last().payload@ == payload
                        &&& final(broker).topics@[i].messages@.last().offset
                            == old(broker).topics@[i].messages@.len()
                    }
                    &&& !old(broker).has_topic(topic) ==> {
                        &&& i == old(broker).topics@.len()
                        &&& final(broker).topics@.len() == old(broker).topics@.len() + 1
                        &&& final(broker).topics@[i].messages@.len() == 1
                        &&& final(broker).topics@[i].messages@[0].payload@ == payload
                        &&& final(broker).topics@[i].messages@[0].offset == 0
                    }
                    &&& forall|j: int|
                        0 <= j < final(broker).topics@.len() && j != i
                            ==> final(broker).topics@[j] == old(broker).topics@[j]
                })
            }
            &&& is_consume_verb(cmd) ==> {
                &&& *final(broker) == *old(broker)
                &&& ({
                    let k = spec_parse_offset(payload);
                    if old(broker).has_topic(topic) {
                        let msgs =
                            old(broker).topics@[old(broker).topic_index(topic)].messages@;
                        let start = if k <= msgs.len() { k } else { msgs.len() as int };
                        &&& resp@.len() == msgs.len() - start
                        &&& forall|i: int|
                            0 <= i < resp@.len()
                                ==> resp_is_message(#[trigger] resp@[i], msgs[start + i], topic)
                    } else {
                        resp@.len() == 0
                    }
                })
            }
            &&& (!is_publish_verb(cmd) && !is_consume_verb(cmd)) ==> {
                &&& *final(broker) == *old(broker)
                &&& resp@.len() == 1
                &&& resp@[0] is UnknownCommand
            }
        }),
{
    proof {
        lemma_verb_literals();
    }
    let (cmd, topic, payload) = split3(line);
    let mut resp: Vec<Response> = Vec::new();
    if eq_ignore_case(cmd, "PUBLISH") {
        if topic.is_empty() || payload.is_empty() {
            resp.push(Response::InvalidPublish);
        } else {
            let ghost pre = *broker;
            let _ = broker.publish_message(topic, payload.to_owned());
            proof {
                let i = final(broker).topic_index(topic@);
                if pre.has_topic(topic@) {
                    assert(final(broker).topics@[i].messages@.take(
                        pre.topics@[i].messages@.len() as int,
                    ) =~= pre.topics@[i].messages@);
                }
            }
        }
    } else if eq_ignore_case(cmd, "SUBSCRIBE") || eq_ignore_case(cmd, "CONSUME") {
        let k = parse_offset(payload);
        match broker.lookup(topic) {
            Some(idx) => {
                let ghost stored = broker.topics@[idx as int].messages@;
                let msgs = broker.topics[idx].consume(k);
                let n = msgs.len();
                proof {
                    let ks = spec_parse_offset(payload@);
                    let start = if ks <= stored.len() { ks } else { stored.len() as int };
                    if k <= stored.len() {
                        assert(msgs@ == stored.skip(start));
                    } else {
                        assert(n == 0);
                    }
                }
                for i in 0..n
                    invariant
                        n == msgs@.len(),
                        resp@.len() == i,
                        forall|j: int|
                            0 <= j < i
                                ==> resp_is_message(#[trigger] resp@[j], msgs@[j], topic@),
                {
                    resp.push(
                        Response::Message {
                            offset: msgs[i].offset,
                            topic: topic.to_owned(),
                            payload: msgs[i].payload.clone(),
                        },
                    );
                }
            }
            None => {}
        }
    } else {
        resp.push(Response::UnknownCommand);
    }
    resp
}

} // verus!
