use vstd::prelude::*;
use vstd::string::{StringExecFns, StrSliceExecFns};
use crate::text::{is_digit, digit_run, digits_val, dec_digits, all_digits, digits_value,
    scan_digit_run, u64_to_string, lemma_digit_run_props, lemma_digit_run_exact,
    lemma_digits_val_bound, lemma_pow10_monotone, lemma_pow10_18, lemma_dec_digits_props,
    lemma_dec_digits_len};
use crate::user::str_eq;

verus! {

/// A platform-native message coordinate: a container (group) identifier and a
/// sequence number, carried opaquely as one string between components.
pub struct GroupMessageId {
    pub group_id: u64,
    pub seqs: u64,
}

/// The encoded form of a coordinate: the group id's decimal digits, a
/// separator bar, and the sequence number's decimal digits.
pub open spec fn gmid_encoding(group_id: int, seqs: int) -> Seq<char> {
    dec_digits(group_id) + seq!['|'] + dec_digits(seqs)
}

/// Text of the shape digits, bar, digits, with each digit group short enough
/// for its value to fit the coordinate type.
pub open spec fn gmid_shape(s: Seq<char>) -> bool {
    let l1 = digit_run(s, 0);
    let l2 = digit_run(s, l1 + 1);
    &&& 1 <= l1 <= 18
    &&& l1 < s.len()
    &&& s[l1] == '|'
    &&& 1 <= l2 <= 18
    &&& l1 + 1 + l2 == s.len()
}

impl GroupMessageId {
    /// Encodes the coordinate into its single-string form.
    pub fn encode(&self) -> (r: String)
        ensures
            r@ == gmid_encoding(self.group_id as int, self.seqs as int),
    {
        proof {
            reveal_strlit("|");
        }
        let mut r = u64_to_string(self.group_id);
        r.append("|");
        let t = u64_to_string(self.seqs);
        r.append(t.as_str());
        proof {
            assert(r@ =~= gmid_encoding(self.group_id as int, self.seqs as int));
        }
        r
    }

    /// Decodes a single-string coordinate back into its parts; text of any
    /// other shape is rejected.
    pub fn decode(s: &str) -> (r: Option<GroupMessageId>)
        ensures
            (match r {
                Some(g) => gmid_shape(s@) && g.group_id == digits_val(
                    s@.subrange(0, digit_run(s@, 0)),
                ) && g.seqs == digits_val(
                    s@.subrange(digit_run(s@, 0) + 1, s@.len() as int),
                ),
                None => !gmid_shape(s@),
            }),
    {
        let n = s.unicode_len();
        let l1 = scan_digit_run(s, n, 0);
        if l1 < 1 || l1 > 18 || l1 >= n {
            return None;
        }
        if s.get_char(l1) != '|' {
            return None;
        }
        let l2 = scan_digit_run(s, n, l1 + 1);
        if l2 < 1 || l2 > 18 || l1 + 1 + l2 != n {
            return None;
        }
        proof {
            lemma_digit_run_props(s@, 0);
            lemma_digit_run_props(s@, l1 as int + 1);
            lemma_digits_val_bound(s@.subrange(0, l1 as int));
            lemma_digits_val_bound(s@.subrange(l1 as int + 1, n as int));
            lemma_pow10_monotone(l1 as nat, 18);
            lemma_pow10_monotone(l2 as nat, 18);
            lemma_pow10_18();
        }
        let group_id = digits_value(s, n, 0, l1);
        let seqs = digits_value(s, n, l1 + 1, l2);
        Some(GroupMessageId { group_id, seqs })
    }
}

/// Law: decoding an encoded coordinate recovers both parts exactly, for every
/// coordinate whose parts the digit groups can carry.
pub proof fn lemma_gmid_round_trip(group_id: int, seqs: int)
    requires
        0 <= group_id < 1000000000000000000,
        0 <= seqs < 1000000000000000000,
    ensures
        ({
            let s = gmid_encoding(group_id, seqs);
            gmid_shape(s) && digits_val(s.subrange(0, digit_run(s, 0))) == group_id && digits_val(
                s.subrange(digit_run(s, 0) + 1, s.len() as int),
            ) == seqs
        }),
{
    let s = gmid_encoding(group_id, seqs);
    let d1 = dec_digits(group_id);
    let d2 = dec_digits(seqs);
    lemma_dec_digits_props(group_id);
    lemma_dec_digits_props(seqs);
    lemma_pow10_18();
    lemma_dec_digits_len(group_id, 18);
    lemma_dec_digits_len(seqs, 18);
    let l1 = d1.len() as int;
    let l2 = d2.len() as int;
    assert(s.len() == l1 + 1 + l2);
    assert(forall|t: int| 0 <= t < l1 ==> s[t] == d1[t]);
    assert(s[l1] == '|');
    assert(forall|t: int| l1 + 1 <= t < s.len() ==> s[t] == d2[t - (l1 + 1)]);
    assert forall|t: int| 0 <= t < l1 implies is_digit(#[trigger] s[t]) by {
        assert(is_digit(d1[t]));
    }
    lemma_digit_run_exact(s, 0, l1);
    assert forall|t: int| l1 + 1 <= t < s.len() implies is_digit(#[trigger] s[t]) by {
        assert(is_digit(d2[t - (l1 + 1)]));
    }
    lemma_digit_run_exact(s, l1 + 1, s.len() as int);
    assert(s.subrange(0, l1) =~= d1);
    assert(s.subrange(l1 + 1, s.len() as int) =~= d2);
}

/// One platform's native coordinate for one bridge-level message.
pub struct BridgeMessageRef {
    pub bridge_message_id: String,
    pub platform: String,
    pub origin_id: String,
}

/// The mathematical form of a message reference.
pub struct BridgeMessageRefV {
    pub bridge_message_id: Seq<char>,
    pub platform: Seq<char>,
    pub origin_id: Seq<char>,
}

impl View for BridgeMessageRef {
    type V = BridgeMessageRefV;

    open spec fn view(&self) -> BridgeMessageRefV {
        BridgeMessageRefV {
            bridge_message_id: self.bridge_message_id@,
            platform: self.platform@,
            origin_id: self.origin_id@,
        }
    }
}

pub open spec fn refs_view(s: Seq<BridgeMessageRef>) -> Seq<BridgeMessageRefV> {
    s.map_values(|r: BridgeMessageRef| r@)
}

pub open spec fn ref_key_matches(r: BridgeMessageRefV, id: Seq<char>, platform: Seq<char>) -> bool {
    r.bridge_message_id == id && r.platform == platform
}

/// The index of the first reference for the (message, platform) pair.
pub open spec fn idx_by_msg(s: Seq<BridgeMessageRefV>, id: Seq<char>, platform: Seq<char>) -> Option<
    int,
>
    decreases s.len(),
{
    if s.len() == 0 {
        None
    } else if ref_key_matches(s[0], id, platform) {
        Some(0int)
    } else {
        match idx_by_msg(s.drop_first(), id, platform) {
            Some(i) => Some(i + 1),
            None => None,
        }
    }
}

/// The native coordinate recorded for the (message, platform) pair, if any.
pub open spec fn lookup(s: Seq<BridgeMessageRefV>, id: Seq<char>, platform: Seq<char>) -> Option<
    Seq<char>,
> {
    match idx_by_msg(s, id, platform) {
        Some(i) => Some(s[i].origin_id),
        None => None,
    }
}

/// The reference list after recording a delivery: re-recording a pair
/// overwrites its coordinate, a new pair is appended.
pub open spec fn record_spec(
    s: Seq<BridgeMessageRefV>,
    id: Seq<char>,
    platform: Seq<char>,
    native: Seq<char>,
) -> Seq<BridgeMessageRefV> {
    let e = BridgeMessageRefV { bridge_message_id: id, platform, origin_id: native };
    match idx_by_msg(s, id, platform) {
        Some(i) => s.update(i, e),
        None => s.push(e),
    }
}

pub proof fn lemma_idx_by_msg_exact(s: Seq<BridgeMessageRefV>, id: Seq<char>, p: Seq<char>, i: int)
    requires
        0 <= i < s.len(),
        ref_key_matches(s[i], id, p),
        forall|j: int| 0 <= j < i ==> !ref_key_matches(s[j], id, p),
    ensures
        idx_by_msg(s, id, p) == Some(i),
    decreases s.len(),
{
    if i > 0 {
        lemma_idx_by_msg_exact(s.drop_first(), id, p, i - 1);
    }
}

pub proof fn lemma_idx_by_msg_none(s: Seq<BridgeMessageRefV>, id: Seq<char>, p: Seq<char>)
    requires
        forall|j: int| 0 <= j < s.len() ==> !ref_key_matches(s[j], id, p),
    ensures
        idx_by_msg(s, id, p) is None,
    decreases s.len(),
{
    if s.len() > 0 {
        lemma_idx_by_msg_none(s.drop_first(), id, p);
    }
}

pub proof fn lemma_idx_by_msg_props(s: Seq<BridgeMessageRefV>, id: Seq<char>, p: Seq<char>)
    ensures
        idx_by_msg(s, id, p) matches Some(i) ==> 0 <= i < s.len() && ref_key_matches(s[i], id, p)
            && forall|j: int| 0 <= j < i ==> !ref_key_matches(s[j], id, p),
        idx_by_msg(s, id, p) is None ==> forall|j: int|
            0 <= j < s.len() ==> !ref_key_matches(s[j], id, p),
    decreases s.len(),
{
    if s.len() > 0 && !ref_key_matches(s[0], id, p) {
        lemma_idx_by_msg_props(s.drop_first(), id, p);
        let d = s.drop_first();
        match idx_by_msg(d, id, p) {
            Some(i) => {
                assert(s[i + 1] == d[i]);
                assert forall|j: int| 0 <= j < i + 1 implies !ref_key_matches(s[j], id, p) by {
                    if j > 0 {
                        assert(d[j - 1] == s[j]);
                    }
                }
            },
            None => {
                assert forall|j: int| 0 <= j < s.len() implies !ref_key_matches(s[j], id, p) by {
                    if j > 0 {
                        assert(d[j - 1] == s[j]);
                    }
                }
            },
        }
    }
}

/// Law: a (message, platform) pair never recorded resolves to absent, and
/// right after recording a delivery the pair resolves to exactly the recorded
/// coordinate.
pub proof fn lemma_reply_correlation(
    s: Seq<BridgeMessageRefV>,
    id: Seq<char>,
    p: Seq<char>,
    native: Seq<char>,
)
    ensures
        (forall|j: int| 0 <= j < s.len() ==> !ref_key_matches(#[trigger] s[j], id, p)) ==> lookup(
            s,
            id,
            p,
        ) is None,
        lookup(record_spec(s, id, p, native), id, p) == Some(native),
{
    if forall|j: int| 0 <= j < s.len() ==> !ref_key_matches(#[trigger] s[j], id, p) {
        lemma_idx_by_msg_none(s, id, p);
    }
    let e = BridgeMessageRefV { bridge_message_id: id, platform: p, origin_id: native };
    lemma_idx_by_msg_props(s, id, p);
    match idx_by_msg(s, id, p) {
        Some(i) => {
            let s2 = s.update(i, e);
            assert forall|j: int| 0 <= j < i implies !ref_key_matches(s2[j], id, p) by {
                assert(s2[j] == s[j]);
            }
            lemma_idx_by_msg_exact(s2, id, p, i);
        },
        None => {
            let s2 = s.push(e);
            assert forall|j: int| 0 <= j < s.len() implies !ref_key_matches(s2[j], id, p) by {
                assert(s2[j] == s[j]);
            }
            lemma_idx_by_msg_exact(s2, id, p, s.len() as int);
        },
    }
}

/// Maps each bridge-level message to the native coordinates it was rendered
/// as on each platform, enabling reply threading across platforms.
pub struct ReplyCorrelator {
    refs: Vec<BridgeMessageRef>,
}

impl View for ReplyCorrelator {
    type V = Seq<BridgeMessageRefV>;

    closed spec fn view(&self) -> Seq<BridgeMessageRefV> {
        refs_view(self.refs@)
    }
}

impl ReplyCorrelator {
    /// An empty correlation table.
    pub fn new() -> (r: ReplyCorrelator)
        ensures
            r@ =~= Seq::<BridgeMessageRefV>::empty(),
    {
        ReplyCorrelator { refs: Vec::new() }
    }

    /// The position of the first reference for the pair.
    fn find_index(&self, id: &str, platform: &str) -> (r: Option<usize>)
        ensures
            (match r {
                Some(i) => idx_by_msg(self@, id@, platform@) == Some(i as int) && i
                    < self.view().len(),
                None => idx_by_msg(self@, id@, platform@) is None,
            }),
    {
        let n = self.refs.len();
        let mut t: usize = 0;
        while t < n
            invariant
                t <= n,
                n == self@.len(),
                n == self.refs@.len(),
                forall|j: int| 0 <= j < t ==> !ref_key_matches(#[trigger] self@[j], id@, platform@),
            decreases n - t,
        {
            let hit = str_eq(self.refs[t].bridge_message_id.as_str(), id) && str_eq(
                self.refs[t].platform.as_str(),
                platform,
            );
            if hit {
                proof {
                    lemma_idx_by_msg_exact(self@, id@, platform@, t as int);
                }
                return Some(t);
            }
            t = t + 1;
        }
        proof {
            lemma_idx_by_msg_none(self@, id@, platform@);
        }
        None
    }

    /// Associates a native coordinate with a bridge message for one platform.
    /// Idempotent per pair: re-recording overwrites, not duplicates.
    pub fn record_delivery(&mut self, bridge_message_id: &str, platform: &str, native_id: String)
        ensures
            final(self)@ == record_spec(old(self)@, bridge_message_id@, platform@, native_id@),
            lookup(final(self)@, bridge_message_id@, platform@) == Some(native_id@),
    {
        let entry = BridgeMessageRef {
            bridge_message_id: bridge_message_id.to_owned(),
            platform: platform.to_owned(),
            origin_id: native_id,
        };
        let ghost pre = self@;
        match self.find_index(bridge_message_id, platform) {
            Some(i) => {
                self.refs[i] = entry;
                proof {
                    assert(self@ =~= record_spec(pre, bridge_message_id@, platform@, native_id@));
                }
            },
            None => {
                self.refs.push(entry);
                proof {
                    assert(self@ =~= record_spec(pre, bridge_message_id@, platform@, native_id@));
                }
            },
        }
        proof {
            lemma_reply_correlation(pre, bridge_message_id@, platform@, native_id@);
        }
    }

    /// The native coordinate to quote when replying on `platform` to the given
    /// bridge message, or absent when the message was never relayed there.
    pub fn resolve_reply_target(&self, bridge_message_id: &str, platform: &str) -> (r: Option<
        String,
    >)
        ensures
            (match r {
                Some(native) => lookup(self@, bridge_message_id@, platform@) == Some(native@),
                None => lookup(self@, bridge_message_id@, platform@) is None,
            }),
    {
        match self.find_index(bridge_message_id, platform) {
            Some(i) => Some(self.refs[i].origin_id.clone()),
            None => None,
        }
    }

    /// Records the receipt of a successful send: encodes the native coordinate
    /// and associates it with the bridge message for the platform.
    pub fn record_send_receipt(
        &mut self,
        bridge_message_id: &str,
        platform: &str,
        group_id: u64,
        seqs: u64,
    )
        ensures
            final(self)@ == record_spec(
                old(self)@,
                bridge_message_id@,
                platform@,
                gmid_encoding(group_id as int, seqs as int),
            ),
    {
        let coord = GroupMessageId { group_id, seqs };
        self.record_delivery(bridge_message_id, platform, coord.encode());
    }
}

} // verus!
