use vstd::prelude::*;
use vstd::string::{StringExecFns, StrSliceExecFns};
use crate::text::{is_digit, digit_run, digits_val, all_digits, digits_value, scan_digit_run,
    lemma_digit_run_props, lemma_digits_val_bound, lemma_pow10_monotone, lemma_pow10_18};
use crate::user::{BridgeUser, BridgeUserV, display_form, str_eq};
use crate::user_manager::{BridgeUserManager, find_by_id, find_by_ref};
use crate::mention::{MentionText, MentionTok, parse_from, parse_text_mention_rule, toks_view};
use crate::correlator::{ReplyCorrelator, BridgeMessageRefV, lookup, gmid_shape, GroupMessageId};

verus! {

/// One segment of a platform-neutral inbound message.
pub enum MessageContent {
    Plain { text: String },
    At { id: String },
    Reply { id: Option<String> },
    Image { url: String },
    Other,
}

/// The mathematical form of a content segment.
pub enum MessageContentV {
    Plain { text: Seq<char> },
    At { id: Seq<char> },
    Reply { id: Option<Seq<char>> },
    Image { url: Seq<char> },
    Other,
}

impl View for MessageContent {
    type V = MessageContentV;

    open spec fn view(&self) -> MessageContentV {
        match self {
            MessageContent::Plain { text } => MessageContentV::Plain { text: text@ },
            MessageContent::At { id } => MessageContentV::At { id: id@ },
            MessageContent::Reply { id } => MessageContentV::Reply {
                id: match id {
                    Some(i) => Some(i@),
                    None => None,
                },
            },
            MessageContent::Image { url } => MessageContentV::Image { url: url@ },
            MessageContent::Other => MessageContentV::Other,
        }
    }
}

pub open spec fn chain_view(s: Seq<MessageContent>) -> Seq<MessageContentV> {
    s.map_values(|c: MessageContent| c@)
}

/// A platform-neutral inbound bridge message.
pub struct BridgeMessage {
    pub id: String,
    pub sender_id: String,
    pub avatar_url: Option<String>,
    pub message_chain: Vec<MessageContent>,
    pub group_id: u64,
}

/// The mathematical form of a bridge message.
pub struct BridgeMessageV {
    pub id: Seq<char>,
    pub sender_id: Seq<char>,
    pub avatar_url: Option<Seq<char>>,
    pub message_chain: Seq<MessageContentV>,
    pub group_id: int,
}

impl View for BridgeMessage {
    type V = BridgeMessageV;

    open spec fn view(&self) -> BridgeMessageV {
        BridgeMessageV {
            id: self.id@,
            sender_id: self.sender_id@,
            avatar_url: match self.avatar_url {
                Some(u) => Some(u@),
                None => None,
            },
            message_chain: chain_view(self.message_chain@),
            group_id: self.group_id as int,
        }
    }
}

/// A flattened quoted segment inside a rendered reply: plain text or a native
/// mention; nested structure is never expanded further.
#[derive(Debug, PartialEq)]
pub enum ReplySegment {
    Text(String),
    At(i64),
}

pub enum ReplySegV {
    Text(Seq<char>),
    At(int),
}

impl View for ReplySegment {
    type V = ReplySegV;

    open spec fn view(&self) -> ReplySegV {
        match self {
            ReplySegment::Text(t) => ReplySegV::Text(t@),
            ReplySegment::At(i) => ReplySegV::At(*i as int),
        }
    }
}

pub open spec fn reply_segs_view(s: Seq<ReplySegment>) -> Seq<ReplySegV> {
    s.map_values(|r: ReplySegment| r@)
}

/// One instruction of the outbound plan: native text, a native mention, an
/// image to fetch and upload (dropped by the runner on failure), or a
/// structured quote.
#[derive(Debug, PartialEq)]
pub enum OutSegment {
    Text(String),
    At(i64),
    ImageUrl(String),
    Reply { reply_seq: u64, sender: i64, contents: Vec<ReplySegment> },
}

pub enum OutSegV {
    Text(Seq<char>),
    At(int),
    ImageUrl(Seq<char>),
    Reply { reply_seq: int, sender: int, contents: Seq<ReplySegV> },
}

impl View for OutSegment {
    type V = OutSegV;

    open spec fn view(&self) -> OutSegV {
        match self {
            OutSegment::Text(t) => OutSegV::Text(t@),
            OutSegment::At(i) => OutSegV::At(*i as int),
            OutSegment::ImageUrl(u) => OutSegV::ImageUrl(u@),
            OutSegment::Reply { reply_seq, sender, contents } => OutSegV::Reply {
                reply_seq: *reply_seq as int,
                sender: *sender as int,
                contents: reply_segs_view(contents@),
            },
        }
    }
}

pub open spec fn plan_view(s: Seq<OutSegment>) -> Seq<OutSegV> {
    s.map_values(|o: OutSegment| o@)
}

pub proof fn lemma_plan_push(s: Seq<OutSegment>, x: OutSegment)
    ensures
        plan_view(s.push(x)) =~= plan_view(s).push(x@),
{
}

pub proof fn lemma_reply_segs_push(s: Seq<ReplySegment>, x: ReplySegment)
    ensures
        reply_segs_view(s.push(x)) =~= reply_segs_view(s).push(x@),
{
}

/// The bridge-level messages seen by this platform's pipeline, kept for
/// quoting; it stands beside the reply correlator, which keeps the native
/// coordinates.
pub struct MessageStore {
    messages: Vec<BridgeMessage>,
}

pub open spec fn msgs_view(s: Seq<BridgeMessage>) -> Seq<BridgeMessageV> {
    s.map_values(|m: BridgeMessage| m@)
}

/// The first stored message with the given bridge-level id.
pub open spec fn idx_msg(s: Seq<BridgeMessageV>, id: Seq<char>) -> Option<int>
    decreases s.len(),
{
    if s.len() == 0 {
        None
    } else if s[0].id == id {
        Some(0int)
    } else {
        match idx_msg(s.drop_first(), id) {
            Some(i) => Some(i + 1),
            None => None,
        }
    }
}

pub open spec fn msg_by_id(s: Seq<BridgeMessageV>, id: Seq<char>) -> Option<BridgeMessageV> {
    match idx_msg(s, id) {
        Some(i) => Some(s[i]),
        None => None,
    }
}

pub proof fn lemma_idx_msg_exact(s: Seq<BridgeMessageV>, id: Seq<char>, i: int)
    requires
        0 <= i < s.len(),
        s[i].id == id,
        forall|j: int| 0 <= j < i ==> s[j].id != id,
    ensures
        idx_msg(s, id) == Some(i),
    decreases s.len(),
{
    if i > 0 {
        lemma_idx_msg_exact(s.drop_first(), id, i - 1);
    }
}

pub proof fn lemma_idx_msg_none(s: Seq<BridgeMessageV>, id: Seq<char>)
    requires
        forall|j: int| 0 <= j < s.len() ==> s[j].id != id,
    ensures
        idx_msg(s, id) is None,
    decreases s.len(),
{
    if s.len() > 0 {
        lemma_idx_msg_none(s.drop_first(), id);
    }
}

impl View for MessageStore {
    type V = Seq<BridgeMessageV>;

    closed spec fn view(&self) -> Seq<BridgeMessageV> {
        msgs_view(self.messages@)
    }
}

impl MessageStore {
    /// An empty message store.
    pub fn new() -> (r: MessageStore)
        ensures
            r@ =~= Seq::<BridgeMessageV>::empty(),
    {
        MessageStore { messages: Vec::new() }
    }

    /// Keeps a message for later quoting.
    pub fn add(&mut self, m: BridgeMessage)
        ensures
            final(self)@ =~= old(self)@.push(m@),
    {
        self.messages.push(m);
    }

    /// The first stored message under the given bridge-level id.
    pub fn get(&self, id: &str) -> (r: Option<&BridgeMessage>)
        ensures
            (match r {
                Some(m) => msg_by_id(self@, id@) == Some(m@),
                None => msg_by_id(self@, id@) is None,
            }),
    {
        let n = self.messages.len();
        let mut t: usize = 0;
        while t < n
            invariant
                t <= n,
                n == self@.len(),
                n == self.messages@.len(),
                forall|j: int| 0 <= j < t ==> #[trigger] self@[j].id != id@,
            decreases n - t,
        {
            if str_eq(self.messages[t].id.as_str(), id) {
                proof {
                    lemma_idx_msg_exact(self@, id@, t as int);
                }
                return Some(&self.messages[t]);
            }
            t = t + 1;
        }
        proof {
            lemma_idx_msg_none(self@, id@);
        }
        None
    }
}

/// The unresolved-mention sentinel: the target rendered as plain text behind
/// the unknown tag.
pub open spec fn unresolved_form(target: Seq<char>) -> Seq<char> {
    "@[UN] "@ + target
}

/// How an At target renders on this platform: a native mention when the
/// target is linked to an identity here whose origin is numeric, the
/// canonical display text when the target is known but unlinked, and the
/// unresolved sentinel when the target is unknown.
pub open spec fn at_spec(store: Seq<BridgeUserV>, target: Seq<char>) -> ReplySegV {
    match find_by_id(store, target) {
        None => ReplySegV::Text(unresolved_form(target)),
        Some(u) => match find_by_ref(store, u.id, "QQ"@) {
            Some(ru) => if 1 <= ru.origin_id.len() <= 18 && all_digits(ru.origin_id) {
                ReplySegV::At(digits_val(ru.origin_id))
            } else {
                ReplySegV::Text(display_form(u.platform, u.display_text))
            },
            None => ReplySegV::Text(display_form(u.platform, u.display_text)),
        },
    }
}

/// Reads a numeric native id out of a text slice: its decimal value when the
/// whole text is one short digit run.
fn numeric_id(s: &str) -> (r: Option<i64>)
    ensures
        (match r {
            Some(v) => 1 <= s@.len() <= 18 && all_digits(s@) && v == digits_val(s@),
            None => !(1 <= s@.len() <= 18 && all_digits(s@)),
        }),
{
    let n = s.unicode_len();
    let l = scan_digit_run(s, n, 0);
    proof {
        lemma_digit_run_props(s@, 0);
    }
    if n < 1 || n > 18 || l != n {
        proof {
            if l < n {
                assert(!is_digit(s@[l as int]));
            }
        }
        return None;
    }
    proof {
        lemma_digits_val_bound(s@.subrange(0, n as int));
        lemma_pow10_monotone(n as nat, 18);
        lemma_pow10_18();
    }
    let v = digits_value(s, n, 0, n);
    proof {
        assert(s@.subrange(0, n as int) =~= s@);
    }
    Some(v as i64)
}

/// Renders an At target: the bridge user's linked native identity when one
/// exists here, else the best available display text.
pub fn proc_at(users: &BridgeUserManager, target: &str) -> (r: ReplySegment)
    ensures
        r@ == at_spec(users@, target@),
{
    match users.get(target) {
        None => {
            proof {
                reveal_strlit("@[UN] ");
            }
            let mut t = String::from_str("@[UN] ");
            t.append(target);
            proof {
                assert(t@ =~= unresolved_form(target@));
            }
            ReplySegment::Text(t)
        },
        Some(u) => {
            match users.findByRefAndPlatform(u.id.as_str(), "QQ") {
                Some(ru) => {
                    match numeric_id(ru.origin_id.as_str()) {
                        Some(v) => ReplySegment::At(v),
                        None => ReplySegment::Text(u.to_display_string()),
                    }
                },
                None => ReplySegment::Text(u.to_display_string()),
            }
        },
    }
}

/// The sender coordinate quoted for a message: the author's native id when
/// the author is a native identity of this platform with a numeric origin,
/// else the bridge's own id.
pub open spec fn quote_sender_spec(store: Seq<BridgeUserV>, sender_id: Seq<char>, bot_id: int) -> int {
    match find_by_id(store, sender_id) {
        Some(u) => if u.platform == "QQ"@ && 1 <= u.origin_id.len() <= 18 && all_digits(
            u.origin_id,
        ) {
            digits_val(u.origin_id)
        } else {
            bot_id
        },
        None => bot_id,
    }
}

fn quote_sender(users: &BridgeUserManager, sender_id: &str, bot_id: i64) -> (r: i64)
    ensures
        r as int == quote_sender_spec(users@, sender_id@, bot_id as int),
{
    match users.get(sender_id) {
        Some(u) => {
            if str_eq(u.platform.as_str(), "QQ") {
                match numeric_id(u.origin_id.as_str()) {
                    Some(v) => v,
                    None => bot_id,
                }
            } else {
                bot_id
            }
        },
        None => bot_id,
    }
}

/// The flattened quoted form of one segment of the quoted message: nested
/// replies and images become short placeholders, unknown segments are
/// dropped.
pub open spec fn quoted_seg_spec(store: Seq<BridgeUserV>, seg: MessageContentV) -> Seq<ReplySegV> {
    match seg {
        MessageContentV::Reply { .. } => seq![ReplySegV::Text("[reply]"@)],
        MessageContentV::Plain { text } => seq![ReplySegV::Text(text)],
        MessageContentV::At { id } => seq![at_spec(store, id)],
        MessageContentV::Image { .. } => seq![ReplySegV::Text("[image]"@)],
        MessageContentV::Other => Seq::empty(),
    }
}

pub open spec fn quoted_chain_spec(store: Seq<BridgeUserV>, chain: Seq<MessageContentV>) -> Seq<
    ReplySegV,
>
    decreases chain.len(),
{
    if chain.len() == 0 {
        Seq::empty()
    } else {
        quoted_seg_spec(store, chain[0]) + quoted_chain_spec(store, chain.drop_first())
    }
}

fn quoted_chain(users: &BridgeUserManager, chain: &Vec<MessageContent>) -> (r: Vec<ReplySegment>)
    ensures
        reply_segs_view(r@) == quoted_chain_spec(users@, chain_view(chain@)),
{
    let ghost cv = chain_view(chain@);
    let n = chain.len();
    let mut out: Vec<ReplySegment> = Vec::new();
    let mut t: usize = 0;
    proof {
        assert(cv.subrange(0, n as int) =~= cv);
        assert(reply_segs_view(out@) + quoted_chain_spec(users@, cv) =~= quoted_chain_spec(
            users@,
            cv,
        ));
    }
    while t < n
        invariant
            t <= n,
            n == chain@.len(),
            cv == chain_view(chain@),
            cv.len() == n,
            quoted_chain_spec(users@, cv) == reply_segs_view(out@) + quoted_chain_spec(
                users@,
                cv.subrange(t as int, n as int),
            ),
        decreases n - t,
    {
        let ghost rest = cv.subrange(t as int, n as int);
        proof {
            assert(rest[0] == cv[t as int]);
            assert(rest.drop_first() =~= cv.subrange(t as int + 1, n as int));
        }
        match &chain[t] {
            MessageContent::Reply { .. } => {
                proof {
                    reveal_strlit("[reply]");
                }
                let seg = ReplySegment::Text(String::from_str("[reply]"));
                proof {
                    lemma_reply_segs_push(out@, seg);
                }
                out.push(seg);
            },
            MessageContent::Plain { text } => {
                let seg = ReplySegment::Text(text.clone());
                proof {
                    lemma_reply_segs_push(out@, seg);
                }
                out.push(seg);
            },
            MessageContent::At { id } => {
                let seg = proc_at(users, id.as_str());
                proof {
                    lemma_reply_segs_push(out@, seg);
                }
                out.push(seg);
            },
            MessageContent::Image { .. } => {
                proof {
                    reveal_strlit("[image]");
                }
                let seg = ReplySegment::Text(String::from_str("[image]"));
                proof {
                    lemma_reply_segs_push(out@, seg);
                }
                out.push(seg);
            },
            MessageContent::Other => {},
        }
        proof {
            assert(quoted_chain_spec(users@, rest) == quoted_seg_spec(users@, cv[t as int])
                + quoted_chain_spec(users@, cv.subrange(t as int + 1, n as int)));
        }
        t = t + 1;
    }
    proof {
        assert(cv.subrange(n as int, n as int) =~= Seq::<MessageContentV>::empty());
    }
    out
}

/// How the quote of an already fetched reply target renders: a structured
/// quote when the target was relayed to this platform under a decodable
/// coordinate, a plain placeholder otherwise.
pub open spec fn reply_quote_spec(
    store: Seq<BridgeUserV>,
    refs: Seq<BridgeMessageRefV>,
    rm: BridgeMessageV,
    bot_id: int,
) -> OutSegV {
    match lookup(refs, rm.id, "QQ"@) {
        None => OutSegV::Text("{reply}"@),
        Some(coord) => if gmid_shape(coord) {
            OutSegV::Reply {
                reply_seq: digits_val(coord.subrange(digit_run(coord, 0) + 1, coord.len() as int)),
                sender: quote_sender_spec(store, rm.sender_id, bot_id),
                contents: quoted_chain_spec(store, rm.message_chain),
            }
        } else {
            OutSegV::Text("{reply}"@)
        },
    }
}

/// Renders the quote for a reply whose target message was found: resolves the
/// native coordinate via the correlator and flattens the quoted content.
pub fn to_reply_content(
    users: &BridgeUserManager,
    correlator: &ReplyCorrelator,
    reply_message: &BridgeMessage,
    bot_id: i64,
) -> (r: OutSegment)
    ensures
        r@ == reply_quote_spec(users@, correlator@, reply_message@, bot_id as int),
{
    match correlator.resolve_reply_target(reply_message.id.as_str(), "QQ") {
        None => OutSegment::Text(String::from_str("{reply}")),
        Some(coord) => {
            match GroupMessageId::decode(coord.as_str()) {
                None => OutSegment::Text(String::from_str("{reply}")),
                Some(gm) => {
                    let sender = quote_sender(users, reply_message.sender_id.as_str(), bot_id);
                    let contents = quoted_chain(users, &reply_message.message_chain);
                    OutSegment::Reply { reply_seq: gm.seqs, sender, contents }
                },
            }
        },
    }
}

/// How one mention token renders natively: text stays text, a decoded mention
/// becomes a native mention of its id.
pub open spec fn mention_tok_to_out(t: MentionTok) -> OutSegV {
    match t {
        MentionTok::Text(s) => OutSegV::Text(s),
        MentionTok::Mention { id, .. } => OutSegV::At(id),
    }
}

/// How inbound plain text renders: its decoded mention tokens, in order.
pub open spec fn plain_spec(text: Seq<char>) -> Seq<OutSegV> {
    parse_from(text, 0).map_values(|t: MentionTok| mention_tok_to_out(t))
}

/// Decodes inbound plain text and appends the rendered tokens.
fn render_plain(text: &String, out: &mut Vec<OutSegment>)
    ensures
        plan_view(final(out)@) == plan_view(old(out)@) + plain_spec(text@),
{
    let toks = parse_text_mention_rule(text.clone());
    let ghost spec_out = plain_spec(text@);
    proof {
        assert(spec_out.len() == toks@.len());
    }
    let m = toks.len();
    let mut t: usize = 0;
    while t < m
        invariant
            t <= m,
            m == toks@.len(),
            toks_view(toks@) == parse_from(text@, 0),
            spec_out == plain_spec(text@),
            spec_out.len() == m,
            plan_view(out@) == plan_view(old(out)@) + spec_out.subrange(0, t as int),
        decreases m - t,
    {
        let seg = match &toks[t] {
            MentionText::Text(s) => OutSegment::Text(s.clone()),
            MentionText::MentionText { id, .. } => OutSegment::At(*id),
        };
        proof {
            assert(seg@ == mention_tok_to_out(toks@[t as int]@));
            assert(spec_out[t as int] == mention_tok_to_out(toks_view(toks@)[t as int]));
            assert(toks_view(toks@)[t as int] == toks@[t as int]@);
            lemma_plan_push(out@, seg);
            assert(spec_out.subrange(0, t as int + 1) =~= spec_out.subrange(0, t as int).push(
                spec_out[t as int],
            ));
        }
        out.push(seg);
        t = t + 1;
    }
    proof {
        assert(spec_out.subrange(0, m as int) =~= spec_out);
    }
}

/// The save form under which a native account of this platform enters the
/// store: its numeric id as origin, and `name(id)` as display text.
pub open spec fn native_form_spec(id: int, name: Seq<char>) -> crate::user::BridgeUserSaveFormV {
    crate::user::BridgeUserSaveFormV {
        origin_id: crate::text::dec_digits(id),
        platform: "QQ"@,
        display_text: name + seq!['('] + crate::text::dec_digits(id) + seq![')'],
    }
}

/// Finds or creates the bridge identity for a native account of this
/// platform, keyed by its numeric id.
pub fn apply_bridge_user(users: &mut BridgeUserManager, id: u64, name: &str) -> (r: BridgeUser)
    ensures
        (final(users)@, r@) == crate::user_manager::get_or_create(
            old(users)@,
            native_form_spec(id as int, name@),
            r@.id,
        ),
{
    proof {
        reveal_strlit("(");
        reveal_strlit(")");
    }
    let digits = crate::text::u64_to_string(id);
    let mut display = String::from_str(name);
    display.append("(");
    display.append(digits.as_str());
    display.append(")");
    let form = crate::user::BridgeUserSaveForm {
        origin_id: digits,
        platform: String::from_str("QQ"),
        display_text: display,
    };
    proof {
        assert(form@.origin_id =~= crate::text::dec_digits(id as int));
        assert(form@.display_text =~= name@ + seq!['('] + crate::text::dec_digits(id as int)
            + seq![')']);
        assert(form@ == native_form_spec(id as int, name@));
    }
    let r = users.likeAndSave(form);
    match r {
        Ok(u) => u,
        Err(_) => {
            assert(false);
            BridgeUser {
                id: String::new(),
                origin_id: String::new(),
                platform: String::new(),
                display_text: String::new(),
                ref_id: None,
            }
        },
    }
}

pub open spec fn lift_reply_seg(r: ReplySegV) -> OutSegV {
    match r {
        ReplySegV::Text(t) => OutSegV::Text(t),
        ReplySegV::At(i) => OutSegV::At(i),
    }
}

/// The avatar instruction: fetch and upload the sender's avatar when one is
/// given; the runner drops it on failure.
pub open spec fn avatar_spec(m: BridgeMessageV) -> Seq<OutSegV> {
    match m.avatar_url {
        Some(u) => seq![OutSegV::ImageUrl(u)],
        None => Seq::empty(),
    }
}

/// The sender's display label line: the canonical display form when the
/// author is known, the unresolved sentinel otherwise.
pub open spec fn sender_label_spec(store: Seq<BridgeUserV>, m: BridgeMessageV) -> Seq<char> {
    match find_by_id(store, m.sender_id) {
        Some(u) => display_form(u.platform, u.display_text) + seq!['\n'],
        None => unresolved_form(m.sender_id) + seq!['\n'],
    }
}

/// How one inbound segment renders on this platform.
pub open spec fn segment_spec(
    store: Seq<BridgeUserV>,
    msgs: Seq<BridgeMessageV>,
    refs: Seq<BridgeMessageRefV>,
    seg: MessageContentV,
    bot_id: int,
) -> Seq<OutSegV> {
    match seg {
        MessageContentV::Plain { text } => plain_spec(text),
        MessageContentV::At { id } => seq![lift_reply_seg(at_spec(store, id))],
        MessageContentV::Reply { id } => match id {
            None => seq![OutSegV::Text("> {reply}\n"@)],
            Some(rid) => match msg_by_id(msgs, rid) {
                None => seq![OutSegV::Text("> {reply}\n"@)],
                Some(rm) => seq![reply_quote_spec(store, refs, rm, bot_id)],
            },
        },
        MessageContentV::Image { url } => seq![OutSegV::ImageUrl(url)],
        MessageContentV::Other => seq![OutSegV::Text("{unsupported}"@)],
    }
}

pub open spec fn chain_spec(
    store: Seq<BridgeUserV>,
    msgs: Seq<BridgeMessageV>,
    refs: Seq<BridgeMessageRefV>,
    chain: Seq<MessageContentV>,
    bot_id: int,
) -> Seq<OutSegV>
    decreases chain.len(),
{
    if chain.len() == 0 {
        Seq::empty()
    } else {
        segment_spec(store, msgs, refs, chain[0], bot_id) + chain_spec(
            store,
            msgs,
            refs,
            chain.drop_first(),
            bot_id,
        )
    }
}

/// The whole outbound plan for one inbound message: the avatar instruction,
/// the sender label, and each content segment rendered in order.
pub open spec fn plan_spec(
    store: Seq<BridgeUserV>,
    msgs: Seq<BridgeMessageV>,
    refs: Seq<BridgeMessageRefV>,
    m: BridgeMessageV,
    bot_id: int,
) -> Seq<OutSegV> {
    avatar_spec(m) + seq![OutSegV::Text(sender_label_spec(store, m))] + chain_spec(
        store,
        msgs,
        refs,
        m.message_chain,
        bot_id,
    )
}

/// Translates one inbound bridge message into the ordered outbound plan for
/// this platform: resolve the sender, then render each content segment. No
/// failure in content translation aborts the plan; degraded segments become
/// placeholders or instructions the runner may drop.
pub fn sync_plan(
    users: &BridgeUserManager,
    messages: &MessageStore,
    correlator: &ReplyCorrelator,
    message: &BridgeMessage,
    bot_id: i64,
) -> (r: Vec<OutSegment>)
    ensures
        plan_view(r@) == plan_spec(users@, messages@, correlator@, message@, bot_id as int),
{
    let mut out: Vec<OutSegment> = Vec::new();
    match &message.avatar_url {
        Some(url) => {
            out.push(OutSegment::ImageUrl(url.clone()));
        },
        None => {},
    }
    let label = match users.get(message.sender_id.as_str()) {
        Some(u) => {
            let mut l = u.to_display_string();
            l.append("\n");
            l
        },
        None => {
            let mut l = String::from_str("@[UN] ");
            l.append(message.sender_id.as_str());
            l.append("\n");
            l
        },
    };
    proof {
        reveal_strlit("\n");
        reveal_strlit("@[UN] ");
        assert(label@ =~= sender_label_spec(users@, message@));
    }
    out.push(OutSegment::Text(label));
    let ghost base = plan_view(out@);
    proof {
        assert(base =~= avatar_spec(message@) + seq![
            OutSegV::Text(sender_label_spec(users@, message@)),
        ]);
    }
    let ghost cv = chain_view(message.message_chain@);
    let chain = &message.message_chain;
    let n = chain.len();
    let mut t: usize = 0;
    proof {
        assert(cv.subrange(0, n as int) =~= cv);
        assert(plan_view(out@) + chain_spec(users@, messages@, correlator@, cv, bot_id as int)
            =~= base + chain_spec(users@, messages@, correlator@, cv, bot_id as int));
    }
    while t < n
        invariant
            t <= n,
            n == chain@.len(),
            cv == chain_view(chain@),
            cv.len() == n,
            plan_view(out@) + chain_spec(
                users@,
                messages@,
                correlator@,
                cv.subrange(t as int, n as int),
                bot_id as int,
            ) == base + chain_spec(users@, messages@, correlator@, cv, bot_id as int),
        decreases n - t,
    {
        let ghost pre = plan_view(out@);
        let ghost rest = cv.subrange(t as int, n as int);
        proof {
            assert(rest[0] == cv[t as int]);
            assert(rest.drop_first() =~= cv.subrange(t as int + 1, n as int));
        }
        match &chain[t] {
            MessageContent::Plain { text } => {
                render_plain(text, &mut out);
            },
            MessageContent::At { id } => {
                let seg = proc_at(users, id.as_str());
                let ghost sv = seg@;
                let lifted = match seg {
                    ReplySegment::Text(txt) => OutSegment::Text(txt),
                    ReplySegment::At(i) => OutSegment::At(i),
                };
                proof {
                    assert(lifted@ == lift_reply_seg(sv));
                    lemma_plan_push(out@, lifted);
                }
                out.push(lifted);
            },
            MessageContent::Reply { id } => {
                let seg = match id {
                    Some(rid) => {
                        match messages.get(rid.as_str()) {
                            Some(rm) => to_reply_content(users, correlator, rm, bot_id),
                            None => {
                                proof {
                                    reveal_strlit("> {reply}\n");
                                }
                                OutSegment::Text(String::from_str("> {reply}\n"))
                            },
                        }
                    },
                    None => {
                        proof {
                            reveal_strlit("> {reply}\n");
                        }
                        OutSegment::Text(String::from_str("> {reply}\n"))
                    },
                };
                proof {
                    lemma_plan_push(out@, seg);
                }
                out.push(seg);
            },
            MessageContent::Image { url } => {
                let seg = OutSegment::ImageUrl(url.clone());
                proof {
                    lemma_plan_push(out@, seg);
                }
                out.push(seg);
            },
            MessageContent::Other => {
                proof {
                    reveal_strlit("{unsupported}");
                }
                let seg = OutSegment::Text(String::from_str("{unsupported}"));
                proof {
                    lemma_plan_push(out@, seg);
                }
                out.push(seg);
            },
        }
        proof {
            assert(chain_spec(users@, messages@, correlator@, rest, bot_id as int) == segment_spec(
                users@,
                messages@,
                correlator@,
                cv[t as int],
                bot_id as int,
            ) + chain_spec(
                users@,
                messages@,
                correlator@,
                cv.subrange(t as int + 1, n as int),
                bot_id as int,
            ));
            assert(plan_view(out@) =~= pre + segment_spec(
                users@,
                messages@,
                correlator@,
                cv[t as int],
                bot_id as int,
            ));
            assert(plan_view(out@) + chain_spec(
                users@,
                messages@,
                correlator@,
                cv.subrange(t as int + 1, n as int),
                bot_id as int,
            ) =~= base + chain_spec(users@, messages@, correlator@, cv, bot_id as int));
        }
        t = t + 1;
    }
    proof {
        assert(cv.subrange(n as int, n as int) =~= Seq::<MessageContentV>::empty());
        assert(plan_view(out@) =~= plan_view(out@) + chain_spec(
            users@,
            messages@,
            correlator@,
            cv.subrange(n as int, n as int),
            bot_id as int,
        ));
        assert(plan_view(out@) =~= plan_spec(users@, messages@, correlator@, message@, bot_id as int));
    }
    out
}

} // verus!
