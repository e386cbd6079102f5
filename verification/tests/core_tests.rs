use bridge_core::user::{BridgeUser, BridgeUserSaveForm};
use bridge_core::user_manager::{BridgeUserManager, BridgeError};
use bridge_core::mention::{parse_text_mention_rule, encode_mention, MentionText};
use bridge_core::correlator::{GroupMessageId, ReplyCorrelator};
use bridge_core::pipeline::{apply_bridge_user, sync_plan, proc_at, BridgeMessage, MessageContent,
    MessageStore, OutSegment, ReplySegment};

fn form(origin: &str, platform: &str, display: &str) -> BridgeUserSaveForm {
    BridgeUserSaveForm {
        origin_id: origin.to_string(),
        platform: platform.to_string(),
        display_text: display.to_string(),
    }
}

fn user(id: &str, origin: &str, platform: &str, display: &str, ref_id: Option<&str>) -> BridgeUser {
    BridgeUser {
        id: id.to_string(),
        origin_id: origin.to_string(),
        platform: platform.to_string(),
        display_text: display.to_string(),
        ref_id: ref_id.map(|r| r.to_string()),
    }
}

#[test]
fn get_or_create_twice_yields_one_identity() {
    let mut users = BridgeUserManager::new();
    let first = users.likeAndSave(form("111", "QQ", "Alice(111)")).unwrap();
    let second = users.likeAndSave(form("111", "QQ", "Alice(111)")).unwrap();
    assert_eq!(first.id, second.id);
    assert_eq!(users.records().len(), 1);
}

#[test]
fn apply_bridge_user_is_idempotent() {
    let mut users = BridgeUserManager::new();
    let first = apply_bridge_user(&mut users, 5, "X");
    let second = apply_bridge_user(&mut users, 5, "X");
    assert_eq!(first.id, second.id);
    assert_eq!(first.display_text, "X(5)");
    assert_eq!(first.origin_id, "5");
    assert_eq!(first.platform, "QQ");
    assert_eq!(users.records().len(), 1);
}

#[test]
fn create_duplicate_fails_and_leaves_store_unchanged() {
    let mut users = BridgeUserManager::new();
    users.save(form("111", "QQ", "Alice(111)")).unwrap();
    let before = users.records().len();
    let r = users.save(form("111", "QQ", "Someone else"));
    assert_eq!(r.unwrap_err(), BridgeError::DuplicateIdentity);
    assert_eq!(users.records().len(), before);
    let kept = users.like("111", "QQ").unwrap();
    assert_eq!(kept.display_text, "Alice(111)");
}

#[test]
fn fresh_ids_are_thirty_six_characters() {
    let mut users = BridgeUserManager::new();
    let u = users.save(form("1", "QQ", "A(1)")).unwrap();
    assert_eq!(u.id.chars().count(), 36);
}

#[test]
fn batch_upsert_skips_unmatched_records() {
    let mut users = BridgeUserManager::new();
    let created = users.save(form("111", "QQ", "Alice(111)")).unwrap();
    let stranger = user("no-such-id", "9", "DC", "Ghost", None);
    let count = users.batch_update(&[stranger]).unwrap();
    assert_eq!(count, 0);
    assert_eq!(users.records().len(), 1);
    assert_eq!(users.get(&created.id).unwrap().display_text, "Alice(111)");
}

#[test]
fn batch_upsert_overwrites_matched_records() {
    let mut users = BridgeUserManager::new();
    let created = users.save(form("111", "QQ", "Alice(111)")).unwrap();
    let patch = user(&created.id, "111", "QQ", "Alice renamed", Some("other-id"));
    let count = users.batch_update(&[patch]).unwrap();
    assert_eq!(count, 1);
    let got = users.get(&created.id).unwrap();
    assert_eq!(got.display_text, "Alice renamed");
    assert_eq!(got.ref_id.as_deref(), Some("other-id"));
}

#[test]
fn from_records_rejects_duplicate_keys() {
    let a = user("a", "111", "QQ", "A", None);
    let b = user("b", "111", "QQ", "B", None);
    assert!(BridgeUserManager::from_records(vec![a, b]).is_none());
    let c = user("c", "111", "QQ", "C", None);
    let d = user("d", "111", "DC", "D", None);
    assert!(BridgeUserManager::from_records(vec![c, d]).is_some());
}

#[test]
fn find_by_ref_skips_unlinked_records() {
    let a = user("a", "1", "QQ", "A", None);
    let b = user("b", "2", "DC", "B", Some("a"));
    let c = user("c", "3", "QQ", "C", Some("a"));
    let users = BridgeUserManager::from_records(vec![a, b, c]).unwrap();
    let hit = users.findByRefAndPlatform("a", "QQ").unwrap();
    assert_eq!(hit.id, "c");
    assert!(users.findByRefAndPlatform("zzz", "QQ").is_none());
}

#[test]
fn mention_round_trip_decodes_one_token() {
    let encoded = encode_mention("QQ", "Alice(111)");
    assert_eq!(encoded, "@[QQ] Alice(111)");
    let toks = parse_text_mention_rule(encoded);
    assert_eq!(toks, vec![MentionText::MentionText { name: "Alice".to_string(), id: 111 }]);
}

#[test]
fn two_distinct_mentions_decode_in_order() {
    let toks = parse_text_mention_rule("hi @[QQ] Alice(111) and @[QQ] Bob(222) bye".to_string());
    assert_eq!(
        toks,
        vec![
            MentionText::Text("hi ".to_string()),
            MentionText::MentionText { name: "Alice".to_string(), id: 111 },
            MentionText::Text(" and ".to_string()),
            MentionText::MentionText { name: "Bob".to_string(), id: 222 },
            MentionText::Text(" bye".to_string()),
        ]
    );
}

#[test]
fn repeated_identical_mentions_stay_separate() {
    let toks = parse_text_mention_rule("@[QQ] Alice(111) @[QQ] Alice(111)".to_string());
    assert_eq!(
        toks,
        vec![
            MentionText::MentionText { name: "Alice".to_string(), id: 111 },
            MentionText::Text(" ".to_string()),
            MentionText::MentionText { name: "Alice".to_string(), id: 111 },
        ]
    );
}

#[test]
fn plain_text_without_mentions_passes_through() {
    assert_eq!(parse_text_mention_rule(String::new()), vec![]);
    assert_eq!(
        parse_text_mention_rule("hello".to_string()),
        vec![MentionText::Text("hello".to_string())]
    );
}

#[test]
fn oversized_digit_group_stays_text() {
    let text = "@[QQ] A(1234567890123456789)".to_string();
    let toks = parse_text_mention_rule(text.clone());
    assert_eq!(toks, vec![MentionText::Text(text)]);
}

#[test]
fn greedy_name_takes_the_last_digit_group() {
    let toks = parse_text_mention_rule("@[QQ] a(1)b(22)".to_string());
    assert_eq!(toks, vec![MentionText::MentionText { name: "a(1)b".to_string(), id: 22 }]);
}

#[test]
fn group_message_id_round_trip() {
    let coord = GroupMessageId { group_id: 5, seqs: 7 };
    let s = coord.encode();
    assert_eq!(s, "5|7");
    let back = GroupMessageId::decode(&s).unwrap();
    assert_eq!(back.group_id, 5);
    assert_eq!(back.seqs, 7);
    assert!(GroupMessageId::decode("abc").is_none());
    assert!(GroupMessageId::decode("5|").is_none());
    assert!(GroupMessageId::decode("|7").is_none());
    assert!(GroupMessageId::decode("5|7|9").is_none());
}

#[test]
fn reply_target_absent_until_recorded() {
    let mut correlator = ReplyCorrelator::new();
    assert!(correlator.resolve_reply_target("m1", "QQ").is_none());
    let coord = GroupMessageId { group_id: 42, seqs: 7 };
    correlator.record_delivery("m1", "QQ", coord.encode());
    assert_eq!(correlator.resolve_reply_target("m1", "QQ").unwrap(), "42|7");
    assert!(correlator.resolve_reply_target("m1", "DC").is_none());
    assert!(correlator.resolve_reply_target("m2", "QQ").is_none());
}

#[test]
fn rerecording_overwrites_instead_of_duplicating() {
    let mut correlator = ReplyCorrelator::new();
    correlator.record_delivery("m1", "QQ", "1|1".to_string());
    correlator.record_delivery("m1", "QQ", "1|2".to_string());
    assert_eq!(correlator.resolve_reply_target("m1", "QQ").unwrap(), "1|2");
}

#[test]
fn at_falls_back_to_sentinel_for_unknown_target() {
    let users = BridgeUserManager::new();
    let seg = proc_at(&users, "nobody");
    assert_eq!(seg, ReplySegment::Text("@[UN] nobody".to_string()));
}

fn message(id: &str, sender: &str, chain: Vec<MessageContent>) -> BridgeMessage {
    BridgeMessage {
        id: id.to_string(),
        sender_id: sender.to_string(),
        avatar_url: None,
        message_chain: chain,
        group_id: 1,
    }
}

#[test]
fn end_to_end_unlinked_mention_renders_display_text() {
    let sender = user("t1", "x9", "DC", "X(5)", None);
    let target = user("t3", "5", "QQ", "X(5)", None);
    let users = BridgeUserManager::from_records(vec![sender, target]).unwrap();
    let messages = MessageStore::new();
    let correlator = ReplyCorrelator::new();
    let msg = message(
        "m1",
        "t1",
        vec![
            MessageContent::Plain { text: "hello ".to_string() },
            MessageContent::At { id: "t3".to_string() },
        ],
    );
    let plan = sync_plan(&users, &messages, &correlator, &msg, 99);
    assert_eq!(
        plan,
        vec![
            OutSegment::Text("[DC] X(5)\n".to_string()),
            OutSegment::Text("hello ".to_string()),
            OutSegment::Text("[QQ] X(5)".to_string()),
        ]
    );
}

#[test]
fn end_to_end_linked_mention_renders_native_mention() {
    let sender = user("t1", "x9", "DC", "X(5)", None);
    let linked = user("q1", "123", "QQ", "Q(123)", Some("t1"));
    let users = BridgeUserManager::from_records(vec![sender, linked]).unwrap();
    let messages = MessageStore::new();
    let correlator = ReplyCorrelator::new();
    let msg = message(
        "m1",
        "t1",
        vec![
            MessageContent::Plain { text: "hello ".to_string() },
            MessageContent::At { id: "t1".to_string() },
        ],
    );
    let plan = sync_plan(&users, &messages, &correlator, &msg, 99);
    assert_eq!(
        plan,
        vec![
            OutSegment::Text("[DC] X(5)\n".to_string()),
            OutSegment::Text("hello ".to_string()),
            OutSegment::At(123),
        ]
    );
}

#[test]
fn reply_renders_structured_quote_after_delivery() {
    let author = user("t1", "7", "QQ", "A(7)", None);
    let users = BridgeUserManager::from_records(vec![author]).unwrap();
    let mut messages = MessageStore::new();
    let mut correlator = ReplyCorrelator::new();
    let original = message(
        "m0",
        "t1",
        vec![MessageContent::Plain { text: "first".to_string() }],
    );
    messages.add(original);
    correlator.record_send_receipt("m0", "QQ", 42, 6539);
    let reply = message(
        "m1",
        "t1",
        vec![MessageContent::Reply { id: Some("m0".to_string()) }],
    );
    let plan = sync_plan(&users, &messages, &correlator, &reply, 99);
    assert_eq!(plan.len(), 2);
    assert_eq!(
        plan[1],
        OutSegment::Reply {
            reply_seq: 6539,
            sender: 7,
            contents: vec![ReplySegment::Text("first".to_string())],
        }
    );
}

#[test]
fn reply_to_unknown_message_renders_placeholder() {
    let users = BridgeUserManager::new();
    let messages = MessageStore::new();
    let correlator = ReplyCorrelator::new();
    let reply = message(
        "m1",
        "t1",
        vec![MessageContent::Reply { id: Some("missing".to_string()) }],
    );
    let plan = sync_plan(&users, &messages, &correlator, &reply, 99);
    assert_eq!(plan[1], OutSegment::Text("> {reply}\n".to_string()));
}

#[test]
fn unsupported_and_image_segments_degrade() {
    let users = BridgeUserManager::new();
    let messages = MessageStore::new();
    let correlator = ReplyCorrelator::new();
    let msg = message(
        "m1",
        "t1",
        vec![
            MessageContent::Image { url: "http://example/a.png".to_string() },
            MessageContent::Other,
        ],
    );
    let plan = sync_plan(&users, &messages, &correlator, &msg, 99);
    assert_eq!(plan[0], OutSegment::Text("@[UN] t1\n".to_string()));
    assert_eq!(plan[1], OutSegment::ImageUrl("http://example/a.png".to_string()));
    assert_eq!(plan[2], OutSegment::Text("{unsupported}".to_string()));
}

#[test]
fn reply_without_recorded_delivery_renders_short_placeholder() {
    let users = BridgeUserManager::new();
    let mut messages = MessageStore::new();
    let correlator = ReplyCorrelator::new();
    messages.add(message(
        "m0",
        "t1",
        vec![MessageContent::Plain { text: "first".to_string() }],
    ));
    let reply = message(
        "m1",
        "t1",
        vec![MessageContent::Reply { id: Some("m0".to_string()) }],
    );
    let plan = sync_plan(&users, &messages, &correlator, &reply, 99);
    assert_eq!(plan[1], OutSegment::Text("{reply}".to_string()));
}

#[test]
fn quoted_content_flattens_nested_replies() {
    let author = user("t1", "not-numeric", "DC", "A", None);
    let users = BridgeUserManager::from_records(vec![author]).unwrap();
    let mut messages = MessageStore::new();
    let mut correlator = ReplyCorrelator::new();
    messages.add(message(
        "m0",
        "t1",
        vec![
            MessageContent::Reply { id: Some("even-older".to_string()) },
            MessageContent::Plain { text: "tail".to_string() },
            MessageContent::Image { url: "http://example/b.png".to_string() },
        ],
    ));
    correlator.record_send_receipt("m0", "QQ", 42, 8);
    let reply = message(
        "m1",
        "t1",
        vec![MessageContent::Reply { id: Some("m0".to_string()) }],
    );
    let plan = sync_plan(&users, &messages, &correlator, &reply, 77);
    // the quoted author is no native identity here, so the bridge's own id
    // stands as the quoted sender
    assert_eq!(
        plan[1],
        OutSegment::Reply {
            reply_seq: 8,
            sender: 77,
            contents: vec![
                ReplySegment::Text("[reply]".to_string()),
                ReplySegment::Text("tail".to_string()),
                ReplySegment::Text("[image]".to_string()),
            ],
        }
    );
}

#[test]
fn reply_with_no_id_renders_placeholder() {
    let users = BridgeUserManager::new();
    let messages = MessageStore::new();
    let correlator = ReplyCorrelator::new();
    let reply = message("m1", "t1", vec![MessageContent::Reply { id: None }]);
    let plan = sync_plan(&users, &messages, &correlator, &reply, 99);
    assert_eq!(plan[1], OutSegment::Text("> {reply}\n".to_string()));
}
