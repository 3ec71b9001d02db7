use bobaclaw::telegram::api::{Audio, Chat, Document, Message, PhotoSize, Update, User, Voice};
use bobaclaw::telegram::runtime::{delivery_chat_id, route_update, UpdateRoute};
use bobaclaw::telegram::media::{
    candidate_file_names, downloaded_file, pick_free_name, plan_media, sanitize_filename,
    telegram_inbox_rel,
};
use bobaclaw::telegram::stream::StreamGate;

fn media_msg() -> Message {
    Message {
        message_id: 99,
        chat: Chat { id: 42, chat_type: "private".into(), title: None },
        from: None,
        text: None,
        caption: None,
        document: Some(Document {
            file_id: "doc".into(),
            file_name: Some("my report?.pdf".into()),
            mime_type: None,
        }),
        photo: Some(vec![
            PhotoSize { file_id: "small".into(), width: 90, height: 90 },
            PhotoSize { file_id: "big".into(), width: 900, height: 900 },
        ]),
        voice: Some(Voice { file_id: "v".into() }),
        audio: Some(Audio { file_id: "a".into(), file_name: Some(String::new()) }),
        video: None,
        entities: None,
        reply_to_message: None,
        message_thread_id: None,
    }
}

#[test]
fn workspace_rel_matches_inbox_layout() {
    let f = downloaded_file("42", "99", "result.json", "/ws/home/inbox/telegram/42/99/result.json".into(), "document", Some("result.json".into()));
    assert_eq!(f.workspace_rel, "inbox/telegram/42/99/result.json");
    assert_eq!(telegram_inbox_rel(42, 99), "inbox/telegram/42/99");
    assert_eq!(telegram_inbox_rel(-100123, 5), "inbox/telegram/-100123/5");
}

#[test]
fn media_plan_order_and_names() {
    let plan = plan_media(&media_msg());
    let kinds: Vec<&str> = plan.iter().map(|d| d.kind).collect();
    assert_eq!(kinds, vec!["image", "document", "voice", "audio"]);
    assert_eq!(plan[0].file_id, "big");
    assert_eq!(plan[0].file_name, "photo.jpg");
    assert!(!plan[0].unique);
    assert_eq!(plan[1].file_name, "my report_.pdf");
    assert!(plan[1].unique);
    assert_eq!(plan[1].original_name.as_deref(), Some("my report?.pdf"));
    assert_eq!(plan[3].file_name, "audio.mp3");
    assert_eq!(plan[3].suffix, ".mp3");
}

#[test]
fn sanitized_names() {
    assert_eq!(sanitize_filename("a/b\\c.txt"), "a_b_c.txt");
    assert_eq!(sanitize_filename(""), "file");
    assert_eq!(sanitize_filename("файл.txt"), "____.txt");
    assert_eq!(sanitize_filename(&"x".repeat(300)).len(), 200);
}

#[test]
fn free_name_candidates() {
    let c = candidate_file_names("report.pdf");
    assert_eq!(c.len(), 99);
    assert_eq!(c[0], "report.pdf");
    assert_eq!(c[1], "report-2.pdf");
    assert_eq!(c[98], "report-99.pdf");
    assert_eq!(candidate_file_names(".bashrc")[1], ".bashrc-2");
    assert_eq!(candidate_file_names("archive.tar.gz")[1], "archive.tar-2.gz");
    assert_eq!(candidate_file_names("README")[2], "README-3");
    assert_eq!(pick_free_name(&vec![true, true, false, false]), 2);
    assert_eq!(pick_free_name(&vec![true, true]), 0);
}

#[test]
fn stream_edits_are_throttled_and_stamped() {
    let mut g = StreamGate::new(100_000, 100);
    assert_eq!(g.interval_ms, 300);
    assert_eq!(g.on_progress(100_000, false), Some(1));
    assert_eq!(g.on_progress(100_100, false), None);
    assert_eq!(g.on_progress(100_100, true), Some(2));
    assert!(!g.may_send(1));
    assert!(g.may_send(2));
    assert_eq!(g.on_progress(100_400, false), Some(3));
    g.finalize();
    assert!(!g.may_send(3));
    assert_eq!(g.on_progress(200_000, true), None);
}

#[test]
fn updates_route_to_pairing_or_inbound() {
    let mut msg = media_msg();
    msg.document = None;
    msg.photo = None;
    msg.voice = None;
    msg.audio = None;
    msg.from = Some(User { id: 7, username: Some("bob".into()), is_bot: false });
    msg.text = Some(" /start ".into());
    let update = Update { update_id: 5, message: None, edited_message: Some(msg) };
    assert!(matches!(route_update(&update, 1, Some("bot")), UpdateRoute::Pairing(i) if i.text == "/start"));
    let mut msg = media_msg();
    msg.from = Some(User { id: 7, username: None, is_bot: false });
    msg.caption = Some("look".into());
    let update = Update { update_id: 6, message: Some(msg), edited_message: None };
    assert!(matches!(route_update(&update, 1, Some("bot")), UpdateRoute::Inbound(i) if i.text == "look"));
    let empty = Update { update_id: 7, message: None, edited_message: None };
    assert!(matches!(route_update(&empty, 1, Some("bot")), UpdateRoute::Skip));
}

#[test]
fn delivery_chat_id_errors_read_like_std() {
    assert_eq!(delivery_chat_id(Some("-100123")).ok(), Some(-100123));
    let e = delivery_chat_id(Some("abc")).err().unwrap();
    assert_eq!(e.message(), "invalid telegram chat id abc: invalid digit found in string");
    assert_eq!(format!("{}", "abc".parse::<i64>().unwrap_err()), "invalid digit found in string");
    assert_eq!(delivery_chat_id(None).err().unwrap().message(), "telegram delivery missing peer");
}
