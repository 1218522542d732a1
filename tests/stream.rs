use backtalk::channel::{frame_outcome, PassAll as LibPassAll, run_filters, sse_frame, take_frames, Channel, Filter};
use backtalk::reply::{Body, Reply};

struct PassAll;

impl Filter for PassAll {
    fn answer(&self, item: Reply) -> Result<Reply, Reply> {
        self.handle(item)
    }

    fn handle(&self, item: Reply) -> Result<Reply, Reply> {
        Ok(item)
    }
}

struct DropSecret;

impl Filter for DropSecret {
    fn answer(&self, item: Reply) -> Result<Reply, Reply> {
        self.handle(item)
    }

    fn handle(&self, item: Reply) -> Result<Reply, Reply> {
        if item.data().map(|v| v.contains("secret")).unwrap_or(false) {
            Err(item)
        } else {
            Ok(item)
        }
    }
}

struct Wrap;

impl Filter for Wrap {
    fn answer(&self, item: Reply) -> Result<Reply, Reply> {
        self.handle(item)
    }

    fn handle(&self, item: Reply) -> Result<Reply, Reply> {
        assert_eq!(item.code(), 200);
        assert!(item.req.is_none());
        let v = item.data().expect("a single value").clone();
        Ok(Reply::new(200, None, format!("[{}]", v)))
    }
}

struct AnswerWithStream;

impl Filter for AnswerWithStream {
    fn answer(&self, item: Reply) -> Result<Reply, Reply> {
        self.handle(item)
    }

    fn handle(&self, _item: Reply) -> Result<Reply, Reply> {
        let mut channel = Channel::new();
        let (_, streamed) = Reply::new_streamed(200, None, &mut channel);
        Ok(streamed)
    }
}

#[test]
fn filters_chain_in_order_and_frame_last_value() {
    let mut channel = Channel::new();
    let (s, _) = Reply::new_streamed(200, None, &mut channel);
    channel.subscribe("k".to_string(), &s);
    channel.publish("k", &"1".to_string());
    channel.publish("k", &"2".to_string());
    let frames = take_frames(&mut channel, s.id, &vec![Wrap, Wrap]);
    assert_eq!(frames, vec!["data:[[1]]\n\n".to_string(), "data:[[2]]\n\n".to_string()]);
    assert!(take_frames(&mut channel, s.id, &vec![Wrap]).is_empty());
}

#[test]
fn stream_answer_drops_item() {
    assert_eq!(run_filters(&vec![AnswerWithStream], "1".to_string()), None);
    let mut channel = Channel::new();
    let (s, _) = Reply::new_streamed(200, None, &mut channel);
    channel.subscribe("k".to_string(), &s);
    channel.publish("k", &"1".to_string());
    assert!(take_frames(&mut channel, s.id, &vec![AnswerWithStream]).is_empty());
    channel.publish("k", &"2".to_string());
    assert_eq!(take_frames(&mut channel, s.id, &vec![Wrap]), vec!["data:[2]\n\n".to_string()]);
}

#[test]
fn publish_reaches_kind_only() {
    let mut channel = Channel::new();
    let (sender, reply) = Reply::new_streamed(200, None, &mut channel);
    channel.subscribe("test kind".to_string(), &sender);
    assert!(matches!(reply.to_http().body, Body::Stream(id) if id == sender.id));
    channel.publish("test kind", &"{\"x\":1}".to_string());
    let none: Vec<PassAll> = Vec::new();
    let frames = take_frames(&mut channel, sender.id, &none);
    assert_eq!(frames, vec!["data:{\"x\":1}\n\n".to_string()]);
    channel.publish("other kind", &"{\"x\":2}".to_string());
    assert!(take_frames(&mut channel, sender.id, &none).is_empty());
}

#[test]
fn every_subscriber_gets_each_value_once_in_order() {
    let mut channel = Channel::new();
    let mut senders = Vec::new();
    for _ in 0..3 {
        let (s, _) = Reply::new_streamed(200, None, &mut channel);
        channel.subscribe("k".to_string(), &s);
        senders.push(s);
    }
    let (late, _) = Reply::new_streamed(200, None, &mut channel);
    channel.publish("k", &"1".to_string());
    channel.publish("k", &"2".to_string());
    channel.subscribe("k".to_string(), &late);
    for s in &senders {
        assert_eq!(channel.take(s.id), vec!["1".to_string(), "2".to_string()]);
        assert!(channel.take(s.id).is_empty());
    }
    assert!(channel.take(late.id).is_empty());
}

#[test]
fn closed_stream_gets_nothing() {
    let mut channel = Channel::new();
    let (a, _) = Reply::new_streamed(200, None, &mut channel);
    let (b, _) = Reply::new_streamed(200, None, &mut channel);
    assert_ne!(a.id, b.id);
    channel.subscribe("k".to_string(), &a);
    channel.subscribe("k".to_string(), &b);
    channel.close(a.id);
    channel.publish("k", &"1".to_string());
    assert!(channel.take(a.id).is_empty());
    assert_eq!(channel.take(b.id), vec!["1".to_string()]);
    assert_eq!(channel.streams.len(), 1);
}

#[test]
fn publish_without_subscribers_is_noop() {
    let mut channel = Channel::new();
    let (a, _) = Reply::new_streamed(200, None, &mut channel);
    channel.publish("k", &"1".to_string());
    assert!(channel.take(a.id).is_empty());
}

#[test]
fn dropped_item_leaves_stream_open() {
    let mut channel = Channel::new();
    let (s, _) = Reply::new_streamed(200, None, &mut channel);
    channel.subscribe("k".to_string(), &s);
    channel.publish("k", &"\"secret\"".to_string());
    channel.publish("k", &"\"open\"".to_string());
    let filters = vec![PassAll, PassAll];
    let drop_secret = vec![DropSecret];
    let frames = take_frames(&mut channel, s.id, &drop_secret);
    assert_eq!(frames, vec!["data:\"open\"\n\n".to_string()]);
    channel.publish("k", &"3".to_string());
    assert_eq!(take_frames(&mut channel, s.id, &filters), vec!["data:3\n\n".to_string()]);
}

#[test]
fn filter_answers() {
    assert_eq!(frame_outcome(Ok(Reply::new(200, None, "5".to_string()))), Some("data:5\n\n".to_string()));
    assert_eq!(frame_outcome(Err(Reply::new(200, None, "5".to_string()))), None);
    let mut channel = Channel::new();
    let (_, streamed) = Reply::new_streamed(200, None, &mut channel);
    assert_eq!(frame_outcome(Ok(streamed)), None);
    assert_eq!(run_filters(&vec![DropSecret], "\"secret\"".to_string()), None);
    assert_eq!(run_filters(&Vec::<PassAll>::new(), "1".to_string()), Some("1".to_string()));
    assert_eq!(sse_frame("{}"), "data:{}\n\n");
}

#[test]
fn ended_stream_keeps_pending_items_then_finishes() {
    let mut channel = Channel::new();
    let (s, _) = Reply::new_streamed(200, None, &mut channel);
    channel.subscribe("k".to_string(), &s);
    channel.publish("k", &"1".to_string());
    assert!(!channel.finished(s.id));
    channel.end(s);
    channel.publish("k", &"2".to_string());
    assert!(!channel.finished(s.id));
    let pass = vec![LibPassAll];
    assert_eq!(take_frames(&mut channel, s.id, &pass), vec!["data:1\n\n".to_string()]);
    assert!(channel.finished(s.id));
    assert_eq!(channel.streams.len(), 1);
    channel.close(s.id);
    assert!(channel.finished(s.id));
}

#[test]
fn live_stream_is_not_finished_when_empty() {
    let mut channel = Channel::new();
    let (s, _) = Reply::new_streamed(200, None, &mut channel);
    assert!(channel.take(s.id).is_empty());
    assert!(!channel.finished(s.id));
}
