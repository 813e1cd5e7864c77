use musk::event::{Entities, ExtendedTweet, ExternalEvent, TweetRecord};
use musk::hub::BroadcastHub;
use musk::price::{fetch_current_price, PricePoint, PRICE_BOUND_CENTS};
use musk::sampler::SamplerScheduler;
use musk::session::{Session, SessionAction, SessionEvent};
use musk::station::Station;
use musk::trigger::{chars_of, contains_chars, first_match, TriggerCondition, TriggerWatcher};

const SECOND: u64 = 1_000_000_000;

fn post(id: u64, text: &str, is_retweet: bool) -> ExternalEvent {
    ExternalEvent::Recognized { id, text: text.to_string(), mentions: vec![], is_retweet }
}

fn condition(keyword: &str) -> TriggerCondition {
    TriggerCondition { keyword: keyword.to_string(), skip_retweets: false }
}

fn station() -> Station {
    Station::new(condition("rocket"), 30 * SECOND, 16)
}

#[test]
fn feed_without_match_never_starts() {
    let mut st = station();
    let id = st.register().unwrap();
    let feed = vec![post(1, "hello", false), ExternalEvent::Unrecognized, post(3, "cars", false)];
    for (k, ev) in feed.iter().enumerate() {
        assert!(!st.on_feed(ev, 100 + k as i64));
    }
    assert!(!st.is_sampling());
    assert_eq!(st.next_tick_time(), None);
    assert_eq!(st.on_tick(Some(5), 1_000_000), None);
    assert_eq!(st.take_inbox(id), Some(vec![]));
}

#[test]
fn fires_once_on_second_post() {
    let mut st = station();
    let feed = vec![
        post(1, "nothing here", false),
        post(2, "a rocket launch", false),
        post(3, "another rocket", false),
        post(4, "rocket again", true),
    ];
    let fired: Vec<bool> = feed.iter().enumerate().map(|(k, ev)| st.on_feed(ev, 1000 * k as i64)).collect();
    assert_eq!(fired, vec![false, true, false, false]);
    assert!(st.is_sampling());
    // tick zero is at the time of the firing item, not of later matches
    assert_eq!(st.next_tick_time(), Some(1000));
}

#[test]
fn two_subscribers_see_same_ticks() {
    let mut st = station();
    let a = st.register().unwrap();
    let b = st.register().unwrap();
    assert_ne!(a, b);
    assert!(st.on_feed(&post(1, "rocket", false), 0));
    let step = (30 * SECOND) as i64;
    let nows = vec![3, step + 1, 2 * step, 3 * step + 7, 4 * step + 2];
    let mut sent = vec![];
    for (k, now) in nows.iter().enumerate() {
        sent.push(st.on_tick(Some(100 * (k as u64 + 1)), *now).unwrap());
    }
    let got_a = st.take_inbox(a).unwrap();
    let got_b = st.take_inbox(b).unwrap();
    assert_eq!(got_a, sent);
    assert_eq!(got_b, sent);
    let times: Vec<i64> = got_a.iter().map(|p| p.time).collect();
    assert_eq!(times, nows);
    let prices: Vec<u64> = got_b.iter().map(|p| p.price).collect();
    assert_eq!(prices, vec![100, 200, 300, 400, 500]);
}

#[test]
fn late_subscriber_after_unregister() {
    let mut st = station();
    let step = (30 * SECOND) as i64;
    assert!(st.on_feed(&post(1, "rocket", false), 10));
    let a = Session::started(&mut st).unwrap();
    let t1 = st.on_tick(Some(1), 10).unwrap();
    assert_eq!(st.take_inbox(a.subscriber()), Some(vec![t1]));
    assert!(st.unregister(a.subscriber()));
    let b = Session::started(&mut st).unwrap().subscriber();
    assert_ne!(b, a.subscriber());
    // not due yet: nothing is taken or published
    assert_eq!(st.on_tick(Some(9), step), None);
    let t2 = st.on_tick(Some(2), 10 + step).unwrap();
    let t3 = st.on_tick(Some(3), 12 + 2 * step).unwrap();
    let a = a.subscriber();
    assert_eq!(st.take_inbox(b), Some(vec![t2, t3]));
    assert_eq!(st.take_inbox(a), None);
    assert!(!st.unregister(a));
}

#[test]
fn trigger_fires_at_most_once() {
    let mut w = TriggerWatcher::new(condition(""));
    assert!(!w.observe(&ExternalEvent::Unrecognized));
    assert!(w.observe(&post(1, "", false)));
    for k in 2..10 {
        assert!(!w.observe(&post(k, "anything", false)));
    }
    assert!(w.fired());
}

#[test]
fn condition_keyword_and_retweets() {
    let c = TriggerCondition { keyword: "Musk".to_string(), skip_retweets: true };
    assert!(c.matches(&post(1, "@Elon Musk says hi", false)));
    assert!(!c.matches(&post(2, "@Elon Musk says hi", true)));
    assert!(!c.matches(&post(3, "musk in lower case", false)));
    assert!(!c.matches(&ExternalEvent::Unrecognized));
    let d = condition("Musk");
    assert!(d.matches(&post(4, "Musk", true)));
}

#[test]
fn first_match_finds_earliest() {
    let c = condition("go");
    let feed = vec![post(1, "stop", false), post(2, "go now", false), post(3, "go", false)];
    assert_eq!(first_match(&c, &feed), Some(1));
    assert_eq!(first_match(&c, &vec![post(1, "stop", false)]), None);
    assert_eq!(first_match(&c, &vec![]), None);
}

#[test]
fn substring_search_edges() {
    let t = chars_of("héllo wörld");
    assert_eq!(t.len(), 11);
    assert!(contains_chars(&t, &chars_of("wör")));
    assert!(contains_chars(&t, &chars_of("")));
    assert!(contains_chars(&t, &chars_of("héllo wörld")));
    assert!(!contains_chars(&t, &chars_of("world")));
    assert!(!contains_chars(&chars_of("ab"), &chars_of("abc")));
}

#[test]
fn recognize_prefers_extended_text() {
    let rec = TweetRecord {
        entities: Some(Entities { user_mentions: vec![1] }),
        id: 7,
        text: "short…".to_string(),
        extended_tweet: Some(ExtendedTweet {
            full_text: "the full text".to_string(),
            entities: Some(Entities { user_mentions: vec![2, 3] }),
        }),
        retweeted: true,
    };
    match ExternalEvent::recognize(rec) {
        ExternalEvent::Recognized { id, text, mentions, is_retweet } => {
            assert_eq!(id, 7);
            assert_eq!(text, "the full text");
            assert_eq!(mentions, vec![2, 3]);
            assert!(is_retweet);
        }
        ExternalEvent::Unrecognized => panic!("expected a post"),
    }
    let plain = TweetRecord { entities: None, id: 8, text: "hi".to_string(), extended_tweet: None, retweeted: false };
    let ev = ExternalEvent::recognize(plain);
    assert!(ev.is_recognized());
    match ev {
        ExternalEvent::Recognized { id, text, mentions, is_retweet } => {
            assert_eq!((id, text.as_str(), mentions.len(), is_retweet), (8, "hi", 0, false));
        }
        ExternalEvent::Unrecognized => panic!("expected a post"),
    }
}

#[test]
fn sampler_starts_once_and_keeps_schedule() {
    let mut s = SamplerScheduler::new(5);
    assert_eq!(s.on_tick(Some(1), 100), None);
    assert!(s.start(100));
    assert!(!s.start(999));
    assert_eq!(s.on_tick(Some(1), 101), Some(PricePoint { price: 1, time: 101 }));
    assert_eq!(s.on_tick(Some(2), 104), None);
    assert_eq!(s.next_tick_time(), Some(105));
    assert_eq!(s.on_tick(None, 106), None);
    assert_eq!(s.on_tick(Some(3), 112), Some(PricePoint { price: 3, time: 112 }));
    assert_eq!(s.next_tick_time(), Some(115));
    assert_eq!(s.period(), 5);
}

#[test]
fn sampler_stops_at_end_of_time_range() {
    let mut s = SamplerScheduler::new(10);
    assert!(s.start(i64::MAX - 15));
    assert_eq!(s.on_tick(Some(1), i64::MAX - 15).map(|p| p.time), Some(i64::MAX - 15));
    assert_eq!(s.on_tick(Some(1), i64::MAX - 4).map(|p| p.time), Some(i64::MAX - 4));
    assert_eq!(s.next_tick_time(), None);
    assert_eq!(s.on_tick(Some(1), i64::MAX), None);
}

#[test]
fn sampler_negative_origin() {
    let mut s = SamplerScheduler::new(u64::MAX);
    assert!(s.start(i64::MIN));
    assert_eq!(s.on_tick(Some(1), i64::MIN).map(|p| p.time), Some(i64::MIN));
    assert_eq!(s.next_tick_time(), Some(i64::MAX));
}

#[test]
fn hub_drops_oldest_when_full() {
    let mut h = BroadcastHub::new(2);
    let a = h.register().unwrap();
    for v in 1..=3u64 {
        h.publish(PricePoint { price: v, time: v as i64 });
    }
    let got: Vec<u64> = h.take_inbox(a).unwrap().iter().map(|p| p.price).collect();
    assert_eq!(got, vec![2, 3]);
}

#[test]
fn hub_unregister_is_idempotent() {
    let mut h = BroadcastHub::new(4);
    let a = h.register().unwrap();
    let b = h.register().unwrap();
    assert!(h.unregister(a));
    assert!(!h.unregister(a));
    assert!(!h.is_registered(a));
    assert!(h.is_registered(b));
    let p = PricePoint { price: 9, time: 1 };
    h.publish(p);
    assert_eq!(h.take_inbox(b), Some(vec![p]));
    assert_eq!(h.take_inbox(a), None);
}

#[test]
fn hub_publish_before_register_not_delivered() {
    let mut h = BroadcastHub::new(4);
    h.publish(PricePoint { price: 1, time: 1 });
    let a = h.register().unwrap();
    assert_eq!(h.take_inbox(a), Some(vec![]));
}

#[test]
fn session_leaves_once() {
    let mut s = Session::new(4);
    assert_eq!(s.subscriber(), 4);
    match s.on_event(SessionEvent::Ping(vec![1, 2])) {
        SessionAction::Pong(p) => assert_eq!(p, vec![1, 2]),
        _ => panic!("expected a pong"),
    }
    assert!(matches!(s.on_event(SessionEvent::Other), SessionAction::Nothing));
    assert!(matches!(s.on_event(SessionEvent::ProtocolError), SessionAction::Leave(4)));
    assert!(!s.is_open());
    assert!(matches!(s.on_event(SessionEvent::Close), SessionAction::Nothing));
    assert!(matches!(s.on_event(SessionEvent::SendFailed), SessionAction::Nothing));
    assert!(matches!(s.on_event(SessionEvent::Ping(vec![])), SessionAction::Nothing));
}

#[test]
fn value_source_stays_in_range() {
    for _ in 0..100 {
        assert!(fetch_current_price() < PRICE_BOUND_CENTS);
    }
}

#[test]
fn live_clock_and_source_drive_the_pipeline() {
    let mut st = station();
    let a = st.register().unwrap();
    assert_eq!(st.on_feed_now(&post(1, "rocket", false)), Some(true));
    let t0 = st.next_tick_time().unwrap();
    assert!(t0 > 1_500_000_000 * SECOND as i64);
    let p = st.tick_now().unwrap();
    assert!(p.time >= t0 && p.time < t0 + SECOND as i64);
    assert!(p.price < PRICE_BOUND_CENTS);
    assert_eq!(st.take_inbox(a), Some(vec![p]));
    // the next tick is thirty seconds away
    assert_eq!(st.tick_now(), None);
    assert_eq!(st.next_tick_time(), Some(t0 + 30 * SECOND as i64));
    assert_eq!(st.on_feed_now(&post(2, "rocket", false)), Some(false));
}

#[test]
fn started_session_misses_earlier_samples() {
    let mut st = station();
    let early = st.register().unwrap();
    assert!(st.on_feed(&post(1, "rocket", false), 0));
    let p = st.on_tick(Some(7), 0).unwrap();
    let s = Session::started(&mut st).unwrap();
    assert!(s.is_open());
    assert_ne!(s.subscriber(), early);
    assert_eq!(st.take_inbox(s.subscriber()), Some(vec![]));
    assert_eq!(st.take_inbox(early), Some(vec![p]));
}
