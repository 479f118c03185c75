use nps::model::data_io_len::{AtomicDataIOLen, DataIOLen};
use nps::model::data_total::DataTotal;
use nps::nps::nps_bridge::{target_info, target_info_frame};
use nps::nps::nps_client::{parse_header_text, parse_session_header, SessionError};
use nps::nps::nps_pool::tcp_pool_manager::{pool_request_count, AddOutcome, FetchAction, PoolFetch, TcpPoolManager};
use nps::nps::nps_timer::{stale_clients, ChannelSample, TrafficCollector};
use nps::nps::security_util::{apply_key, client_key_of, new_server_key, SecurityKeys};

#[test]
fn keys_undo_each_other() {
    let keys = SecurityKeys::new();
    assert_eq!(keys.server.len(), 256);
    let mut seen = [false; 256];
    for &b in &keys.server {
        assert!(!seen[b as usize]);
        seen[b as usize] = true;
    }
    for b in 0..256usize {
        assert_eq!(keys.client[keys.server[b] as usize] as usize, b);
        assert_eq!(keys.server[keys.client[b] as usize] as usize, b);
    }
}

#[test]
fn encoding_then_decoding_gives_the_bytes_back() {
    let server = new_server_key();
    let client = client_key_of(&server);
    let plain: Vec<u8> = b"hello, tunnel".to_vec();
    let mut buf = plain.clone();
    buf.extend_from_slice(b"tail");
    let n = plain.len();
    apply_key(&server, &mut buf, n);
    assert_eq!(&buf[n..], b"tail");
    apply_key(&client, &mut buf, n);
    assert_eq!(&buf[..n], &plain[..]);
    assert_eq!(&buf[n..], b"tail");
}

#[test]
fn identity_key_substitution_is_exact() {
    let key: Vec<u8> = (0..=255u8).rev().collect();
    let mut buf = vec![0u8, 1, 255, 7];
    apply_key(&key, &mut buf, 3);
    assert_eq!(buf, vec![255u8, 254, 0, 7]);
}

#[test]
fn header_splits_into_key_and_version() {
    match parse_header_text("abc|1.0.2") {
        Ok((k, v)) => {
            assert_eq!(k, "abc");
            assert_eq!(v, "1.0.2");
        }
        Err(_) => panic!("expected a header"),
    }
    match parse_header_text("a|b|c") {
        Err(SessionError::InvalidHeader(h)) => assert_eq!(h, "a|b|c"),
        Ok(_) => panic!("three pieces are refused"),
    }
    assert!(parse_header_text("nobar").is_err());
    assert!(parse_header_text("").is_err());
    match parse_header_text("|") {
        Ok((k, v)) => assert!(k.is_empty() && v.is_empty()),
        Err(_) => panic!("two empty pieces are a header"),
    }
}

#[test]
fn header_bytes_are_decoded() {
    match parse_session_header(b"key|2") {
        Ok((k, v)) => {
            assert_eq!(k, "key");
            assert_eq!(v, "2");
        }
        Err(_) => panic!("expected a header"),
    }
    match parse_session_header(&[0xff, b'|', b'x']) {
        Ok((k, v)) => {
            assert_eq!(k, "\u{fffd}");
            assert_eq!(v, "x");
        }
        Err(_) => panic!("invalid bytes become a replacement char"),
    }
}

#[test]
fn target_info_is_state_bar_port() {
    assert_eq!(target_info(1, "80"), "1|80");
    assert_eq!(target_info(0, "127.0.0.1:22"), "0|127.0.0.1:22");
    assert_eq!(target_info(-5, "x"), "-5|x");
    assert_eq!(target_info_frame(1, "80"), vec![4u8, b'1', b'|', b'8', b'0']);
    let long = "a".repeat(300);
    let frame = target_info_frame(0, &long);
    assert_eq!(frame[0], ((302usize) % 256) as u8);
    assert_eq!(frame.len(), 303);
}

#[test]
fn pools_hand_out_the_oldest_first() {
    let mut m: TcpPoolManager<&str> = TcpPoolManager::new();
    assert!(matches!(m.add(7, "a", 10, 2), AddOutcome::NoClient("a")));
    m.init_empty_pool_by_client(7);
    assert!(matches!(m.add(7, "a", 10, 2), AddOutcome::Added));
    assert!(matches!(m.add(7, "b", 11, 2), AddOutcome::Added));
    assert!(matches!(m.add(7, "c", 12, 2), AddOutcome::Full("c")));
    assert_eq!(m.get_pool_count(7), 2);
    assert_eq!(m.get_pool_count(8), 0);
    assert_eq!(m.get(7), Some(("a", 2)));
    assert_eq!(m.get(7), Some(("b", 1)));
    assert_eq!(m.get(7), None);
    assert_eq!(m.get(8), None);
    m.shutdown_by_client(7);
    assert!(matches!(m.add(7, "d", 13, 2), AddOutcome::NoClient("d")));
}

#[test]
fn stale_connections_are_dropped() {
    let mut m: TcpPoolManager<u32> = TcpPoolManager::new();
    m.init_empty_pool_by_client(1);
    m.init_empty_pool_by_client(2);
    m.init_empty_pool_by_client(3);
    let _ = m.add(1, 100, 0, 10);
    let _ = m.add(1, 101, 50, 10);
    let _ = m.add(2, 200, 10, 10);
    let mut empty = m.timeout_check(100, 60);
    empty.sort();
    assert_eq!(empty, vec![2i64, 3]);
    assert_eq!(m.get_pool_count(1), 1);
    assert_eq!(m.get(1), Some((101, 1)));
}

#[test]
fn pool_request_count_depends_on_fullness() {
    assert_eq!(pool_request_count(10, 10), 1);
    assert_eq!(pool_request_count(3, 10), 2);
}

fn sample(channel_id: i64, client_id: i64, i: u64, o: u64) -> ChannelSample {
    ChannelSample { channel_id, client_id, data_len: DataIOLen { in_len: i, out_len: o } }
}

#[test]
fn traffic_growth_is_recorded_and_summed() {
    let mut c = TrafficCollector::new();
    let due = c.collect_data(&vec![sample(1, 10, 100, 50), sample(2, 10, 0, 0), sample(3, 20, 7, 3)], 1000, 1000, 1500);
    assert!(!due);
    assert_eq!(c.cache.len(), 2);
    assert_eq!(c.cache[0].channel_id, 1);
    assert_eq!(c.cache[0].in_len, 100);
    assert_eq!(c.cache[0].out_len, 50);
    assert_eq!(c.cache[0].date, 1000);
    assert_eq!(c.pre_channel_len.len(), 3);
    let due = c.collect_data(&vec![sample(1, 10, 130, 60), sample(3, 20, 7, 3)], 1001, 1000, 1500);
    assert!(due);
    assert_eq!(c.cache.len(), 3);
    assert_eq!(c.cache[2].in_len, 30);
    assert_eq!(c.cache[2].out_len, 10);
    let plan = c.flush_plan();
    assert_eq!(plan.stats.len(), 3);
    assert_eq!(plan.total, DataIOLen { in_len: 137, out_len: 63 });
    assert_eq!(plan.client_totals.len(), 2);
    for (client, d) in &plan.client_totals {
        if *client == 10 {
            assert_eq!(*d, DataIOLen { in_len: 130, out_len: 60 });
        } else {
            assert_eq!(*client, 20);
            assert_eq!(*d, DataIOLen { in_len: 7, out_len: 3 });
        }
    }
    assert_eq!(plan.channel_totals.len(), 3);
    c.flushed();
    assert_eq!(c.cache.len(), 0);
    assert_eq!(c.pre_insert_time, 0);
}

#[test]
fn silent_clients_are_found() {
    let clients = vec![(1i64, 1000u64), (2, 9000), (3, 4000)];
    assert_eq!(stale_clients(&clients, 10000, 3000), vec![1i64]);
    assert_eq!(stale_clients(&clients, 10000, 2000), vec![1i64, 3]);
}

#[test]
fn data_io_len_adds_and_converts() {
    let a = DataIOLen::from(3u8, 4u8);
    assert_eq!(a, DataIOLen { in_len: 3, out_len: 4 });
    assert_eq!(a + DataIOLen { in_len: 10, out_len: 20 }, DataIOLen { in_len: 13, out_len: 24 });
    assert_eq!(DataIOLen::from(-1i8, 0i8).in_len, u64::MAX);
    assert_eq!(DataIOLen::default(), DataIOLen { in_len: 0, out_len: 0 });
}

#[test]
fn shared_counters_accumulate() {
    let c = AtomicDataIOLen::new();
    let d = c.clone();
    c.add_in(5usize);
    d.add_out(7u32);
    assert_eq!(c.load(), DataIOLen { in_len: 5, out_len: 7 });
    assert_eq!(d.load_in(), 5);
    let f = AtomicDataIOLen::from(1i64, 2i64);
    assert_eq!(f.load_out(), 2);
    let t = DataTotal::from(1u64, 2u64);
    t.add_in(10u64);
    t.add_out(1u16);
    assert_eq!((t.load_in(), t.load_out()), (11, 3));
    assert_eq!(DataTotal::new().load_in(), 0);
}

#[test]
fn fetching_tries_five_times() {
    let mut f = PoolFetch::new();
    for _ in 0..5 {
        assert!(!f.exhausted());
        assert!(matches!(f.next(None, 10), FetchAction::RequestAndWait));
    }
    assert!(f.exhausted());
    let mut g = PoolFetch::new();
    assert!(matches!(g.next(Some(10), 10), FetchAction::Use(1)));
    assert!(matches!(g.next(Some(4), 10), FetchAction::Use(2)));
    assert_eq!(g.attempts, 0);
}

#[test]
fn flush_lists_each_tunnel_latest_counters() {
    let mut c = TrafficCollector::new();
    let _ = c.collect_data(&vec![sample(1, 10, 100, 50), sample(2, 10, 0, 0)], 1000, 1000, 1500);
    let _ = c.collect_data(&vec![sample(1, 10, 130, 60), sample(3, 20, 7, 3)], 1001, 1000, 1500);
    let mut totals = c.flush_plan().channel_totals;
    totals.sort_by_key(|(id, _)| *id);
    assert_eq!(
        totals,
        vec![
            (1, DataIOLen { in_len: 130, out_len: 60 }),
            (2, DataIOLen { in_len: 0, out_len: 0 }),
            (3, DataIOLen { in_len: 7, out_len: 3 }),
        ]
    );
}
