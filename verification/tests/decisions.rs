use bytes::Bytes;
use rudis::answers::{
    check_new_index, client_list, condition_met, delex_decision, dropped_index, frame_dump,
    incr_answer, read_integer_reply, routing_error, seal_dump, still_wanted, ClientInfo, Reply,
};
use rudis::glob::glob_match;
use rudis::hashing::hash_key;
use rudis::merging::{comes_before, merge_names, merge_numsub, merge_shard_numsub, sum_counts};
use rudis::ranking::{aggregate_options, merge_hits, order_by_rank, scatter_options};
use rudis::router::Router;
use rudis::search::SearchOptions;
use rudis::tiering::{
    merge_snapshots, plan_cool, plan_read, plan_spill, ReadPlan, SpillPlan, TieringStats,
};

fn b(text: &'static str) -> Bytes {
    Bytes::from_static(text.as_bytes())
}

#[test]
fn patterns_match_as_usual() {
    assert!(glob_match(b"h?llo", b"hello"));
    assert!(glob_match(b"h*llo", b"heeeello"));
    assert!(glob_match(b"*", b""));
    assert!(glob_match(b"a*b*c", b"a-b-b-c"));
    assert!(!glob_match(b"a*b*c", b"a-b-b"));
    assert!(!glob_match(b"h?llo", b"hllo"));
    assert!(!glob_match(b"", b"x"));
    assert!(glob_match(b"", b""));
}

#[test]
fn a_star_that_meets_a_star_is_one() {
    assert!(glob_match(b"*", b"*"));
    assert!(!glob_match(b"*", b"*x"));
}

#[test]
fn hashes_are_known() {
    assert_eq!(hash_key(b""), 0xcbf29ce484222325);
    assert_eq!(hash_key(b"foobar"), 0x85944171f73967e8);
}

#[test]
fn names_are_merged_in_order() {
    assert!(comes_before(b"a", b"ab"));
    assert!(comes_before(b"ab", b"b"));
    assert!(!comes_before(b"b", b"b"));
    let merged = merge_names(&vec![vec![b("b"), b("a")], vec![], vec![b("c"), b("a")]]);
    assert_eq!(merged, vec![b("a"), b("b"), b("c")]);
}

#[test]
fn counts_are_added() {
    assert_eq!(sum_counts(&vec![]), 0);
    assert_eq!(sum_counts(&vec![2, 3, 4]), 9);
    let channels = vec![b("x"), b("y"), b("z")];
    let local = vec![(b("x"), 1), (b("y"), 2)];
    let remote = vec![vec![(b("x"), 10)], vec![(b("y"), 5), (b("x"), 100)]];
    assert_eq!(
        merge_numsub(&channels, &local, &remote),
        vec![(b("x"), 111), (b("y"), 7), (b("z"), 0)]
    );
    assert_eq!(
        merge_shard_numsub(&channels, &local, &remote),
        vec![(b("x"), 100), (b("y"), 5), (b("z"), 0)]
    );
}

#[test]
fn hits_are_ordered_and_paged() {
    assert_eq!(order_by_rank(&vec![3, 1, 2, 1], true), vec![1, 3, 2, 0]);
    assert_eq!(order_by_rank(&vec![3, 1, 2, 1], false), vec![0, 2, 1, 3]);
    let (total, page) = merge_hits(&vec![2, 2], &vec![3, 1, 2, 1], true, 1, 2, None);
    assert_eq!((total, page), (4, vec![3, 2]));
    let (total, page) = merge_hits(&vec![2, 2], &vec![3, 1, 2, 1], true, 0, 10, Some(3));
    assert_eq!((total, page), (3, vec![1, 3, 2]));
    let (_, page) = merge_hits(&vec![4], &vec![3, 1, 2, 1], true, 9, 2, None);
    assert!(page.is_empty());
}

#[test]
fn shards_are_asked_for_all_that_a_page_may_need() {
    let mut opts = SearchOptions::default();
    opts.offset = 5;
    opts.limit = 10;
    let sent = scatter_options(opts);
    assert_eq!((sent.offset, sent.limit), (0, 15));
    let mut opts = SearchOptions::default();
    opts.offset = usize::MAX;
    opts.limit = 10;
    assert_eq!(scatter_options(opts).limit, usize::MAX);
    let opts = aggregate_options(vec!["name".to_string()]);
    assert_eq!(opts.limit, 100_000);
    assert_eq!(opts.return_fields, Some(vec!["name".to_string()]));
    assert_eq!(aggregate_options(vec![]).return_fields, None);
}

#[test]
fn lost_answers_are_errors() {
    assert_eq!(Reply::Came(3).or(9), 3);
    assert_eq!(Reply::Lost.or(9), 9);
    assert_eq!(Reply::Unsent.or(9), 9);
    assert_eq!(incr_answer(Reply::Came(Ok(4))), Ok(4));
    assert_eq!(incr_answer(Reply::Lost), Err("shard disconnected".to_string()));
    assert_eq!(incr_answer(Reply::Unsent), Err("failed to route to shard".to_string()));
    assert_eq!(routing_error(), b"-ERR internal shard routing error\r\n");
}

#[test]
fn integers_are_read_from_replies() {
    assert_eq!(read_integer_reply(b":42\r\n"), Some(42));
    assert_eq!(read_integer_reply(b":42"), Some(42));
    assert_eq!(read_integer_reply(b":-1\r\n"), None);
    assert_eq!(read_integer_reply(b"$42\r\n"), None);
    assert_eq!(read_integer_reply(b""), None);
    assert_eq!(still_wanted(10, 4), Some(6));
    assert_eq!(still_wanted(10, 10), None);
}

#[test]
fn conditions_decide_deletion() {
    let value = b("m");
    assert!(condition_met("ifeq", &value, "d", &b("m")));
    assert!(condition_met("IFNE", &value, "d", &b("n")));
    assert!(condition_met("IFDEQ", &value, "d", &b("d")));
    assert!(condition_met("IFDNE", &value, "d", &b("e")));
    assert!(condition_met("IFGT", &value, "d", &b("a")));
    assert!(condition_met("IFLT", &value, "d", &b("z")));
    assert!(!condition_met("IFGT", &value, "d", &b("m")));
    assert!(!condition_met("OTHER", &value, "d", &b("m")));
    assert!(delex_decision(true, None, "", None));
    assert!(!delex_decision(false, None, "", None));
    let condition = ("IFEQ".to_string(), b("m"));
    assert!(delex_decision(true, Some(&value), "d", Some(&condition)));
    assert!(!delex_decision(true, None, "d", Some(&condition)));
}

#[test]
fn indexes_are_there_or_not() {
    assert_eq!(check_new_index("i", false), Ok(()));
    assert_eq!(check_new_index("i", true), Err("Index already exists: i".to_string()));
    assert_eq!(dropped_index("i", &vec![false, true]), Ok(()));
    assert_eq!(dropped_index("i", &vec![false]), Err("Unknown Index name: i".to_string()));
}

#[test]
fn dumps_are_framed_and_sealed() {
    let body = frame_dump(&vec![vec![1, 2], vec![3]]);
    assert_eq!(body.last(), Some(&0xff));
    assert_eq!(&body[body.len() - 4..body.len() - 1], &[1, 2, 3]);
    assert_eq!(&body[..5], b"REDIS");
    let sealed = seal_dump(vec![9], 0x0102030405060708);
    assert_eq!(sealed, vec![9, 8, 7, 6, 5, 4, 3, 2, 1]);
}

#[test]
fn clients_are_listed_line_by_line() {
    let client = |id: u64, name: Option<&str>| ClientInfo {
        id,
        addr: "10.0.0.9:5000".to_string(),
        name: name.map(|n| n.to_string()),
        age_secs: 7,
        idle_secs: 2,
        blocked: id == 2,
        omem: 0,
        last_cmd: "GET".to_string(),
    };
    let all = client_list(&vec![client(1, Some("bob")), client(2, None)], 6379, &[]);
    assert_eq!(all.lines().count(), 2);
    assert!(all.starts_with(
        "id=1 addr=10.0.0.9:5000 laddr=127.0.0.1:6379 fd=8 name=bob age=7 idle=2 flags=N db=0"
    ));
    assert!(all.contains(" cmd=get user=default"));
    let some = client_list(&vec![client(1, Some("bob")), client(2, None)], 6379, &[2]);
    assert_eq!(some.lines().count(), 1);
    assert!(some.contains("name= age=7 idle=2 flags=b"));
}

fn no_stats() -> TieringStats {
    TieringStats {
        max_memory: 0,
        offload_threshold_pct: 80,
        tiered_keys: 0,
        tiered_bytes: 0,
        ram_saved_bytes: 0,
        cooled_keys: 0,
        total_fetches: 0,
        decommit_count: 0,
        streaming_reads: 0,
        ram_misses: 0,
        ram_hits: 0,
    }
}

#[test]
fn values_leave_memory_and_come_back() {
    let mut stats = no_stats();
    stats.note_spilled(100, 90);
    assert_eq!((stats.tiered_keys, stats.tiered_bytes, stats.ram_saved_bytes), (1, 100, 90));
    stats.note_loaded(90);
    assert_eq!((stats.tiered_keys, stats.cooled_keys, stats.ram_saved_bytes), (0, 1, 0));
    assert_eq!(stats.total_fetches, 1);
    stats.note_decommitted(1, 90);
    assert_eq!((stats.tiered_keys, stats.cooled_keys, stats.ram_saved_bytes), (1, 0, 90));
    assert_eq!(stats.decommit_count, 1);
    stats.note_decommitted(0, 5);
    assert_eq!(stats.ram_saved_bytes, 90);
    stats.note_cooled(10);
    assert_eq!((stats.cooled_keys, stats.tiered_bytes), (1, 110));
    stats.note_streamed();
    stats.note_hit();
    assert_eq!((stats.streaming_reads, stats.ram_misses, stats.ram_hits), (1, 1, 1));
}

#[test]
fn tiers_are_chosen() {
    assert!(matches!(plan_spill(true, true, true, true), SpillPlan::Refuse));
    assert!(matches!(plan_spill(false, true, false, false), SpillPlan::Decommit));
    assert!(matches!(plan_spill(false, false, true, true), SpillPlan::Stash));
    assert!(matches!(plan_spill(false, false, true, false), SpillPlan::Refuse));
    assert!(plan_cool(false, false, false, true, true));
    assert!(!plan_cool(false, false, true, true, true));
    assert!(matches!(plan_read(true, true, true, true), ReadPlan::Hit));
    assert!(matches!(plan_read(false, false, true, true), ReadPlan::Miss));
    assert!(matches!(plan_read(false, true, true, true), ReadPlan::Stream));
    assert!(matches!(plan_read(false, true, true, false), ReadPlan::Load));
    assert_eq!(merge_snapshots((true, 5), &vec![(true, 6), (false, 7)]), (false, 18, 3));
}

#[test]
fn memory_limits_are_shared_by_the_shards() {
    let mut router = Router::new(0, 4, 7000);
    let mut stats = no_stats();
    assert!(!router.is_memory_constrained(&stats, usize::MAX));
    stats.max_memory = 4000;
    assert!(router.is_memory_constrained(&stats, 800));
    assert!(!router.is_memory_constrained(&stats, 799));
    assert!(router.is_over_limit(4000, 1001));
    assert!(!router.is_over_limit(4000, 1000));
    assert!(!router.is_over_limit(0, 1001));
    assert!(router.starts_tiering(4000, 0, 10));
    assert!(!router.starts_tiering(4000, 3, 1000));
    assert!(router.evicts("allkeys-lru", 4000, 1001, 31));
    assert!(!router.evicts("allkeys-lru", 4000, 1001, 32));
    assert!(!router.evicts("noeviction", 4000, 1001, 0));
    assert!(router.begin_tiering(4000, 1001));
    assert!(!router.begin_tiering(4000, 1001));
    assert!(!router.is_over_limit(4000, 1001));
    assert!(router.is_tiering_done(4000, 1000));
    router.end_tiering();
    assert!(!router.begin_tiering(4000, 1000));
}
