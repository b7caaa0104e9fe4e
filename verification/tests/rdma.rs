use smg::grpc::multimodal::types::TransportMode;
use smg::grpc::rdma::{
    env_secs, explicit_ttl, export_pixel_buffer, gw_listen_port, pool_slots, rdma_enabled, slot_bytes, slot_ttl,
    worker_max_hold, SlotPool, FRAME_OVERHEAD, GEN_BYTES,
};

const SECOND: u128 = 1_000_000_000;
const BASE: usize = 4096;

fn test_pool(n_slots: usize, slot_bytes: usize) -> SlotPool {
    SlotPool::new(BASE, vec![0u8; n_slots * slot_bytes], slot_bytes, n_slots)
}

fn max_hold() -> u64 {
    worker_max_hold(env_secs(None, 120), env_secs(None, 60))
}

fn stamp(pool: &SlotPool, addr: u64) -> u64 {
    u64::from_le_bytes(pool.bytes_at(addr, GEN_BYTES).unwrap().try_into().unwrap())
}

#[test]
fn short_ttl_recycles_slot_under_a_live_descriptor() {
    let mut pool = test_pool(1, 64);
    let t0 = 5 * SECOND;
    let img_a = b"AAAAAAAAAAAAAAAA".to_vec();
    let (_slot_a, addr_a, _gen_a) = pool.lease_and_write(1, &img_a, t0).expect("lease A");

    // The reaper runs with a 30s TTL after 31s -> reclaims the still-referenced slot.
    let freed = pool.reap_stale(t0 + 31 * SECOND, 30 * SECOND);
    assert_eq!(freed, 1, "30s TTL reclaims a slot still under a live descriptor");

    // The next image re-leases the freed slot -> same physical address.
    let img_b = b"BBBBBBBBBBBBBBBB".to_vec();
    let (_slot_b, addr_b, _gen_b) =
        pool.lease_and_write(2, &img_b, t0 + 31 * SECOND).expect("lease B");
    assert_eq!(addr_a, addr_b, "freed slot's address is reused");

    assert_eq!(
        pool.bytes_at(addr_a + GEN_BYTES as u64, img_b.len()).unwrap(),
        img_b,
        "stale READ returns the WRONG image's payload (physical cross-wire remains)"
    );
}

#[test]
fn gen_guard_detects_recycled_slot() {
    let mut pool = test_pool(1, 64);
    let t0 = 5 * SECOND;
    let img_a = b"AAAAAAAA".to_vec();
    let (_a, addr_a, gen_a) = pool.lease_and_write(1, &img_a, t0).expect("lease A");

    // Recycle under a too-short TTL (the residual the gen guard backstops).
    pool.reap_stale(t0 + 31 * SECOND, 30 * SECOND);
    let img_b = b"BBBBBBBB".to_vec();
    let (_b, addr_b, gen_b) =
        pool.lease_and_write(2, &img_b, t0 + 31 * SECOND).expect("lease B");
    assert_eq!(addr_a, addr_b, "slot address is physically reused");
    assert_ne!(gen_a, gen_b, "each lease gets a fresh, larger generation");

    let hdr = stamp(&pool, addr_a);
    let trl = stamp(&pool, addr_a + (GEN_BYTES + img_b.len()) as u64);
    assert_eq!(hdr, gen_b);
    assert_eq!(trl, gen_b);
    assert_ne!(hdr, gen_a, "stamp != descriptor gen -> worker fails the room");
}

#[test]
fn gen_framing_brackets_the_payload() {
    let mut pool = test_pool(1, 64);
    let (_s, addr, gen) =
        pool.lease_and_write(7, &b"PIXELS!!".to_vec(), 0).expect("lease");
    assert_eq!(stamp(&pool, addr), gen, "header stamp == gen");
    assert_eq!(pool.bytes_at(addr + GEN_BYTES as u64, 8).unwrap(), b"PIXELS!!", "payload");
    assert_eq!(stamp(&pool, addr + (GEN_BYTES + 8) as u64), gen, "trailer stamp == gen");
}

#[test]
fn slot_ttl_exceeds_worker_max_hold() {
    assert!(
        slot_ttl(None, max_hold()) > max_hold(),
        "slot_ttl must exceed worker_max_hold or a late READ cross-wires"
    );
}

#[test]
fn derived_ttl_keeps_slot_through_worker_hold() {
    let mut pool = test_pool(1, 64);
    let t0 = 5 * SECOND;
    let hold = max_hold() as u128 * SECOND;
    let ttl = slot_ttl(None, max_hold()) as u128 * SECOND;
    let (_slot_a, addr_a, _gen_a) =
        pool.lease_and_write(1, &b"AAAAAAAAAAAAAAAA".to_vec(), t0).expect("lease A");

    let freed = pool.reap_stale(t0 + hold, ttl);
    assert_eq!(freed, 0, "derived TTL must not reclaim within the worker hold");

    // Slot still leased -> no free slot -> caller goes inline, no address reuse.
    assert!(
        pool.lease_and_write(2, &b"BBBBBBBBBBBBBBBB".to_vec(), t0 + hold).is_none(),
        "leased slot is not handed to a second image"
    );
    assert_eq!(
        pool.bytes_at(addr_a + GEN_BYTES as u64, 16).unwrap(),
        b"AAAAAAAAAAAAAAAA",
        "the slot still holds room 1's pixels (payload at +GEN_BYTES) for its READ"
    );
}

#[test]
fn multi_slot_addresses_recycle_after_reclaim() {
    let mut pool = test_pool(2, 64);
    let t0 = 0;
    let (_a, addr_a, _ga) = pool.lease_and_write(1, &b"A".to_vec(), t0).unwrap();
    let (_b, addr_b, _gb) = pool.lease_and_write(2, &b"B".to_vec(), t0).unwrap();
    assert_ne!(addr_a, addr_b, "distinct leases get distinct addresses");

    let freed = pool.reap_stale(t0 + 31 * SECOND, 30 * SECOND);
    assert_eq!(freed, 2);

    let (_c, addr_c, _gc) =
        pool.lease_and_write(3, &b"C".to_vec(), t0 + 31 * SECOND).unwrap();
    assert!(
        addr_c == addr_a || addr_c == addr_b,
        "a reclaimed address is reused by the next lease"
    );
}

#[test]
fn oversize_rejected_and_free_returns_slot() {
    // Slot holds FRAME_OVERHEAD (16) of gen stamps + payload, so 24 bytes => 8 of
    // usable payload.
    let mut pool = test_pool(1, FRAME_OVERHEAD + 8);
    let t0 = 0;
    assert!(
        pool.lease_and_write(1, &vec![0u8; 9], t0).is_none(),
        "payload + gen frame larger than a slot is rejected"
    );
    let (_s, _addr, _g) = pool.lease_and_write(1, &vec![1u8; 8], t0).expect("fits exactly");
    assert!(pool.lease_and_write(2, &vec![2u8; 8], t0).is_none(), "pool now full");
    pool.free_room(1);
    assert!(pool.lease_and_write(2, &vec![2u8; 8], t0).is_some(), "freed slot is reusable");
}

#[test]
fn other_slots_keep_their_pixels() {
    let mut pool = test_pool(2, 32);
    let (_, addr_a, _) = pool.lease_and_write(1, &vec![1u8; 16], 0).unwrap();
    let (_, _, _) = pool.lease_and_write(2, &vec![2u8; 16], 0).unwrap();
    assert_eq!(pool.bytes_at(addr_a + GEN_BYTES as u64, 16).unwrap(), vec![1u8; 16]);
    assert!(pool.bytes_at(BASE as u64 - 1, 1).is_none());
}

#[test]
fn settings_of_the_lane() {
    assert_eq!(slot_ttl(None, 180), 210);
    assert_eq!(slot_ttl(Some("900"), 180), 900);
    assert_eq!(slot_ttl(Some("900"), u64::MAX), 900);
    assert_eq!(slot_ttl(Some("soon"), 180), 210);
    assert_eq!(explicit_ttl(Some("900")), Some(900));
    assert_eq!(explicit_ttl(Some("soon")), None);
    assert_eq!(worker_max_hold(120, 60), 180);
    assert_eq!(gw_listen_port(None), 18515);
    assert_eq!(gw_listen_port(Some("7000")), 7000);
    assert_eq!(pool_slots(Some("nope")), 64);
    assert_eq!(slot_bytes(None), 33554432);
    assert!(rdma_enabled(TransportMode::Rdma, None));
    assert!(!rdma_enabled(TransportMode::Auto, None));
}

#[test]
fn pixels_come_back_when_the_lane_is_full() {
    let mut none: Option<SlotPool> = None;
    assert_eq!(export_pixel_buffer(&mut none, "10.0.0.1", 1, 2, vec![9], 0), Err(vec![9]));
    let mut pool = Some(test_pool(1, 32));
    assert!(export_pixel_buffer(&mut pool, "10.0.0.1", 1, 2, vec![9], 0).is_ok());
    assert_eq!(export_pixel_buffer(&mut pool, "10.0.0.1", 1, 3, vec![8], 0), Err(vec![8]));
}

#[test]
fn reported_and_stale_leases_end() {
    let mut pool = test_pool(3, 64);
    let image = b"pixels".to_vec();
    pool.lease_and_write(7, &image, 0).unwrap();
    pool.lease_and_write(-8, &image, 10 * SECOND).unwrap();
    pool.lease_and_write(9, &image, 10 * SECOND).unwrap();
    assert!(pool.lease_and_write(10, &image, 10 * SECOND).is_none());

    let tags = vec!["-8".to_string(), "9x".to_string(), "400".to_string()];
    pool.reap(&tags, 20 * SECOND, 15 * SECOND);

    // Rooms 7 (stale) and -8 (reported) gave their slots back, room 9 kept its own.
    assert!(pool.lease_and_write(11, &image, 20 * SECOND).is_some());
    assert!(pool.lease_and_write(12, &image, 20 * SECOND).is_some());
    assert!(pool.lease_and_write(13, &image, 20 * SECOND).is_none());
    pool.reap(&vec!["9".to_string()], 20 * SECOND, 15 * SECOND);
    assert!(pool.lease_and_write(13, &image, 20 * SECOND).is_some());
}

#[test]
fn generations_grow_with_each_lease() {
    let mut pool = test_pool(2, 64);
    let (slot_a, _, gen_a) = pool.lease_and_write(1, &b"a".to_vec(), 0).unwrap();
    let (slot_b, _, gen_b) = pool.lease_and_write(2, &b"b".to_vec(), 0).unwrap();
    assert_ne!(slot_a, slot_b);
    assert!(gen_b > gen_a);
    pool.free_room(1);
    let (slot_c, _, gen_c) = pool.lease_and_write(3, &b"c".to_vec(), 0).unwrap();
    assert_eq!(slot_c, slot_a);
    assert!(gen_c > gen_b);
}
