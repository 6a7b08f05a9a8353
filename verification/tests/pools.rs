use zks_tunnel::packet_pool::{PacketBufPool, DEFAULT_POOL_CAPACITY, TUN_BUF_SIZE};
use zks_tunnel::traffic_shaping::{
    BufferPool, ShapedSend, TimingShaper, TrafficShaper, TrafficShapingConfig, PACKET_SIZES,
};

#[test]
fn test_packet_size_selection() {
    let config = TrafficShapingConfig::balanced();
    let shaper = TrafficShaper::new(config);

    assert_eq!(shaper.select_target_size(100), 536);
    assert_eq!(shaper.select_target_size(536), 536);
    assert_eq!(shaper.select_target_size(537), 1200);
    assert_eq!(shaper.select_target_size(1200), 1200);
    assert_eq!(shaper.select_target_size(1201), 1460);
    assert_eq!(shaper.select_target_size(1460), 1460);
    assert_eq!(shaper.select_target_size(2000), 1460); // Max size
}

#[test]
fn test_buffer_pool() {
    let mut pool = BufferPool::new();

    // Get buffer
    let buf1 = pool.get(536);
    assert_eq!(buf1.len(), 536);

    // Return buffer
    pool.return_buf(buf1);

    // Get again (should reuse)
    let buf2 = pool.get(536);
    assert_eq!(buf2.len(), 536);
}

#[test]
fn test_timing_shaper() {
    let config = TrafficShapingConfig::stealth();
    let mut shaper = TimingShaper::new(config);

    let mut output: Vec<u8> = Vec::new();
    let packet = vec![1, 2, 3, 4];

    // Send packet
    assert!(matches!(shaper.send_with_shaping(packet.clone()), ShapedSend::Batched));

    // Should be batched (not sent yet)
    assert_eq!(output.len(), 0);

    // Send more packets to fill batch
    for _ in 0..config.batch_size {
        if let ShapedSend::Flush = shaper.send_with_shaping(packet.clone()) {
            let (_, packets) = shaper.flush_batch(0);
            for p in packets {
                output.extend_from_slice(&p);
            }
        }
    }

    // Should be sent now
    assert!(output.len() > 0);
}

#[test]
fn a_pool_hands_out_buffers_of_its_size_filled_with_zeros() {
    let mut pool = PacketBufPool::new(DEFAULT_POOL_CAPACITY, TUN_BUF_SIZE);
    let buf = pool.get();
    assert_eq!(buf.len(), 2048);
    assert!(buf.iter().all(|b| *b == 0));
    assert_eq!(pool.len(), 0);
}

#[test]
fn a_returned_buffer_is_reused_and_cleared() {
    let mut pool = PacketBufPool::new(4, 16);
    let mut buf = pool.get();
    buf[0] = 0xAA;
    buf[15] = 0xBB;
    pool.return_buf(buf);
    assert_eq!(pool.len(), 1);
    let again = pool.get();
    assert_eq!(again, vec![0u8; 16]);
    assert_eq!(pool.len(), 0);
}

#[test]
fn the_pool_never_grows_beyond_its_capacity() {
    let mut pool = PacketBufPool::new(3, 8);
    for _ in 0..10 {
        pool.return_buf(vec![0u8; 8]);
        assert!(pool.len() <= 3);
    }
    assert_eq!(pool.len(), 3);
    for _ in 0..3 {
        pool.get();
    }
    assert_eq!(pool.len(), 0);
    pool.get();
    assert_eq!(pool.len(), 0);
}

#[test]
fn a_buffer_of_too_little_capacity_is_dropped() {
    let mut pool = PacketBufPool::new(4, 64);
    pool.return_buf_of_capacity(vec![0u8; 8], 8);
    assert_eq!(pool.len(), 0);
    pool.return_buf_of_capacity(vec![0u8; 8], 64);
    assert_eq!(pool.len(), 1);
    pool.return_buf(Vec::with_capacity(64));
    assert_eq!(pool.len(), 2);
    // Whatever the buffer held, it comes out at the pool's size.
    assert_eq!(pool.get().len(), 64);
}

#[test]
fn buffers_leave_the_pool_oldest_first() {
    let mut pool = PacketBufPool::new(2, 0);
    pool.return_buf(vec![1u8]);
    pool.return_buf(vec![2u8, 2]);
    pool.return_buf(vec![3u8, 3, 3]);
    assert_eq!(pool.len(), 2);
    assert_eq!(pool.get().len(), 0);
    assert_eq!(pool.len(), 1);
}

#[test]
fn a_new_padding_pool_holds_ten_buffers_of_each_size() {
    let mut pool = BufferPool::default();
    for size in PACKET_SIZES {
        for _ in 0..12 {
            assert_eq!(pool.get(size).len(), size);
        }
    }
    assert_eq!(pool.get(700).len(), 700);
    assert_eq!(pool.get(0).len(), 0);
}

#[test]
fn padding_buffers_are_random() {
    let mut pool = BufferPool::new();
    let a = pool.get(1460);
    let b = pool.get(1460);
    assert_ne!(a, b);
    assert!(a.iter().any(|x| *x != 0));
}

#[test]
fn the_padding_pool_keeps_at_most_twenty_of_a_size() {
    let mut pool = BufferPool::new();
    for _ in 0..40 {
        pool.return_buf_of_capacity(Vec::with_capacity(536), 536);
    }
    // Ten were there, ten more were kept: twenty come back before a fresh one is made.
    for _ in 0..25 {
        assert_eq!(pool.get(536).len(), 536);
    }
    pool.return_buf_of_capacity(vec![1, 2, 3], 3);
    assert_eq!(pool.get(1200).len(), 1200);
}

#[test]
fn padding_keeps_the_packet_and_reaches_the_target_size() {
    let mut shaper = TrafficShaper::new(TrafficShapingConfig::balanced());
    let mut packet = vec![7u8; 100];
    shaper.pad_packet(&mut packet);
    assert_eq!(packet.len(), 536);
    assert_eq!(&packet[..100], &[7u8; 100][..]);
    let mut mid = vec![9u8; 537];
    shaper.pad_packet(&mut mid);
    assert_eq!(mid.len(), 1200);
    assert_eq!(&mid[..537], &[9u8; 537][..]);
    let mut exact = vec![1u8; 1460];
    shaper.pad_packet(&mut exact);
    assert_eq!(exact, vec![1u8; 1460]);
    let mut large = vec![2u8; 2000];
    shaper.pad_packet(&mut large);
    assert_eq!(large, vec![2u8; 2000]);
}

#[test]
fn fast_mode_pads_nothing() {
    let mut shaper = TrafficShaper::new(TrafficShapingConfig::fast());
    let mut packet = vec![7u8; 100];
    shaper.pad_packet(&mut packet);
    assert_eq!(packet, vec![7u8; 100]);
}

#[test]
fn the_three_modes_have_their_settings() {
    let fast = TrafficShapingConfig::fast();
    assert!(!fast.packet_padding && !fast.timing_obfuscation && !fast.burst_shaping);
    assert_eq!((fast.target_delay_us, fast.batch_size), (0, 1));
    let balanced = TrafficShapingConfig::balanced();
    assert!(balanced.packet_padding && !balanced.timing_obfuscation && !balanced.burst_shaping);
    assert_eq!((balanced.target_delay_us, balanced.batch_size), (100, 4));
    let stealth = TrafficShapingConfig::stealth();
    assert!(stealth.packet_padding && stealth.timing_obfuscation && stealth.burst_shaping);
    assert_eq!((stealth.target_delay_us, stealth.batch_size), (500, 8));
}

#[test]
fn without_timing_obfuscation_packets_are_written_at_once() {
    let mut shaper = TimingShaper::new(TrafficShapingConfig::balanced());
    match shaper.send_with_shaping(vec![1, 2, 3]) {
        ShapedSend::Write(packet) => assert_eq!(packet, vec![1, 2, 3]),
        other => panic!("expected a write, got {:?}", other),
    }
    assert_eq!(shaper.flush(0), (0, Vec::<Vec<u8>>::new()));
}

#[test]
fn a_full_batch_is_flushed_in_order_after_the_missing_delay() {
    let mut shaper = TimingShaper::new(TrafficShapingConfig::stealth());
    for n in 0..7u8 {
        assert!(matches!(shaper.send_with_shaping(vec![n]), ShapedSend::Batched));
    }
    assert!(matches!(shaper.send_with_shaping(vec![7]), ShapedSend::Flush));
    // Eight packets at 500 µs each: 4000 µs, of which 1500 have passed.
    let (delay, packets) = shaper.flush_batch(1500);
    assert_eq!(delay, 2500);
    assert_eq!(packets, (0..8u8).map(|n| vec![n]).collect::<Vec<_>>());
    assert_eq!(shaper.flush_batch(0), (0, Vec::<Vec<u8>>::new()));
}

#[test]
fn no_delay_when_enough_time_has_passed() {
    let mut shaper = TimingShaper::new(TrafficShapingConfig::stealth());
    shaper.send_with_shaping(vec![1]);
    shaper.send_with_shaping(vec![2]);
    let (delay, packets) = shaper.flush(1000);
    assert_eq!(delay, 0);
    assert_eq!(packets.len(), 2);
    shaper.send_with_shaping(vec![3]);
    assert_eq!(shaper.flush(499).0, 1);
}

#[test]
fn a_delay_beyond_the_range_is_capped() {
    let config = TrafficShapingConfig {
        packet_padding: false,
        timing_obfuscation: true,
        burst_shaping: false,
        target_delay_us: u64::MAX,
        batch_size: 8,
    };
    let mut shaper = TimingShaper::new(config);
    shaper.send_with_shaping(vec![1]);
    shaper.send_with_shaping(vec![2]);
    assert_eq!(shaper.flush(10).0, u64::MAX - 10);
}

#[test]
fn a_default_padding_pool_is_filled_beforehand() {
    let mut pool = BufferPool::default();
    // Ten buffers of each size are there: taking them allocates nothing new,
    // and each has its size.
    for size in PACKET_SIZES {
        for _ in 0..10 {
            assert_eq!(pool.get(size).len(), size);
        }
    }
    // A buffer that comes back is kept for its size.
    pool.return_buf_of_capacity(Vec::with_capacity(1200), 1200);
    assert_eq!(pool.get(1200).len(), 1200);
}
